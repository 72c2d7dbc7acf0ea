//! Text as sequences of characters: conversions between strings and character
//! vectors, whitespace, trimming, splitting and decimal numbers.
//!
//! Every contract here is stated over `Seq<char>`, the view of `str` and `String`.
use vstd::prelude::*;

verus! {

/// `String::push` appends one character to the end of the string.
pub assume_specification[ String::push ](s: &mut String, ch: char)
    ensures
        final(s)@ == old(s)@.push(ch),
;

/// The characters of `s`, in order.
pub fn chars_of(s: &str) -> (out: Vec<char>)
    ensures
        out@ == s@,
{
    let mut out: Vec<char> = Vec::new();
    for c in it: s.chars()
        invariant
            out@ == it.seq().take(it.index()),
            it.seq() == s@,
    {
        out.push(c);
    }
    out
}

/// Appends the characters `v[from..to]` to `out`.
pub fn push_range(out: &mut String, v: &Vec<char>, from: usize, to: usize)
    requires
        from <= to <= v.len(),
    ensures
        final(out)@ == old(out)@ + v@.subrange(from as int, to as int),
{
    let mut i: usize = from;
    while i < to
        invariant
            from <= i <= to <= v.len(),
            out@ == old(out)@ + v@.subrange(from as int, i as int),
        decreases to - i,
    {
        out.push(v[i]);
        i += 1;
        assert(v@.subrange(from as int, i as int) == v@.subrange(from as int, i - 1).push(
            v@[i - 1],
        ));
    }
}

/// The string made of the characters of `v`.
pub fn string_of(v: &Vec<char>) -> (out: String)
    ensures
        out@ == v@,
{
    let mut out = String::new();
    push_range(&mut out, v, 0, v.len());
    assert(v@.subrange(0, v.len() as int) == v@);
    out
}

/// A copy of `v[from..to]`.
pub fn slice_of(v: &Vec<char>, from: usize, to: usize) -> (out: Vec<char>)
    requires
        from <= to <= v.len(),
    ensures
        out@ == v@.subrange(from as int, to as int),
{
    let mut out: Vec<char> = Vec::new();
    let mut i: usize = from;
    while i < to
        invariant
            from <= i <= to <= v.len(),
            out@ == v@.subrange(from as int, i as int),
        decreases to - i,
    {
        out.push(v[i]);
        i += 1;
    }
    out
}

/// Whether two character vectors hold the same text.
pub fn chars_eq(a: &Vec<char>, b: &Vec<char>) -> (same: bool)
    ensures
        same == (a@ == b@),
{
    if a.len() != b.len() {
        return false;
    }
    let mut i: usize = 0;
    while i < a.len()
        invariant
            i <= a.len() == b.len(),
            a@.take(i as int) == b@.take(i as int),
        decreases a.len() - i,
    {
        if a[i] != b[i] {
            return false;
        }
        i += 1;
        assert(a@.take(i as int) == a@.take(i - 1).push(a@[i - 1]));
        assert(b@.take(i as int) == b@.take(i - 1).push(b@[i - 1]));
    }
    assert(a@ == a@.take(a.len() as int));
    assert(b@ == b@.take(b.len() as int));
    true
}

/// Whether two strings hold the same text.
pub fn str_eq(a: &str, b: &str) -> (same: bool)
    ensures
        same == (a@ == b@),
{
    let x = chars_of(a);
    let y = chars_of(b);
    chars_eq(&x, &y)
}

/// Whether `v` holds the text of `s`.
pub fn chars_are(v: &Vec<char>, s: &str) -> (same: bool)
    ensures
        same == (v@ == s@),
{
    let y = chars_of(s);
    chars_eq(v, &y)
}

/// The views of the items of `v`, in order.
pub open spec fn views<T: View>(v: Seq<T>) -> Seq<T::V> {
    Seq::new(v.len(), |i: int| v[i]@)
}

/// The views of a sequence with one more item are the views with one more view.
pub proof fn lemma_views_push<T: View>(s: Seq<T>, x: T)
    ensures
        views(s.push(x)) == views(s).push(x@),
{
    assert(views(s.push(x)) =~= views(s).push(x@));
}

/// A result with its value or its error replaced by the view.
pub open spec fn result_view<T: View, E: View>(r: Result<T, E>) -> Result<T::V, E::V> {
    match r {
        Ok(t) => Ok(t@),
        Err(e) => Err(e@),
    }
}

/// Removing a prefix that was put in front gives the rest back.
pub proof fn lemma_strip_prefix(prefix: Seq<char>, rest: Seq<char>)
    ensures
        strip_prefix(prefix + rest, prefix) == rest,
{
    assert((prefix + rest).take(prefix.len() as int) == prefix);
    assert((prefix + rest).skip(prefix.len() as int) == rest);
}

/// Two texts without `c`, one after the other, hold no `c`.
pub proof fn lemma_concat_lacks(a: Seq<char>, b: Seq<char>, c: char)
    requires
        !a.contains(c),
        !b.contains(c),
    ensures
        !(a + b).contains(c),
{
    assert forall|i: int| 0 <= i < (a + b).len() implies (a + b)[i] != c by {
        if i < a.len() {
            assert(a.contains(a[i]));
        } else {
            assert(b.contains(b[i - a.len()]));
        }
    }
}

/// A text of one character other than `c` holds no `c`.
pub proof fn lemma_single_lacks(x: char, c: char)
    requires
        x != c,
    ensures
        !seq![x].contains(c),
{
}

/// The characters with the Unicode property `White_Space`.
pub open spec fn is_space(c: char) -> bool {
    ||| '\u{9}' <= c <= '\u{d}'
    ||| c == ' '
    ||| c == '\u{85}'
    ||| c == '\u{a0}'
    ||| c == '\u{1680}'
    ||| '\u{2000}' <= c <= '\u{200a}'
    ||| c == '\u{2028}'
    ||| c == '\u{2029}'
    ||| c == '\u{202f}'
    ||| c == '\u{205f}'
    ||| c == '\u{3000}'
}

/// Whether `c` is whitespace.
pub fn is_whitespace(c: char) -> (r: bool)
    ensures
        r == is_space(c),
{
    ('\u{9}' <= c && c <= '\u{d}') || c == ' ' || c == '\u{85}' || c == '\u{a0}' || c
        == '\u{1680}' || ('\u{2000}' <= c && c <= '\u{200a}') || c == '\u{2028}' || c
        == '\u{2029}' || c == '\u{202f}' || c == '\u{205f}' || c == '\u{3000}'
}

/// `s` without its leading whitespace.
pub open spec fn trim_start(s: Seq<char>) -> Seq<char>
    decreases s.len(),
{
    if s.len() > 0 && is_space(s[0]) {
        trim_start(s.drop_first())
    } else {
        s
    }
}

/// `s` without its trailing whitespace.
pub open spec fn trim_end(s: Seq<char>) -> Seq<char>
    decreases s.len(),
{
    if s.len() > 0 && is_space(s.last()) {
        trim_end(s.drop_last())
    } else {
        s
    }
}

/// `s` without leading and trailing whitespace.
pub open spec fn trim(s: Seq<char>) -> Seq<char> {
    trim_end(trim_start(s))
}

/// Text that `trim` leaves as it is.
pub open spec fn is_trimmed(s: Seq<char>) -> bool {
    s.len() > 0 ==> !is_space(s[0]) && !is_space(s.last())
}

/// Text without whitespace around it stays as it is.
pub proof fn lemma_trim_of_trimmed(s: Seq<char>)
    requires
        is_trimmed(s),
    ensures
        trim(s) == s,
{
}

/// A copy of `v` without the whitespace around it.
pub fn trimmed(v: &Vec<char>) -> (out: Vec<char>)
    ensures
        out@ == trim(v@),
{
    let mut i: usize = 0;
    assert(v@.skip(0) == v@);
    while i < v.len() && is_whitespace(v[i])
        invariant
            i <= v.len(),
            trim_start(v@) == trim_start(v@.skip(i as int)),
        decreases v.len() - i,
    {
        assert(v@.skip(i as int).drop_first() == v@.skip(i + 1));
        i += 1;
    }
    let mut j: usize = v.len();
    assert(v@.skip(i as int) == v@.subrange(i as int, j as int));
    while j > i && is_whitespace(v[j - 1])
        invariant
            i <= j <= v.len(),
            trim_end(v@.skip(i as int)) == trim_end(v@.subrange(i as int, j as int)),
        decreases j,
    {
        assert(v@.subrange(i as int, j as int).drop_last() == v@.subrange(i as int, j - 1));
        j -= 1;
    }
    slice_of(v, i, j)
}

/// The position of the first `c` in `s`, or the length of `s` where it holds none.
pub open spec fn index_of(s: Seq<char>, c: char) -> int
    decreases s.len(),
{
    if s.len() == 0 {
        0
    } else if s[0] == c {
        0
    } else {
        1 + index_of(s.drop_first(), c)
    }
}

/// What `index_of` finds: a place within the text, or its length; the first `c`, where there is one.
pub proof fn lemma_index_of(s: Seq<char>, c: char)
    ensures
        0 <= index_of(s, c) <= s.len(),
        index_of(s, c) < s.len() ==> s[index_of(s, c)] == c,
        forall|j: int| 0 <= j < index_of(s, c) ==> s[j] != c,
        index_of(s, c) == s.len() <==> !s.contains(c),
    decreases s.len(),
{
    if s.len() > 0 && s[0] != c {
        let t = s.drop_first();
        lemma_index_of(t, c);
        assert forall|j: int| 0 <= j < index_of(s, c) implies s[j] != c by {
            if j > 0 {
                assert(s[j] == t[j - 1]);
            }
        }
        if index_of(t, c) == t.len() {
            assert forall|j: int| 0 <= j < s.len() implies s[j] != c by {
                if j > 0 {
                    assert(s[j] == t[j - 1]);
                }
            }
        } else {
            assert(s[1 + index_of(t, c)] == c);
        }
    } else if s.len() > 0 {
        assert(s[0] == c);
    }
}

/// The first position `i` with `s[i] == c` is `index_of(s, c)`.
pub proof fn lemma_index_of_first(s: Seq<char>, c: char, i: int)
    requires
        0 <= i <= s.len(),
        forall|j: int| 0 <= j < i ==> s[j] != c,
        i < s.len() ==> s[i] == c,
    ensures
        index_of(s, c) == i,
{
    lemma_index_of(s, c);
}

/// The position of the first `c` at or after `from`, or the length of `v`.
pub fn find_char(v: &Vec<char>, from: usize, c: char) -> (at: usize)
    requires
        from <= v.len(),
    ensures
        at == from + index_of(v@.skip(from as int), c),
        from <= at <= v.len(),
{
    let mut i: usize = from;
    while i < v.len() && v[i] != c
        invariant
            from <= i <= v.len(),
            forall|j: int| from <= j < i ==> v@[j] != c,
        decreases v.len() - i,
    {
        i += 1;
    }
    proof {
        lemma_index_of_first(v@.skip(from as int), c, i - from);
    }
    i
}

/// The pieces of `s` between the occurrences of `sep`: one more than there are
/// occurrences, empty pieces included.
pub open spec fn split(s: Seq<char>, sep: char) -> Seq<Seq<char>>
    decreases s.len(),
{
    let i = index_of(s, sep);
    if 0 <= i < s.len() {
        seq![s.take(i)] + split(s.skip(i + 1), sep)
    } else {
        seq![s]
    }
}

/// Text without a separator is one piece.
pub proof fn lemma_split_without(s: Seq<char>, sep: char)
    requires
        !s.contains(sep),
    ensures
        split(s, sep) == seq![s],
{
    lemma_index_of(s, sep);
}

/// Splitting `a + [sep] + b`, where `a` holds no separator, gives `a` and then the pieces of `b`.
pub proof fn lemma_split_first(a: Seq<char>, sep: char, b: Seq<char>)
    requires
        !a.contains(sep),
    ensures
        split(a + seq![sep] + b, sep) == seq![a] + split(b, sep),
{
    let s = a + seq![sep] + b;
    assert forall|j: int| 0 <= j < a.len() implies s[j] != sep by {
        assert(s[j] == a[j]);
        assert(a.contains(a[j]));
    }
    lemma_index_of_first(s, sep, a.len() as int);
    assert(s.take(a.len() as int) == a);
    assert(s.skip(a.len() as int + 1) == b);
}

/// The pieces of `v` between the occurrences of `sep`.
pub fn split_chars(v: &Vec<char>, sep: char) -> (out: Vec<Vec<char>>)
    ensures
        views(out@) == split(v@, sep),
{
    let mut out: Vec<Vec<char>> = Vec::new();
    let mut start: usize = 0;
    let mut done = false;
    assert(v@.skip(0) == v@);
    assert(views(out@) == Seq::<Seq<char>>::empty());
    while !done
        invariant
            start <= v.len(),
            !done ==> split(v@, sep) == views(out@) + split(v@.skip(start as int), sep),
            done ==> split(v@, sep) == views(out@),
        decreases v.len() - start + (if done { 0int } else { 1int }),
    {
        let at = find_char(v, start, sep);
        let piece = slice_of(v, start, at);
        let ghost before = views(out@);
        let ghost rest = v@.skip(start as int);
        out.push(piece);
        assert(views(out@) == before.push(piece@));
        assert(rest.take(at - start) == piece@);
        if at < v.len() {
            assert(rest.skip(at - start + 1) == v@.skip(at + 1));
            start = at + 1;
        } else {
            assert(rest.take(at - start) == rest);
            done = true;
        }
    }
    out
}

/// The texts of `parts`, each followed by `sep` but the last.
pub open spec fn join(parts: Seq<Seq<char>>, sep: Seq<char>) -> Seq<char>
    decreases parts.len(),
{
    if parts.len() == 0 {
        Seq::empty()
    } else if parts.len() == 1 {
        parts[0]
    } else {
        join(parts.drop_last(), sep) + sep + parts.last()
    }
}

/// Whether `s` begins with `prefix`.
pub open spec fn starts_with(s: Seq<char>, prefix: Seq<char>) -> bool {
    prefix.len() <= s.len() && s.take(prefix.len() as int) == prefix
}

/// Whether `v` begins with `prefix`.
pub fn has_prefix(v: &Vec<char>, prefix: &Vec<char>) -> (r: bool)
    ensures
        r == starts_with(v@, prefix@),
{
    if prefix.len() > v.len() {
        return false;
    }
    let head = slice_of(v, 0, prefix.len());
    chars_eq(&head, prefix)
}

/// `s` without `prefix` in front, where it begins with it.
pub open spec fn strip_prefix(s: Seq<char>, prefix: Seq<char>) -> Seq<char> {
    if starts_with(s, prefix) {
        s.skip(prefix.len() as int)
    } else {
        s
    }
}

/// A copy of `v` without `prefix` in front, where it begins with it.
pub fn without_prefix(v: &Vec<char>, prefix: &str) -> (out: Vec<char>)
    ensures
        out@ == strip_prefix(v@, prefix@),
{
    let p = chars_of(prefix);
    if has_prefix(v, &p) {
        slice_of(v, p.len(), v.len())
    } else {
        assert(v@.subrange(0, v.len() as int) == v@);
        slice_of(v, 0, v.len())
    }
}

/// Text made of whitespace only.
pub open spec fn all_space(s: Seq<char>) -> bool {
    forall|i: int| 0 <= i < s.len() ==> is_space(#[trigger] s[i])
}

/// Whitespace in front does not change what is left without the leading whitespace.
pub proof fn lemma_trim_start_padded(pad: Seq<char>, s: Seq<char>)
    requires
        all_space(pad),
    ensures
        trim_start(pad + s) == trim_start(s),
    decreases pad.len(),
{
    if pad.len() == 0 {
        assert(pad + s == s);
    } else {
        assert((pad + s)[0] == pad[0]);
        assert((pad + s).drop_first() == pad.drop_first() + s);
        assert forall|i: int| 0 <= i < pad.drop_first().len() implies is_space(
            #[trigger] pad.drop_first()[i],
        ) by {
            assert(pad.drop_first()[i] == pad[i + 1]);
        }
        lemma_trim_start_padded(pad.drop_first(), s);
    }
}

/// Whitespace behind does not change what is left without the trailing whitespace.
pub proof fn lemma_trim_end_padded(s: Seq<char>, pad: Seq<char>)
    requires
        all_space(pad),
    ensures
        trim_end(s + pad) == trim_end(s),
    decreases pad.len(),
{
    if pad.len() == 0 {
        assert(s + pad == s);
    } else {
        assert((s + pad).last() == pad.last());
        assert((s + pad).drop_last() == s + pad.drop_last());
        assert forall|i: int| 0 <= i < pad.drop_last().len() implies is_space(
            #[trigger] pad.drop_last()[i],
        ) by {
            assert(pad.drop_last()[i] == pad[i]);
        }
        lemma_trim_end_padded(s, pad.drop_last());
    }
}

/// Trimmed text with whitespace around it is, without that whitespace, itself.
pub proof fn lemma_trim_padded(before: Seq<char>, s: Seq<char>, after: Seq<char>)
    requires
        all_space(before),
        all_space(after),
        is_trimmed(s),
    ensures
        trim(before + s + after) == s,
{
    assert(before + s + after == before + (s + after));
    lemma_trim_start_padded(before, s + after);
    if s.len() > 0 {
        assert((s + after)[0] == s[0]);
        lemma_trim_end_padded(s, after);
    } else {
        assert(s + after == after);
        assert(after == after + Seq::<char>::empty());
        lemma_trim_start_padded(after, Seq::empty());
    }
}

/// Splitting `a + [sep] + b`, where `b` holds no separator, gives the pieces of `a` and then `b`.
pub proof fn lemma_split_last(a: Seq<char>, sep: char, b: Seq<char>)
    requires
        !b.contains(sep),
    ensures
        split(a + seq![sep] + b, sep) == split(a, sep).push(b),
    decreases a.len(),
{
    lemma_index_of(a, sep);
    let i = index_of(a, sep);
    if i >= a.len() {
        lemma_split_first(a, sep, b);
        lemma_split_without(b, sep);
        lemma_split_without(a, sep);
    } else {
        let head = a.take(i);
        let tail = a.skip(i + 1);
        let whole = a + seq![sep] + b;
        assert(!head.contains(sep)) by {
            assert forall|j: int| 0 <= j < head.len() implies head[j] != sep by {
                assert(head[j] == a[j]);
            }
        }
        assert(whole == head + seq![sep] + (tail + seq![sep] + b));
        lemma_split_first(head, sep, tail + seq![sep] + b);
        lemma_split_last(tail, sep, b);
        assert(a == head + seq![sep] + tail);
        lemma_split_first(head, sep, tail);
    }
}

/// Text without a separator in front of `s` belongs to the first piece of `s`.
pub proof fn lemma_split_prefixed(before: Seq<char>, s: Seq<char>, sep: char)
    requires
        !before.contains(sep),
    ensures
        split(before + s, sep) == split(s, sep).update(0, before + split(s, sep)[0]),
        split(s, sep).len() > 0,
{
    lemma_index_of(s, sep);
    let i = index_of(s, sep);
    let whole = before + s;
    assert forall|j: int| 0 <= j < before.len() + i implies whole[j] != sep by {
        if j < before.len() {
            assert(before.contains(before[j]));
        } else {
            assert(whole[j] == s[j - before.len()]);
        }
    }
    if i < s.len() {
        assert(whole[before.len() + i] == s[i]);
        lemma_index_of_first(whole, sep, before.len() + i);
        assert(whole.take(before.len() + i) == before + s.take(i));
        assert(whole.skip(before.len() + i + 1) == s.skip(i + 1));
        assert(split(whole, sep) =~= split(s, sep).update(0, before + split(s, sep)[0]));
    } else {
        lemma_index_of_first(whole, sep, whole.len() as int);
        assert(split(whole, sep) =~= split(s, sep).update(0, before + split(s, sep)[0]));
    }
}

/// Text without a separator behind `s` belongs to the last piece of `s`.
pub proof fn lemma_split_suffixed(s: Seq<char>, after: Seq<char>, sep: char)
    requires
        !after.contains(sep),
    ensures
        split(s, sep).len() > 0,
        split(s + after, sep) == split(s, sep).update(
            split(s, sep).len() - 1,
            split(s, sep).last() + after,
        ),
    decreases s.len(),
{
    lemma_index_of(s, sep);
    let i = index_of(s, sep);
    let whole = s + after;
    if i < s.len() {
        assert forall|j: int| 0 <= j < i implies whole[j] != sep by {
            assert(whole[j] == s[j]);
        }
        assert(whole[i] == s[i]);
        lemma_index_of_first(whole, sep, i);
        assert(whole.take(i) == s.take(i));
        assert(whole.skip(i + 1) == s.skip(i + 1) + after);
        lemma_split_suffixed(s.skip(i + 1), after, sep);
        let rest = split(s.skip(i + 1), sep);
        assert(split(whole, sep) =~= split(s, sep).update(
            split(s, sep).len() - 1,
            split(s, sep).last() + after,
        ));
    } else {
        lemma_concat_lacks(s, after, sep);
        lemma_split_without(whole, sep);
        lemma_split_without(s, sep);
        assert(split(whole, sep) =~= split(s, sep).update(0, s + after));
    }
}

/// The text of the first part, the separator, and the texts of the rest joined.
pub proof fn lemma_join_push(parts: Seq<Seq<char>>, sep: Seq<char>, last: Seq<char>)
    ensures
        join(parts.push(last), sep) == (if parts.len() == 0 {
            last
        } else {
            join(parts, sep) + sep + last
        }),
{
    assert(parts.push(last).drop_last() == parts);
}

} // verus!
