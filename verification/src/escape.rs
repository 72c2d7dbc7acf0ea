//! Escaping of `;`, the character that ends a field on the wire: `;` is written
//! as `\;` and read back as `;`.
use crate::text::chars_of;
use vstd::prelude::*;

verus! {

/// `s` with every `;` written as `\;`.
pub open spec fn escape(s: Seq<char>) -> Seq<char>
    decreases s.len(),
{
    if s.len() == 0 {
        Seq::empty()
    } else if s[0] == ';' {
        seq!['\\', ';'] + escape(s.drop_first())
    } else {
        seq![s[0]] + escape(s.drop_first())
    }
}

/// `s` with every `\;` read as `;`, from the left and without overlap.
pub open spec fn unescape(s: Seq<char>) -> Seq<char>
    decreases s.len(),
{
    if s.len() == 0 {
        Seq::empty()
    } else if s[0] == '\\' && s.len() >= 2 && s[1] == ';' {
        seq![';'] + unescape(s.skip(2))
    } else {
        seq![s[0]] + unescape(s.drop_first())
    }
}

/// Text that does not begin with `;`.
pub open spec fn no_leading_semicolon(t: Seq<char>) -> bool {
    t.len() > 0 ==> t[0] != ';'
}

/// Escaped text never begins with `;`.
pub proof fn lemma_escape_head(s: Seq<char>)
    ensures
        no_leading_semicolon(escape(s)),
{
    if s.len() > 0 {
        if s[0] == ';' {
            assert(escape(s)[0] == '\\');
        } else {
            assert(escape(s)[0] == s[0]);
        }
    }
}

/// Unescaping escaped text that is followed by `t` gives the text back, followed by
/// `t` unescaped, as long as `t` does not begin with `;`.
pub proof fn lemma_unescape_escape_then(s: Seq<char>, t: Seq<char>)
    requires
        no_leading_semicolon(t),
    ensures
        unescape(escape(s) + t) == s + unescape(t),
    decreases s.len(),
{
    if s.len() == 0 {
        assert(escape(s) + t == t);
        assert(s + unescape(t) == unescape(t));
    } else {
        let rest = s.drop_first();
        lemma_unescape_escape_then(rest, t);
        lemma_escape_head(rest);
        let tail = escape(rest) + t;
        assert(no_leading_semicolon(tail));
        if s[0] == ';' {
            let whole = escape(s) + t;
            assert(whole == seq!['\\', ';'] + tail);
            assert(whole.skip(2) == tail);
            assert(seq![';'] + (rest + unescape(t)) == s + unescape(t));
        } else {
            let whole = escape(s) + t;
            assert(whole == seq![s[0]] + tail);
            assert(whole.drop_first() == tail);
            assert(seq![s[0]] + (rest + unescape(t)) == s + unescape(t));
        }
    }
}

/// Unescaping text without `\` that is followed by `t` leaves the text as it
/// is, followed by `t` unescaped.
pub proof fn lemma_unescape_plain_then(c: Seq<char>, t: Seq<char>)
    requires
        !c.contains('\\'),
    ensures
        unescape(c + t) == c + unescape(t),
    decreases c.len(),
{
    if c.len() == 0 {
        assert(c + t == t);
        assert(c + unescape(t) == unescape(t));
    } else {
        let rest = c.drop_first();
        assert(c.contains(c[0]));
        assert forall|i: int| 0 <= i < rest.len() implies rest[i] != '\\' by {
            assert(c.contains(c[i + 1]));
        }
        lemma_unescape_plain_then(rest, t);
        assert((c + t).drop_first() == rest + t);
        assert(seq![c[0]] + (rest + unescape(t)) == c + unescape(t));
    }
}

/// Unescaping what `escape` wrote gives the text back.
pub proof fn lemma_unescape_escape(s: Seq<char>)
    ensures
        unescape(escape(s)) == s,
{
    lemma_unescape_escape_then(s, Seq::empty());
    assert(escape(s) + Seq::<char>::empty() == escape(s));
    assert(s + Seq::<char>::empty() == s);
}

/// Appends `v` to `out` with every `;` written as `\;`.
pub fn push_escaped(out: &mut String, v: &Vec<char>)
    ensures
        final(out)@ == old(out)@ + escape(v@),
{
    let mut i: usize = 0;
    assert(v@.skip(0) == v@);
    while i < v.len()
        invariant
            i <= v.len(),
            old(out)@ + escape(v@) == out@ + escape(v@.skip(i as int)),
        decreases v.len() - i,
    {
        let ghost rest = v@.skip(i as int);
        assert(rest.drop_first() == v@.skip(i + 1));
        let ghost before = out@;
        if v[i] == ';' {
            out.push('\\');
            out.push(';');
            assert(out@ == before + seq!['\\', ';']);
        } else {
            out.push(v[i]);
            assert(out@ == before + seq![rest[0]]);
        }
        assert(out@ + escape(v@.skip(i + 1)) == before + escape(rest));
        i += 1;
    }
    assert(out@ + escape(v@.skip(v.len() as int)) == out@);
}

/// `s` with every `;` written as `\;`.
pub fn escape_semicolons(s: &str) -> (out: String)
    ensures
        out@ == escape(s@),
{
    let v = chars_of(s);
    let mut out = String::new();
    push_escaped(&mut out, &v);
    assert(Seq::<char>::empty() + escape(v@) == escape(v@));
    out
}

/// `v` with every `\;` read as `;`.
pub fn unescaped(v: &Vec<char>) -> (out: Vec<char>)
    ensures
        out@ == unescape(v@),
{
    let mut out: Vec<char> = Vec::new();
    let mut i: usize = 0;
    assert(v@.skip(0) == v@);
    assert(Seq::<char>::empty() + unescape(v@) == unescape(v@));
    while i < v.len()
        invariant
            i <= v.len(),
            unescape(v@) == out@ + unescape(v@.skip(i as int)),
        decreases v.len() - i,
    {
        let ghost rest = v@.skip(i as int);
        let ghost before = out@;
        if v[i] == '\\' && i + 1 < v.len() && v[i + 1] == ';' {
            assert(rest.skip(2) == v@.skip(i + 2));
            out.push(';');
            assert(out@ + unescape(v@.skip(i + 2)) == before + unescape(rest));
            i += 2;
        } else {
            assert(rest.drop_first() == v@.skip(i + 1));
            out.push(v[i]);
            assert(out@ + unescape(v@.skip(i + 1)) == before + unescape(rest));
            i += 1;
        }
    }
    assert(out@ + unescape(v@.skip(v.len() as int)) == out@);
    out
}

/// `s` with every `\;` read as `;`.
pub fn unescape_semicolons(s: &str) -> (out: String)
    ensures
        out@ == unescape(s@),
{
    let v = chars_of(s);
    let u = unescaped(&v);
    crate::text::string_of(&u)
}

} // verus!
