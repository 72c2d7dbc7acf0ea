//! Unsigned decimal numbers as text: reading them, writing them, and the proof
//! that reading what was written gives the number back.
use vstd::prelude::*;

verus! {

/// The ten digits.
pub open spec fn is_digit(c: char) -> bool {
    '0' <= c <= '9'
}

/// The number that the digit `c` stands for.
pub open spec fn digit_value(c: char) -> nat {
    (c as u32 - 48) as nat
}

/// The digit that stands for `d`, which is below ten.
pub open spec fn digit_char(d: nat) -> char {
    ((d + 48) as u8) as char
}

/// Text made of digits only.
pub open spec fn all_digits(s: Seq<char>) -> bool {
    forall|i: int| 0 <= i < s.len() ==> is_digit(#[trigger] s[i])
}

/// The number that the digits of `s` write in base ten; zero for the empty text.
pub open spec fn value_of(s: Seq<char>) -> nat
    decreases s.len(),
{
    if s.len() == 0 {
        0
    } else {
        value_of(s.drop_last()) * 10 + digit_value(s.last())
    }
}

/// A run of at least one digit whose value is at most `max`.
pub open spec fn parse_digits(s: Seq<char>, max: nat) -> Option<nat> {
    if s.len() > 0 && all_digits(s) && value_of(s) <= max {
        Some(value_of(s))
    } else {
        None
    }
}

/// A number as `str::parse` reads an unsigned integer: an optional `+`, then
/// at least one digit and nothing else, with a value of at most `max`.
pub open spec fn parse_unsigned(s: Seq<char>, max: nat) -> Option<nat> {
    if s.len() > 0 && s[0] == '+' {
        parse_digits(s.drop_first(), max)
    } else {
        parse_digits(s, max)
    }
}

/// The digits of `n` in base ten, without leading zeros.
pub open spec fn decimal(n: nat) -> Seq<char>
    decreases n,
{
    if n < 10 {
        seq![digit_char(n)]
    } else {
        decimal(n / 10).push(digit_char(n % 10))
    }
}

/// The first digits of a number write no more than the number.
pub proof fn lemma_value_of_prefix(s: Seq<char>, k: int)
    requires
        0 <= k <= s.len(),
    ensures
        value_of(s.take(k)) <= value_of(s),
    decreases s.len() - k,
{
    if k < s.len() {
        lemma_value_of_prefix(s, k + 1);
        assert(s.take(k + 1).drop_last() == s.take(k));
    } else {
        assert(s.take(k) == s);
    }
}

/// What `decimal` writes: digits only, at least one, no leading zero but for
/// zero itself, and with the value `n`.
pub proof fn lemma_decimal(n: nat)
    ensures
        decimal(n).len() >= 1,
        all_digits(decimal(n)),
        value_of(decimal(n)) == n,
        n < 10 <==> decimal(n).len() == 1,
        n >= 10 ==> decimal(n)[0] != '0',
        n < 100 ==> decimal(n).len() <= 2,
        n < 1000 ==> decimal(n).len() <= 3,
        is_digit(decimal(n)[0]),
    decreases n,
{
    if n < 10 {
        assert(decimal(n).drop_last() == Seq::<char>::empty());
        assert(value_of(decimal(n).drop_last()) == 0);
    } else {
        lemma_decimal(n / 10);
        let d = decimal(n / 10);
        assert(decimal(n).drop_last() == d);
        assert(decimal(n)[0] == d[0]);
        if n / 10 < 10 {
            assert(d[0] == digit_char(n / 10));
        }
    }
}

/// Reading the digits of `n` gives `n`, as long as `n` is at most `max`.
pub proof fn lemma_parse_decimal(n: nat, max: nat)
    requires
        n <= max,
    ensures
        parse_digits(decimal(n), max) == Some(n),
        parse_unsigned(decimal(n), max) == Some(n),
{
    lemma_decimal(n);
}

/// The value of the digits `v[from..to]`, where they are all digits and write
/// at most `max`.
pub fn read_digits(v: &Vec<char>, from: usize, to: usize, max: u32) -> (r: Option<u32>)
    requires
        from <= to <= v.len(),
    ensures
        (match parse_digits(v@.subrange(from as int, to as int), max as nat) {
            Some(n) => r == Some(n as u32),
            None => r is None,
        }),
{
    let ghost s = v@.subrange(from as int, to as int);
    if from == to {
        return None;
    }
    let mut acc: u64 = 0;
    let mut i: usize = from;
    assert(s.take(0) == Seq::<char>::empty());
    while i < to
        invariant
            from <= i <= to <= v.len(),
            s == v@.subrange(from as int, to as int),
            all_digits(s.take(i - from)),
            acc == value_of(s.take(i - from)),
            acc <= max,
        decreases to - i,
    {
        let c = v[i];
        let ghost k = i - from;
        assert(s.take(k + 1).drop_last() == s.take(k));
        assert(s.take(k + 1).last() == c);
        if !('0' <= c && c <= '9') {
            assert(!is_digit(s[k]));
            return None;
        }
        let d: u64 = (c as u32 - 48) as u64;
        acc = acc * 10 + d;
        if acc > max as u64 {
            proof {
                lemma_value_of_prefix(s, k + 1);
            }
            return None;
        }
        assert forall|j: int| 0 <= j < s.take(k + 1).len() implies is_digit(
            #[trigger] s.take(k + 1)[j],
        ) by {
            if j < k {
                assert(s.take(k)[j] == s.take(k + 1)[j]);
            }
        }
        i += 1;
    }
    assert(s.take(to - from) == s);
    Some(acc as u32)
}

/// Reads an unsigned number of at most `max` from the whole of `v`.
pub fn read_unsigned(v: &Vec<char>, max: u32) -> (r: Option<u32>)
    ensures
        (match parse_unsigned(v@, max as nat) {
            Some(n) => r == Some(n as u32),
            None => r is None,
        }),
{
    if v.len() > 0 && v[0] == '+' {
        assert(v@.subrange(1, v.len() as int) == v@.drop_first());
        read_digits(v, 1, v.len(), max)
    } else {
        assert(v@.subrange(0, v.len() as int) == v@);
        read_digits(v, 0, v.len(), max)
    }
}

/// Appends the decimal digits of `n` to `out`.
pub fn push_decimal(out: &mut String, n: u32)
    ensures
        final(out)@ == old(out)@ + decimal(n as nat),
    decreases n,
{
    if n >= 10 {
        push_decimal(out, n / 10);
    }
    let d: u8 = (n % 10) as u8;
    out.push((d + 48) as char);
}

} // verus!
