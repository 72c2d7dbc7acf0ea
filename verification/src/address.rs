//! Socket addresses of peers: an IPv4 address and a port, their text form
//! `a.b.c.d:port`, and the order that breaks ties between two peers.
use crate::decimal::{
    all_digits, decimal, is_digit, lemma_decimal, parse_digits, push_decimal, read_digits,
};
use crate::text::{
    chars_of, lemma_concat_lacks, lemma_single_lacks, lemma_split_first, lemma_split_without,
    split, split_chars, views,
};
use vstd::prelude::*;

verus! {

/// An IPv4 socket address: four octets and a port.
#[derive(Debug, Clone, Copy, PartialEq, Eq, Structural, Hash)]
pub struct SocketAddress {
    pub a: u8,
    pub b: u8,
    pub c: u8,
    pub d: u8,
    pub port: u16,
}

/// One octet in text: one to three digits, no leading zero but in `0` itself,
/// and a value of at most 255.
pub open spec fn parse_octet(s: Seq<char>) -> Option<u8> {
    if s.len() <= 3 && (s.len() > 1 ==> s[0] != '0') {
        match parse_digits(s, 255) {
            Some(n) => Some(n as u8),
            None => None,
        }
    } else {
        None
    }
}

/// A port in text: at least one digit, with a value of at most 65535.
pub open spec fn parse_port(s: Seq<char>) -> Option<u16> {
    match parse_digits(s, 65535) {
        Some(n) => Some(n as u16),
        None => None,
    }
}

/// The address that `s` writes: four octets separated by `.`, then `:` and the
/// port, with nothing before, between or after.
pub open spec fn parse_address(s: Seq<char>) -> Option<SocketAddress> {
    let halves = split(s, ':');
    if halves.len() != 2 {
        None
    } else {
        let octets = split(halves[0], '.');
        if octets.len() != 4 {
            None
        } else {
            match (
                parse_octet(octets[0]),
                parse_octet(octets[1]),
                parse_octet(octets[2]),
                parse_octet(octets[3]),
                parse_port(halves[1]),
            ) {
                (Some(a), Some(b), Some(c), Some(d), Some(port)) => Some(
                    SocketAddress { a, b, c, d, port },
                ),
                _ => None,
            }
        }
    }
}

/// The four octets of `x` in text, separated by `.`.
pub open spec fn ip_text(x: SocketAddress) -> Seq<char> {
    decimal(x.a as nat) + seq!['.'] + decimal(x.b as nat) + seq!['.'] + decimal(x.c as nat)
        + seq!['.'] + decimal(x.d as nat)
}

/// The text form of `x`: `a.b.c.d:port`, each number in decimal without
/// leading zeros.
pub open spec fn address_text(x: SocketAddress) -> Seq<char> {
    ip_text(x) + seq![':'] + decimal(x.port as nat)
}

/// The order of addresses: by the octets from the first to the last, then by the port.
pub open spec fn address_lt(x: SocketAddress, y: SocketAddress) -> bool {
    if x.a != y.a {
        x.a < y.a
    } else if x.b != y.b {
        x.b < y.b
    } else if x.c != y.c {
        x.c < y.c
    } else if x.d != y.d {
        x.d < y.d
    } else {
        x.port < y.port
    }
}

/// Of two different addresses exactly one comes before the other, and no
/// address comes before itself.
pub proof fn lemma_address_order_total(x: SocketAddress, y: SocketAddress)
    ensures
        x != y ==> (address_lt(x, y) <==> !address_lt(y, x)),
        x == y ==> !address_lt(x, y),
{
}

/// An address that comes before a second, which comes before a third, comes before the third.
pub proof fn lemma_address_order_transitive(x: SocketAddress, y: SocketAddress, z: SocketAddress)
    requires
        address_lt(x, y),
        address_lt(y, z),
    ensures
        address_lt(x, z),
{
}

fn read_octet(v: &Vec<char>) -> (r: Option<u8>)
    ensures
        r == parse_octet(v@),
{
    if v.len() > 3 || (v.len() > 1 && v[0] == '0') {
        return None;
    }
    assert(v@.subrange(0, v.len() as int) == v@);
    match read_digits(v, 0, v.len(), 255) {
        Some(n) => Some(n as u8),
        None => None,
    }
}

fn read_port(v: &Vec<char>) -> (r: Option<u16>)
    ensures
        r == parse_port(v@),
{
    assert(v@.subrange(0, v.len() as int) == v@);
    match read_digits(v, 0, v.len(), 65535) {
        Some(n) => Some(n as u16),
        None => None,
    }
}

impl SocketAddress {
    /// The address with the octets `a.b.c.d` and the port `port`.
    pub fn new(a: u8, b: u8, c: u8, d: u8, port: u16) -> (r: Self)
        ensures
            r == (SocketAddress { a, b, c, d, port }),
    {
        SocketAddress { a, b, c, d, port }
    }

    /// Reads an address from its text form.
    pub fn parse_chars(v: &Vec<char>) -> (r: Option<SocketAddress>)
        ensures
            r == parse_address(v@),
    {
        let halves = split_chars(v, ':');
        if halves.len() != 2 {
            return None;
        }
        let octets = split_chars(&halves[0], '.');
        if octets.len() != 4 {
            return None;
        }
        assert(views(halves@)[0] == halves@[0]@);
        assert(views(halves@)[1] == halves@[1]@);
        assert(views(octets@)[0] == octets@[0]@);
        assert(views(octets@)[1] == octets@[1]@);
        assert(views(octets@)[2] == octets@[2]@);
        assert(views(octets@)[3] == octets@[3]@);
        let a = read_octet(&octets[0]);
        let b = read_octet(&octets[1]);
        let c = read_octet(&octets[2]);
        let d = read_octet(&octets[3]);
        let port = read_port(&halves[1]);
        match (a, b, c, d, port) {
            (Some(a), Some(b), Some(c), Some(d), Some(port)) => Some(
                SocketAddress { a, b, c, d, port },
            ),
            _ => None,
        }
    }

    /// Reads an address from its text form.
    pub fn parse(s: &str) -> (r: Option<SocketAddress>)
        ensures
            r == parse_address(s@),
    {
        let v = chars_of(s);
        SocketAddress::parse_chars(&v)
    }

    /// Appends the text form of the address to `out`.
    pub fn push_text(&self, out: &mut String)
        ensures
            final(out)@ == old(out)@ + address_text(*self),
    {
        push_decimal(out, self.a as u32);
        out.push('.');
        push_decimal(out, self.b as u32);
        out.push('.');
        push_decimal(out, self.c as u32);
        out.push('.');
        push_decimal(out, self.d as u32);
        out.push(':');
        push_decimal(out, self.port as u32);
        assert(out@ =~= old(out)@ + address_text(*self));
    }

    /// The text form of the address.
    pub fn to_string(&self) -> (out: String)
        ensures
            out@ == address_text(*self),
    {
        let mut out = String::new();
        self.push_text(&mut out);
        assert(Seq::<char>::empty() + address_text(*self) == address_text(*self));
        out
    }

    /// Whether this address comes before `other` in the order of addresses.
    pub fn precedes(&self, other: &SocketAddress) -> (r: bool)
        ensures
            r == address_lt(*self, *other),
    {
        if self.a != other.a {
            self.a < other.a
        } else if self.b != other.b {
            self.b < other.b
        } else if self.c != other.c {
            self.c < other.c
        } else if self.d != other.d {
            self.d < other.d
        } else {
            self.port < other.port
        }
    }
}

impl std::str::FromStr for SocketAddress {
    type Err = String;

    fn from_str(s: &str) -> (r: Result<Self, String>)
        ensures
            (match parse_address(s@) {
                Some(x) => r == Ok::<SocketAddress, String>(x),
                None => r is Err && r->Err_0@ == ADDRESS_ERROR@,
            }),
    {
        match SocketAddress::parse(s) {
            Some(x) => Ok(x),
            None => Err(ADDRESS_ERROR.to_owned()),
        }
    }
}

/// What a text that is no address is answered with.
pub const ADDRESS_ERROR: &'static str = "invalid socket address syntax";

proof fn lemma_digits_lack(s: Seq<char>, c: char)
    requires
        all_digits(s),
        !is_digit(c),
    ensures
        !s.contains(c),
{
}

proof fn lemma_octet_text(n: u8)
    ensures
        parse_octet(decimal(n as nat)) == Some(n),
        !decimal(n as nat).contains('.'),
        !decimal(n as nat).contains(':'),
{
    lemma_decimal(n as nat);
    lemma_digits_lack(decimal(n as nat), '.');
    lemma_digits_lack(decimal(n as nat), ':');
}

/// The octets in text hold no `:`, and split at `.` into the four numbers.
proof fn lemma_ip_text(x: SocketAddress)
    ensures
        !ip_text(x).contains(':'),
        split(ip_text(x), '.') == seq![
            decimal(x.a as nat),
            decimal(x.b as nat),
            decimal(x.c as nat),
            decimal(x.d as nat),
        ],
{
    let a = decimal(x.a as nat);
    let b = decimal(x.b as nat);
    let c = decimal(x.c as nat);
    let d = decimal(x.d as nat);
    let dot = seq!['.'];
    lemma_octet_text(x.a);
    lemma_octet_text(x.b);
    lemma_octet_text(x.c);
    lemma_octet_text(x.d);
    lemma_single_lacks('.', ':');
    lemma_concat_lacks(a, dot, ':');
    lemma_concat_lacks(a + dot, b, ':');
    lemma_concat_lacks(a + dot + b, dot, ':');
    lemma_concat_lacks(a + dot + b + dot, c, ':');
    lemma_concat_lacks(a + dot + b + dot + c, dot, ':');
    lemma_concat_lacks(a + dot + b + dot + c + dot, d, ':');
    let tail2 = c + dot + d;
    let tail1 = b + dot + tail2;
    assert(ip_text(x) =~= a + dot + tail1);
    lemma_split_first(a, '.', tail1);
    lemma_split_first(b, '.', tail2);
    lemma_split_first(c, '.', d);
    lemma_split_without(d, '.');
}

/// The text form of an address holds digits, `.` and `:` only.
pub proof fn lemma_address_text_lacks(x: SocketAddress, c: char)
    requires
        !is_digit(c),
        c != '.',
        c != ':',
    ensures
        !address_text(x).contains(c),
{
    let a = decimal(x.a as nat);
    let b = decimal(x.b as nat);
    let cc = decimal(x.c as nat);
    let d = decimal(x.d as nat);
    let p = decimal(x.port as nat);
    let dot = seq!['.'];
    lemma_decimal(x.a as nat);
    lemma_decimal(x.b as nat);
    lemma_decimal(x.c as nat);
    lemma_decimal(x.d as nat);
    lemma_decimal(x.port as nat);
    lemma_digits_lack(a, c);
    lemma_digits_lack(b, c);
    lemma_digits_lack(cc, c);
    lemma_digits_lack(d, c);
    lemma_digits_lack(p, c);
    lemma_single_lacks('.', c);
    lemma_single_lacks(':', c);
    lemma_concat_lacks(a, dot, c);
    lemma_concat_lacks(a + dot, b, c);
    lemma_concat_lacks(a + dot + b, dot, c);
    lemma_concat_lacks(a + dot + b + dot, cc, c);
    lemma_concat_lacks(a + dot + b + dot + cc, dot, c);
    lemma_concat_lacks(a + dot + b + dot + cc + dot, d, c);
    lemma_concat_lacks(ip_text(x), seq![':'], c);
    lemma_concat_lacks(ip_text(x) + seq![':'], p, c);
}

/// Reading the text form of an address gives the address back.
pub proof fn lemma_address_round_trip(x: SocketAddress)
    ensures
        parse_address(address_text(x)) == Some(x),
{
    let p = decimal(x.port as nat);
    lemma_octet_text(x.a);
    lemma_octet_text(x.b);
    lemma_octet_text(x.c);
    lemma_octet_text(x.d);
    lemma_decimal(x.port as nat);
    lemma_digits_lack(p, ':');
    lemma_ip_text(x);
    lemma_split_first(ip_text(x), ':', p);
    lemma_split_without(p, ':');
    assert(split(address_text(x), ':') == seq![ip_text(x), p]);
}

} // verus!
