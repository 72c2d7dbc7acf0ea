//! Peers: a username and the address on which the peer listens, written on the
//! wire as `fnp://username@a.b.c.d:port`.
use crate::address::{
    address_text, lemma_address_round_trip, lemma_address_text_lacks, parse_address,
    SocketAddress, ADDRESS_ERROR,
};
use crate::text::{
    chars_of, lemma_split_first, lemma_split_without, lemma_strip_prefix, result_view, split,
    split_chars, string_of, strip_prefix, views, without_prefix,
};
use vstd::prelude::*;
use vstd::string::StringExecFns;

verus! {

/// What a text that is no peer is answered with.
pub const INVALID_PEER: &'static str = "Invalid peer format";

/// What every peer on the wire may begin with, and does when written.
pub const PEER_PREFIX: &'static str = "fnp://";

/// The identity of a peer. Two peers are the same where both the username and
/// the address are.
#[derive(Debug, PartialEq)]
pub struct Peer {
    username: String,
    address: SocketAddress,
}

/// A peer as the contracts speak of it.
pub struct PeerView {
    pub username: Seq<char>,
    pub address: SocketAddress,
}

impl View for Peer {
    type V = PeerView;

    closed spec fn view(&self) -> PeerView {
        PeerView { username: self.username@, address: self.address }
    }
}

impl DeepView for Peer {
    type V = PeerView;

    open spec fn deep_view(&self) -> PeerView {
        self@
    }
}

/// The text form of a peer: the prefix, the username, `@` and the address.
pub open spec fn peer_text(p: PeerView) -> Seq<char> {
    PEER_PREFIX@ + p.username + seq!['@'] + address_text(p.address)
}

/// The peer that `s` writes: after the prefix, if it is there, exactly one `@`
/// with the username before it and an address behind it.
pub open spec fn parse_peer(s: Seq<char>) -> Result<PeerView, Seq<char>> {
    let parts = split(strip_prefix(s, PEER_PREFIX@), '@');
    if parts.len() != 2 {
        Err(INVALID_PEER@)
    } else {
        match parse_address(parts[1]) {
            Some(address) => Ok(PeerView { username: parts[0], address }),
            None => Err(ADDRESS_ERROR@),
        }
    }
}

/// Reading the text form of a peer gives the peer back, as long as its
/// username holds no `@`.
pub proof fn lemma_peer_round_trip(p: PeerView)
    requires
        !p.username.contains('@'),
    ensures
        parse_peer(peer_text(p)) == Ok::<PeerView, Seq<char>>(p),
{
    let a = address_text(p.address);
    let rest = p.username + seq!['@'] + a;
    assert(peer_text(p) =~= PEER_PREFIX@ + rest);
    lemma_strip_prefix(PEER_PREFIX@, rest);
    lemma_address_text_lacks(p.address, '@');
    lemma_split_first(p.username, '@', a);
    lemma_split_without(a, '@');
    assert(split(rest, '@') == seq![p.username, a]);
    lemma_address_round_trip(p.address);
}

impl Peer {
    /// The peer `username` that listens on `address`.
    pub fn new(username: String, address: SocketAddress) -> (p: Self)
        ensures
            p@ == (PeerView { username: username@, address }),
    {
        Self { username, address }
    }

    /// The address on which the peer listens.
    pub fn address(&self) -> (a: SocketAddress)
        ensures
            a == self@.address,
    {
        self.address
    }

    /// The username of the peer.
    pub fn username(&self) -> (u: &str)
        ensures
            u@ == self@.username,
    {
        self.username.as_str()
    }

    /// Whether both peers have the same username and address.
    pub fn same(&self, other: &Peer) -> (r: bool)
        ensures
            r == (self@ == other@),
    {
        self.username == other.username && self.address == other.address
    }

    /// Appends the text form of the peer to `out`.
    pub fn push_text(&self, out: &mut String)
        ensures
            final(out)@ == old(out)@ + peer_text(self@),
    {
        out.append(PEER_PREFIX);
        out.append(self.username.as_str());
        out.push('@');
        self.address.push_text(out);
        assert(out@ =~= old(out)@ + peer_text(self@));
    }

    /// The text form of the peer.
    pub fn to_string(&self) -> (out: String)
        ensures
            out@ == peer_text(self@),
    {
        let mut out = String::new();
        self.push_text(&mut out);
        assert(Seq::<char>::empty() + peer_text(self@) == peer_text(self@));
        out
    }

    /// Reads a peer from its text form.
    pub fn parse_chars(v: &Vec<char>) -> (r: Result<Peer, String>)
        ensures
            result_view(r) == parse_peer(v@),
    {
        let body = without_prefix(v, PEER_PREFIX);
        let parts = split_chars(&body, '@');
        if parts.len() != 2 {
            return Err(INVALID_PEER.to_owned());
        }
        assert(views(parts@)[0] == parts@[0]@);
        assert(views(parts@)[1] == parts@[1]@);
        match SocketAddress::parse_chars(&parts[1]) {
            Some(address) => Ok(Peer { username: string_of(&parts[0]), address }),
            None => Err(ADDRESS_ERROR.to_owned()),
        }
    }

    /// Reads a peer from its text form.
    pub fn parse(s: &str) -> (r: Result<Peer, String>)
        ensures
            result_view(r) == parse_peer(s@),
    {
        let v = chars_of(s);
        Peer::parse_chars(&v)
    }
}

impl Clone for Peer {
    fn clone(&self) -> (r: Self)
        ensures
            r@ == self@,
    {
        Peer { username: self.username.clone(), address: self.address }
    }
}

impl std::str::FromStr for Peer {
    type Err = String;

    fn from_str(s: &str) -> (r: Result<Self, String>)
        ensures
            result_view(r) == parse_peer(s@),
    {
        Peer::parse(s)
    }
}

/// A copy of `peers`.
pub fn clone_peers(peers: &Vec<Peer>) -> (out: Vec<Peer>)
    ensures
        views(out@) == views(peers@),
{
    let mut out: Vec<Peer> = Vec::new();
    let mut i: usize = 0;
    while i < peers.len()
        invariant
            i <= peers.len(),
            views(out@) == views(peers@).take(i as int),
        decreases peers.len() - i,
    {
        let p = peers[i].clone();
        assert(p@ == peers@[i as int]@);
        let ghost before = views(out@);
        out.push(p);
        assert(views(out@) =~= before.push(p@));
        i += 1;
        assert(views(out@) =~= views(peers@).take(i as int));
    }
    assert(views(peers@).take(peers.len() as int) == views(peers@));
    out
}

} // verus!
