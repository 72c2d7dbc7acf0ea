//! The registry of peers: who is known, under which username, at which
//! listening address, and on which socket.
//!
//! Three maps are kept together: from the listening address to the peer's
//! record, from the address of the client socket to the listening address, and
//! from the username to the listening address. A peer is in all three or in none.
use crate::address::SocketAddress;
use crate::assoc::{consistent, AssocMap};
use crate::peer::{Peer, PeerView};
use crate::protocol::{with_sender, FNP, MessageView};
use crate::text::lemma_views_push;
use crate::text::views;
use vstd::prelude::*;

verus! {

/// What the registry knows of a peer: who it is and on which socket it is
/// connected. The socket's address stands for the connection.
#[derive(Debug, PartialEq)]
pub struct PeerInfo {
    pub peer: Peer,
    pub client_addr: SocketAddress,
}

/// A record as the contracts speak of it.
pub struct PeerInfoView {
    pub peer: PeerView,
    pub client_addr: SocketAddress,
}

impl View for PeerInfo {
    type V = PeerInfoView;

    open spec fn view(&self) -> PeerInfoView {
        PeerInfoView { peer: self.peer@, client_addr: self.client_addr }
    }
}

impl DeepView for PeerInfo {
    type V = PeerInfoView;

    open spec fn deep_view(&self) -> PeerInfoView {
        self@
    }
}

impl Clone for PeerInfo {
    fn clone(&self) -> (r: Self)
        ensures
            r@ == self@,
    {
        PeerInfo { peer: self.peer.clone(), client_addr: self.client_addr }
    }
}

/// A message to write on the connection of the socket `client`.
#[derive(Debug, PartialEq)]
pub struct Delivery {
    pub client: SocketAddress,
    pub message: FNP,
}

/// A delivery as the contracts speak of it.
pub struct DeliveryView {
    pub client: SocketAddress,
    pub message: MessageView,
}

impl View for Delivery {
    type V = DeliveryView;

    open spec fn view(&self) -> DeliveryView {
        DeliveryView { client: self.client, message: self.message@ }
    }
}

impl DeepView for Delivery {
    type V = DeliveryView;

    open spec fn deep_view(&self) -> DeliveryView {
        self@
    }
}

/// The three maps agree: every record stands under its own listening address,
/// its username and its socket lead to that address, and every username and
/// every socket that is known leads to a record that names it.
pub open spec fn maps_agree(
    by_listener: Map<SocketAddress, PeerInfoView>,
    by_client: Map<SocketAddress, SocketAddress>,
    by_username: Map<Seq<char>, SocketAddress>,
) -> bool {
    &&& forall|a: SocketAddress| #[trigger]
        by_listener.contains_key(a) ==> {
            &&& by_listener[a].peer.address == a
            &&& by_username.contains_key(by_listener[a].peer.username)
            &&& by_username[by_listener[a].peer.username] == a
            &&& by_client.contains_key(by_listener[a].client_addr)
            &&& by_client[by_listener[a].client_addr] == a
        }
    &&& forall|u: Seq<char>| #[trigger]
        by_username.contains_key(u) ==> {
            &&& by_listener.contains_key(by_username[u])
            &&& by_listener[by_username[u]].peer.username == u
        }
    &&& forall|c: SocketAddress| #[trigger]
        by_client.contains_key(c) ==> {
            &&& by_listener.contains_key(by_client[c])
            &&& by_listener[by_client[c]].client_addr == c
        }
}

/// The registry as the contracts speak of it.
pub struct RegistryView {
    /// The records, by listening address.
    pub by_listener: Map<SocketAddress, PeerInfoView>,
    /// The listening address of each client socket.
    pub by_client: Map<SocketAddress, SocketAddress>,
    /// The listening address of each username.
    pub by_username: Map<Seq<char>, SocketAddress>,
    /// The listening addresses, in the order in which they came.
    pub listeners: Seq<SocketAddress>,
}

/// The registry `r` with `peer`, connected on the socket `client_addr`, put into all three maps.
pub open spec fn registered(r: RegistryView, peer: PeerView, client_addr: SocketAddress) -> RegistryView {
    RegistryView {
        by_listener: r.by_listener.insert(peer.address, PeerInfoView { peer, client_addr }),
        by_client: r.by_client.insert(client_addr, peer.address),
        by_username: r.by_username.insert(peer.username, peer.address),
        listeners: r.listeners.push(peer.address),
    }
}

/// The registry `r` with the peer that listens on `listener` taken out of all
/// three maps; `r` itself where no such peer is registered.
pub open spec fn unregistered(r: RegistryView, listener: SocketAddress) -> RegistryView {
    if r.by_listener.contains_key(listener) {
        RegistryView {
            by_listener: r.by_listener.remove(listener),
            by_client: r.by_client.remove(r.by_listener[listener].client_addr),
            by_username: r.by_username.remove(r.by_listener[listener].peer.username),
            listeners: r.listeners.remove(r.listeners.index_of(listener)),
        }
    } else {
        r
    }
}

/// The registry agrees with itself: its three maps agree, and the order of
/// the listening addresses holds each of them once.
pub open spec fn registry_agrees(r: RegistryView) -> bool {
    &&& maps_agree(r.by_listener, r.by_client, r.by_username)
    &&& consistent(r.listeners, r.by_listener)
}

/// Whether `peer` on the socket `client_addr` is new to the registry `r`:
/// neither its address, nor its username, nor the socket is registered.
pub open spec fn is_new_to(r: RegistryView, peer: PeerView, client_addr: SocketAddress) -> bool {
    &&& !r.by_listener.contains_key(peer.address)
    &&& !r.by_username.contains_key(peer.username)
    &&& !r.by_client.contains_key(client_addr)
}

/// A registry that agrees with itself still does after a new peer was registered.
pub proof fn lemma_registered_agrees(r: RegistryView, peer: PeerView, client_addr: SocketAddress)
    requires
        registry_agrees(r),
        is_new_to(r, peer, client_addr),
    ensures
        registry_agrees(registered(r, peer, client_addr)),
{
    let q = registered(r, peer, client_addr);
    assert forall|i: int, j: int|
        0 <= i < q.listeners.len() && 0 <= j < q.listeners.len() && i != j implies q.listeners[i]
        != q.listeners[j] by {
        if i < r.listeners.len() {
            assert(r.listeners.contains(r.listeners[i]));
        }
        if j < r.listeners.len() {
            assert(r.listeners.contains(r.listeners[j]));
        }
    }
    assert forall|a: SocketAddress| q.by_listener.contains_key(a) <==> q.listeners.contains(
        a,
    ) by {
        if q.listeners.contains(a) {
            let i = choose|i: int| 0 <= i < q.listeners.len() && q.listeners[i] == a;
            if i < r.listeners.len() {
                assert(r.listeners.contains(r.listeners[i]));
            }
        }
        if q.by_listener.contains_key(a) {
            if a == peer.address {
                assert(q.listeners[r.listeners.len() as int] == a);
            } else {
                assert(r.by_listener.contains_key(a));
                assert(r.listeners.contains(a));
                let i = choose|i: int| 0 <= i < r.listeners.len() && r.listeners[i] == a;
                assert(q.listeners[i] == a);
            }
        }
    }
}

/// A registry that agrees with itself still does after a peer was taken out.
pub proof fn lemma_unregistered_agrees(r: RegistryView, listener: SocketAddress)
    requires
        registry_agrees(r),
    ensures
        registry_agrees(unregistered(r, listener)),
{
    if r.by_listener.contains_key(listener) {
        let q = unregistered(r, listener);
        let at = r.listeners.index_of(listener);
        assert(r.listeners.contains(listener));
        assert(0 <= at < r.listeners.len() && r.listeners[at] == listener);
        assert forall|i: int, j: int|
            0 <= i < q.listeners.len() && 0 <= j < q.listeners.len() && i != j implies q.listeners[i]
            != q.listeners[j] by {
            let i0 = if i < at { i } else { i + 1 };
            let j0 = if j < at { j } else { j + 1 };
            assert(q.listeners[i] == r.listeners[i0]);
            assert(q.listeners[j] == r.listeners[j0]);
        }
        assert forall|a: SocketAddress| q.by_listener.contains_key(a) <==> q.listeners.contains(
            a,
        ) by {
            if q.listeners.contains(a) {
                let i = choose|i: int| 0 <= i < q.listeners.len() && q.listeners[i] == a;
                let i0 = if i < at { i } else { i + 1 };
                assert(q.listeners[i] == r.listeners[i0]);
                assert(r.listeners.contains(r.listeners[i0]));
            }
            if q.by_listener.contains_key(a) {
                assert(r.by_listener.contains_key(a));
                assert(r.listeners.contains(a));
                let i = choose|i: int| 0 <= i < r.listeners.len() && r.listeners[i] == a;
                let i1 = if i < at { i } else { i - 1 };
                assert(q.listeners[i1] == a);
            }
        }
    }
}

/// A change of the registry: a peer is registered, or the peer on a socket is taken out.
pub enum RegistryChange {
    Register { peer: PeerView, client_addr: SocketAddress },
    UnregisterByClient { client_addr: SocketAddress },
}

/// The registry `r` after `change`. A peer that is not new to the registry
/// is not registered, and a socket that is not registered unregisters nothing.
pub open spec fn changed(r: RegistryView, change: RegistryChange) -> RegistryView {
    match change {
        RegistryChange::Register { peer, client_addr } => if is_new_to(r, peer, client_addr) {
            registered(r, peer, client_addr)
        } else {
            r
        },
        RegistryChange::UnregisterByClient { client_addr } => if r.by_client.contains_key(
            client_addr,
        ) {
            unregistered(r, r.by_client[client_addr])
        } else {
            r
        },
    }
}

/// The registry `r` after each of `changes`, one after the other.
pub open spec fn changed_by_all(r: RegistryView, changes: Seq<RegistryChange>) -> RegistryView
    decreases changes.len(),
{
    if changes.len() == 0 {
        r
    } else {
        changed(changed_by_all(r, changes.drop_last()), changes.last())
    }
}

/// The empty registry.
pub open spec fn empty_registry() -> RegistryView {
    RegistryView {
        by_listener: Map::empty(),
        by_client: Map::empty(),
        by_username: Map::empty(),
        listeners: Seq::empty(),
    }
}

/// Whatever is registered and unregistered, and in whatever order, the
/// registry agrees with itself.
pub proof fn lemma_registry_always_agrees(changes: Seq<RegistryChange>)
    ensures
        registry_agrees(changed_by_all(empty_registry(), changes)),
    decreases changes.len(),
{
    if changes.len() > 0 {
        lemma_registry_always_agrees(changes.drop_last());
        let r = changed_by_all(empty_registry(), changes.drop_last());
        match changes.last() {
            RegistryChange::Register { peer, client_addr } => {
                if is_new_to(r, peer, client_addr) {
                    lemma_registered_agrees(r, peer, client_addr);
                }
            },
            RegistryChange::UnregisterByClient { client_addr } => {
                if r.by_client.contains_key(client_addr) {
                    lemma_unregistered_agrees(r, r.by_client[client_addr]);
                }
            },
        }
    }
}

/// In a registry that agrees with itself, every registered address has
/// exactly one username and exactly one client socket that lead to it, every
/// registered username leads to a registered address, and so does every
/// registered socket.
pub proof fn lemma_registry_one_to_one(r: RegistryView)
    requires
        registry_agrees(r),
    ensures
        forall|a: SocketAddress| #[trigger]
            r.by_listener.contains_key(a) ==> {
                &&& r.by_username.contains_key(r.by_listener[a].peer.username)
                &&& r.by_username[r.by_listener[a].peer.username] == a
                &&& r.by_client.contains_key(r.by_listener[a].client_addr)
                &&& r.by_client[r.by_listener[a].client_addr] == a
            },
        forall|u: Seq<char>, v: Seq<char>|
            r.by_username.contains_key(u) && r.by_username.contains_key(v) && #[trigger]
            r.by_username[u] == #[trigger] r.by_username[v] ==> u == v,
        forall|c: SocketAddress, d: SocketAddress|
            r.by_client.contains_key(c) && r.by_client.contains_key(d) && #[trigger]
            r.by_client[c] == #[trigger] r.by_client[d] ==> c == d,
        forall|u: Seq<char>| #[trigger]
            r.by_username.contains_key(u) ==> r.by_listener.contains_key(r.by_username[u]),
        forall|c: SocketAddress| #[trigger]
            r.by_client.contains_key(c) ==> r.by_listener.contains_key(r.by_client[c]),
{
}

/// The records of the registry `r`, in the order in which they came.
pub open spec fn records_of(r: RegistryView) -> Seq<PeerInfoView> {
    Seq::new(r.listeners.len(), |i: int| r.by_listener[r.listeners[i]])
}

/// The peers of the registry `r`, in the order in which they came.
pub open spec fn peers_of(r: RegistryView) -> Seq<PeerView> {
    Seq::new(r.listeners.len(), |i: int| r.by_listener[r.listeners[i]].peer)
}

/// The records of `m` as the contracts speak of them.
pub open spec fn record_views(m: Map<SocketAddress, PeerInfo>) -> Map<SocketAddress, PeerInfoView> {
    Map::new(|a: SocketAddress| m.contains_key(a), |a: SocketAddress| m[a]@)
}

/// The registry of peers.
pub struct PeerStore {
    listener_map: AssocMap<SocketAddress, PeerInfo>,
    client_to_listener_map: AssocMap<SocketAddress, SocketAddress>,
    name_addr_map: AssocMap<String, SocketAddress>,
}

impl View for PeerStore {
    type V = RegistryView;

    open spec fn view(&self) -> RegistryView {
        RegistryView {
            by_listener: self.by_listener(),
            by_client: self.by_client(),
            by_username: self.by_username(),
            listeners: self.listeners(),
        }
    }
}

impl PeerStore {
    #[verifier::type_invariant]
    spec fn coherent(self) -> bool {
        &&& maps_agree(
            record_views(self.listener_map@),
            self.client_to_listener_map@,
            self.name_addr_map@,
        )
        &&& consistent(self.listener_map.order(), self.listener_map@)
    }

    /// The records, by listening address.
    pub closed spec fn by_listener(&self) -> Map<SocketAddress, PeerInfoView> {
        record_views(self.listener_map@)
    }

    /// The listening address of each socket that is registered.
    pub closed spec fn by_client(&self) -> Map<SocketAddress, SocketAddress> {
        self.client_to_listener_map@
    }

    /// The listening address of each username that is registered.
    pub closed spec fn by_username(&self) -> Map<Seq<char>, SocketAddress> {
        self.name_addr_map@
    }

    /// The listening addresses that are registered, in the order in which they came.
    pub closed spec fn listeners(&self) -> Seq<SocketAddress> {
        self.listener_map.order()
    }

    /// The three maps of the registry agree, and the order of the listening
    /// addresses holds each of them once.
    pub open spec fn is_consistent(&self) -> bool {
        registry_agrees(self@)
    }

    /// The records in the order in which they came.
    pub open spec fn records(&self) -> Seq<PeerInfoView> {
        records_of(self@)
    }

    /// The peers in the order in which they came.
    pub open spec fn peers(&self) -> Seq<PeerView> {
        peers_of(self@)
    }

    /// Whether `peer` on the socket `client_addr` can be registered: neither
    /// its address, nor its username, nor the socket is in the registry.
    pub open spec fn is_new(&self, peer: PeerView, client_addr: SocketAddress) -> bool {
        is_new_to(self@, peer, client_addr)
    }

    /// An empty registry.
    pub fn new() -> (s: Self)
        ensures
            s.by_listener() == Map::<SocketAddress, PeerInfoView>::empty(),
            s.by_client() == Map::<SocketAddress, SocketAddress>::empty(),
            s.by_username() == Map::<Seq<char>, SocketAddress>::empty(),
            s.listeners() == Seq::<SocketAddress>::empty(),
            s@ == empty_registry(),
            s.is_consistent(),
    {
        let listener_map: AssocMap<SocketAddress, PeerInfo> = AssocMap::new();
        let s = Self {
            listener_map,
            client_to_listener_map: AssocMap::new(),
            name_addr_map: AssocMap::new(),
        };
        assert(s.by_listener() =~= Map::<SocketAddress, PeerInfoView>::empty());
        s
    }

    /// Whether the socket `client_addr` belongs to a registered peer.
    pub fn contains_client(&self, client_addr: &SocketAddress) -> (r: bool)
        ensures
            r == self.by_client().contains_key(*client_addr),
    {
        self.client_to_listener_map.contains_key(client_addr)
    }

    /// Registers `peer`, connected on the socket `client_addr`, in all three maps.
    pub fn register(&mut self, peer: Peer, client_addr: SocketAddress)
        requires
            old(self).is_new(peer@, client_addr),
        ensures
            final(self).by_listener() == old(self).by_listener().insert(
                peer@.address,
                PeerInfoView { peer: peer@, client_addr },
            ),
            final(self).by_client() == old(self).by_client().insert(client_addr, peer@.address),
            final(self).by_username() == old(self).by_username().insert(
                peer@.username,
                peer@.address,
            ),
            final(self).listeners() == old(self).listeners().push(peer@.address),
            final(self)@ == registered(old(self)@, peer@, client_addr),
            final(self).is_consistent(),
    {
        proof {
            use_type_invariant(&*self);
        }
        let listener = peer.address();
        let username = peer.username().to_owned();
        let info = PeerInfo { peer, client_addr };
        let mut taken = PeerStore::new();
        std::mem::swap(self, &mut taken);
        let PeerStore { mut listener_map, mut client_to_listener_map, mut name_addr_map } = taken;
        let ghost before = record_views(listener_map@);
        listener_map.insert(listener, info);
        client_to_listener_map.insert(client_addr, listener);
        name_addr_map.insert(username, listener);
        proof {
            assert(record_views(listener_map@) =~= before.insert(listener, info@));
        }
        *self = PeerStore { listener_map, client_to_listener_map, name_addr_map };
    }

    /// Takes the peer that is connected on the socket `client_addr` out of all
    /// three maps and returns its record; changes nothing where the socket
    /// belongs to no registered peer.
    pub fn unregister_by_client(&mut self, client_addr: &SocketAddress) -> (removed: Option<
        PeerInfo,
    >)
        ensures
            removed is Some <==> old(self).by_client().contains_key(*client_addr),
            removed matches Some(info) ==> {
                &&& info@ == old(self).by_listener()[old(self).by_client()[*client_addr]]
                &&& info@.client_addr == *client_addr
                &&& final(self).by_listener() == old(self).by_listener().remove(
                    info@.peer.address,
                )
                &&& final(self).by_client() == old(self).by_client().remove(*client_addr)
                &&& final(self).by_username() == old(self).by_username().remove(
                    info@.peer.username,
                )
                &&& final(self).listeners() == old(self).listeners().remove(
                    old(self).listeners().index_of(info@.peer.address),
                )
            },
            removed is None ==> {
                &&& final(self).by_listener() == old(self).by_listener()
                &&& final(self).by_client() == old(self).by_client()
                &&& final(self).by_username() == old(self).by_username()
                &&& final(self).listeners() == old(self).listeners()
            },
            final(self)@ == (if old(self).by_client().contains_key(*client_addr) {
                unregistered(old(self)@, old(self).by_client()[*client_addr])
            } else {
                old(self)@
            }),
            final(self).is_consistent(),
    {
        proof {
            use_type_invariant(&*self);
        }
        let listener = match self.client_to_listener_map.get(client_addr) {
            Some(l) => *l,
            None => {
                proof {
                    self.lemma_coherent();
                }
                return None;
            },
        };
        self.take_out(&listener)
    }

    /// Takes the peer with the username `username` out of all three maps and
    /// returns its record; changes nothing where no peer has that username.
    pub fn unregister_by_username(&mut self, username: &str) -> (removed: Option<PeerInfo>)
        ensures
            removed is Some <==> old(self).by_username().contains_key(username@),
            removed matches Some(info) ==> {
                &&& info@ == old(self).by_listener()[old(self).by_username()[username@]]
                &&& info@.peer.username == username@
                &&& final(self).by_listener() == old(self).by_listener().remove(
                    info@.peer.address,
                )
                &&& final(self).by_client() == old(self).by_client().remove(info@.client_addr)
                &&& final(self).by_username() == old(self).by_username().remove(username@)
                &&& final(self).listeners() == old(self).listeners().remove(
                    old(self).listeners().index_of(info@.peer.address),
                )
            },
            removed is None ==> {
                &&& final(self).by_listener() == old(self).by_listener()
                &&& final(self).by_client() == old(self).by_client()
                &&& final(self).by_username() == old(self).by_username()
                &&& final(self).listeners() == old(self).listeners()
            },
            final(self)@ == (if old(self).by_username().contains_key(username@) {
                unregistered(old(self)@, old(self).by_username()[username@])
            } else {
                old(self)@
            }),
            final(self).is_consistent(),
    {
        proof {
            use_type_invariant(&*self);
        }
        let listener = match self.name_addr_map.get(&username.to_owned()) {
            Some(l) => *l,
            None => {
                proof {
                    self.lemma_coherent();
                }
                return None;
            },
        };
        self.take_out(&listener)
    }

    proof fn lemma_coherent(&self)
        requires
            self.coherent(),
        ensures
            self.is_consistent(),
    {
    }

    /// Takes the record under the listening address `listener`, which is
    /// registered, out of all three maps.
    fn take_out(&mut self, listener: &SocketAddress) -> (removed: Option<PeerInfo>)
        requires
            old(self).by_listener().contains_key(*listener),
        ensures
            removed is Some,
            removed matches Some(info) ==> {
                &&& info@ == old(self).by_listener()[*listener]
                &&& final(self).by_listener() == old(self).by_listener().remove(*listener)
                &&& final(self).by_client() == old(self).by_client().remove(info@.client_addr)
                &&& final(self).by_username() == old(self).by_username().remove(
                    info@.peer.username,
                )
                &&& final(self).listeners() == old(self).listeners().remove(
                    old(self).listeners().index_of(*listener),
                )
            },
            final(self).is_consistent(),
    {
        proof {
            use_type_invariant(&*self);
        }
        let mut taken = PeerStore::new();
        std::mem::swap(self, &mut taken);
        let PeerStore { mut listener_map, mut client_to_listener_map, mut name_addr_map } = taken;
        let ghost before = record_views(listener_map@);
        let removed = listener_map.remove(listener);
        match &removed {
            Some(info) => {
                client_to_listener_map.remove(&info.client_addr);
                name_addr_map.remove(&info.peer.username().to_owned());
                proof {
                    assert(record_views(listener_map@) =~= before.remove(*listener));
                }
            },
            None => {},
        }
        *self = PeerStore { listener_map, client_to_listener_map, name_addr_map };
        removed
    }

    /// The record of the peer that listens on `listener`, if it is registered.
    pub fn get_by_listener(&self, listener: &SocketAddress) -> (r: Option<PeerInfo>)
        ensures
            r is Some <==> self.by_listener().contains_key(*listener),
            r matches Some(info) ==> info@ == self.by_listener()[*listener],
            self.is_consistent(),
    {
        proof {
            use_type_invariant(self);
        }
        match self.listener_map.get(listener) {
            Some(info) => Some(info.clone()),
            None => None,
        }
    }

    /// The record of the peer with the username `username`, if it is registered.
    pub fn get_by_username(&self, username: &str) -> (r: Option<PeerInfo>)
        ensures
            r is Some <==> self.by_username().contains_key(username@),
            r matches Some(info) ==> {
                &&& info@ == self.by_listener()[self.by_username()[username@]]
                &&& info@.peer.username == username@
            },
            self.is_consistent(),
    {
        proof {
            use_type_invariant(self);
        }
        match self.name_addr_map.get(&username.to_owned()) {
            Some(listener) => self.get_by_listener(listener),
            None => None,
        }
    }

    /// How many peers are registered.
    pub fn len(&self) -> (n: usize)
        ensures
            n == self.listeners().len(),
            self.is_consistent(),
    {
        proof {
            use_type_invariant(self);
        }
        self.listener_map.len()
    }

    /// A copy of every registered peer, in the order in which they came.
    pub fn all_pears(&self) -> (out: Vec<Peer>)
        ensures
            views(out@) == self.peers(),
            self.is_consistent(),
    {
        proof {
            use_type_invariant(self);
        }
        let mut out: Vec<Peer> = Vec::new();
        let n = self.listener_map.len();
        let mut i: usize = 0;
        while i < n
            invariant
                i <= n == self.listeners().len(),
                views(out@) == self.peers().take(i as int),
            decreases n - i,
        {
            let peer = self.listener_map.value_at(i).peer.clone();
            assert(peer@ == self.peers()[i as int]);
            proof {
                lemma_views_push(out@, peer);
            }
            out.push(peer);
            i += 1;
            assert(self.peers().take(i as int) =~= self.peers().take(i - 1).push(
                self.peers()[i - 1],
            ));
        }
        assert(self.peers().take(n as int) == self.peers());
        out
    }

    /// The deliveries that send `msg`, with `host` as its sender, to every
    /// registered peer, in the order in which the peers came.
    pub fn broadcast(&self, host: &Peer, msg: &FNP) -> (out: Vec<Delivery>)
        ensures
            views(out@) == broadcast_to(self.records(), with_sender(msg@, host@)),
            self.is_consistent(),
    {
        proof {
            use_type_invariant(self);
        }
        let ghost all = broadcast_to(self.records(), with_sender(msg@, host@));
        let mut out: Vec<Delivery> = Vec::new();
        let n = self.listener_map.len();
        let mut i: usize = 0;
        while i < n
            invariant
                i <= n == self.listeners().len(),
                all == broadcast_to(self.records(), with_sender(msg@, host@)),
                views(out@) == all.take(i as int),
            decreases n - i,
        {
            let client = self.listener_map.value_at(i).client_addr;
            let delivery = Delivery { client, message: msg.clone().set_rem(host.clone()) };
            assert(delivery@ == all[i as int]);
            proof {
                lemma_views_push(out@, delivery);
            }
            out.push(delivery);
            i += 1;
            assert(all.take(i as int) =~= all.take(i - 1).push(all[i - 1]));
        }
        assert(all.take(n as int) == all);
        out
    }

    /// The delivery that sends `msg`, with `host` as its sender, to the peer
    /// that listens on `listener`; none where no such peer is registered.
    pub fn send_through_listener(&self, host: &Peer, listener: &SocketAddress, msg: FNP) -> (out:
        Option<Delivery>)
        ensures
            out is Some <==> self.by_listener().contains_key(*listener),
            out matches Some(d) ==> d@ == (DeliveryView {
                client: self.by_listener()[*listener].client_addr,
                message: with_sender(msg@, host@),
            }),
    {
        match self.listener_map.get(listener) {
            Some(info) => Some(
                Delivery { client: info.client_addr, message: msg.set_rem(host.clone()) },
            ),
            None => None,
        }
    }
}

/// One delivery of `message` for each of `records`, in order.
pub open spec fn broadcast_to(records: Seq<PeerInfoView>, message: MessageView) -> Seq<
    DeliveryView,
> {
    Seq::new(records.len(), |i: int| DeliveryView { client: records[i].client_addr, message })
}

} // verus!
