//! The transport of a peer, without its sockets: who the host is, which
//! connections are open, who is registered, and where a message goes.
use crate::address::SocketAddress;
use crate::assoc::{order_with, order_without, AssocMap};
use crate::event::{no_actions, push_action, push_notice, Action, ActionView, Notice, NoticeView};
use crate::peer::{Peer, PeerView};
use crate::peerstore::{Delivery, DeliveryView, PeerInfoView, PeerStore};
use crate::protocol::{destination, with_sender, MessageView, FNP};
use crate::text::views;
use vstd::prelude::*;

verus! {

/// The state of the transport. A connection is known by the address of its
/// client socket; the sockets themselves are kept by the program around the library.
pub struct ServerBackend {
    /// This peer: its username and the address on which it listens.
    pub host: Peer,
    /// The connections that are open, registered or not.
    pub connections: AssocMap<SocketAddress, ()>,
    /// The peers that have told who they are.
    pub peer_store: PeerStore,
}

/// Whether `m` goes to every open connection rather than to one peer.
pub open spec fn is_fan_out(m: MessageView) -> bool {
    m is Broadcast || m is AnnounceName || m is PeerList
}

/// One action that sends `message` for each of `clients`, in order.
pub open spec fn send_to_all(clients: Seq<SocketAddress>, message: MessageView) -> Seq<
    ActionView,
> {
    Seq::new(
        clients.len(),
        |i: int| ActionView::Send(DeliveryView { client: clients[i], message }),
    )
}

/// Where `m` goes, sent by `host`: a broadcast, a handshake and a list of
/// peers go to every open connection; every other message goes to the
/// connection of the peer that it is for, if that peer is registered and its
/// connection open, and is dropped with a notice if not.
pub open spec fn route_of(
    host: PeerView,
    open_connections: Seq<SocketAddress>,
    live: Map<SocketAddress, ()>,
    by_listener: Map<SocketAddress, PeerInfoView>,
    m: MessageView,
) -> Seq<ActionView> {
    let message = with_sender(m, host);
    match destination(m) {
        Some(dest) if !is_fan_out(m) => {
            if by_listener.contains_key(dest.address) && live.contains_key(
                by_listener[dest.address].client_addr,
            ) {
                seq![
                    ActionView::Send(
                        DeliveryView { client: by_listener[dest.address].client_addr, message },
                    ),
                ]
            } else {
                seq![ActionView::Notify(NoticeView::Undeliverable(dest.address))]
            }
        },
        _ => send_to_all(open_connections, message),
    }
}

/// What the opening of a connection on the socket `addr` asks for: nothing
/// where the connection is known already; else a notice, the handshake on the
/// new connection, and the reading of what comes in on it.
pub open spec fn opening_of(host: PeerView, live: Map<SocketAddress, ()>, addr: SocketAddress) -> Seq<
    ActionView,
> {
    if live.contains_key(addr) {
        Seq::empty()
    } else {
        seq![
            ActionView::Notify(NoticeView::ConnectionOpened(addr)),
            ActionView::Send(
                DeliveryView { client: addr, message: MessageView::AnnounceName { rem: host } },
            ),
            ActionView::Read(addr),
        ]
    }
}

impl ServerBackend {
    /// The transport of the peer `username` that listens on `addr`, with no
    /// connection open and nobody registered.
    pub fn new(username: &str, addr: SocketAddress) -> (s: Self)
        ensures
            s.host@ == (PeerView { username: username@, address: addr }),
            s.connections@ == Map::<SocketAddress, ()>::empty(),
            s.connections.order() == Seq::<SocketAddress>::empty(),
            s.peer_store.by_listener() == Map::<SocketAddress, PeerInfoView>::empty(),
            s.peer_store.by_client() == Map::<SocketAddress, SocketAddress>::empty(),
            s.peer_store.by_username() == Map::<Seq<char>, SocketAddress>::empty(),
            s.peer_store.listeners() == Seq::<SocketAddress>::empty(),
    {
        ServerBackend {
            host: Peer::new(username.to_owned(), addr),
            connections: AssocMap::new(),
            peer_store: PeerStore::new(),
        }
    }

    /// This peer.
    pub fn host(&self) -> (p: Peer)
        ensures
            p@ == self.host@,
    {
        self.host.clone()
    }

    /// The registry of peers.
    pub fn peer_store(&self) -> (s: &PeerStore)
        ensures
            s == &self.peer_store,
    {
        &self.peer_store
    }

    /// The connections that are open.
    pub fn connections(&self) -> (c: &AssocMap<SocketAddress, ()>)
        ensures
            c == &self.connections,
    {
        &self.connections
    }

    /// Registers `peer`, connected on the socket `client_addr`.
    pub fn register_peer(&mut self, peer: Peer, client_addr: SocketAddress)
        requires
            old(self).peer_store.is_new(peer@, client_addr),
        ensures
            final(self).peer_store.by_listener() == old(self).peer_store.by_listener().insert(
                peer@.address,
                PeerInfoView { peer: peer@, client_addr },
            ),
            final(self).peer_store.by_client() == old(self).peer_store.by_client().insert(
                client_addr,
                peer@.address,
            ),
            final(self).peer_store.by_username() == old(self).peer_store.by_username().insert(
                peer@.username,
                peer@.address,
            ),
            final(self).peer_store.listeners() == old(self).peer_store.listeners().push(
                peer@.address,
            ),
            final(self).peer_store.is_consistent(),
            final(self).host == old(self).host,
            final(self).connections == old(self).connections,
    {
        self.peer_store.register(peer, client_addr);
    }

    /// Takes note of the connection that was opened on the socket `addr` and
    /// says what to do with it.
    pub fn handle_connection(&mut self, addr: SocketAddress) -> (actions: Vec<Action>)
        ensures
            views(actions@) == opening_of(old(self).host@, old(self).connections@, addr),
            final(self).connections@ == old(self).connections@.insert(addr, ()),
            final(self).connections.order() == order_with(
                old(self).connections.order(),
                old(self).connections@,
                addr,
            ),
            final(self).host == old(self).host,
            final(self).peer_store == old(self).peer_store,
    {
        let mut actions = no_actions();
        if self.connections.contains_key(&addr) {
            assert(self.connections@ =~= self.connections@.insert(addr, ()));
            return actions;
        }
        self.connections.insert(addr, ());
        push_notice(&mut actions, Notice::ConnectionOpened(addr));
        push_action(
            &mut actions,
            Action::Send(Delivery { client: addr, message: FNP::AnnounceName { rem: self.host() } }),
        );
        push_action(&mut actions, Action::Read(addr));
        assert(views(actions@) =~= opening_of(old(self).host@, old(self).connections@, addr));
        actions
    }

    /// Forgets the connection of the socket `addr`.
    pub fn drop_connection(&mut self, addr: &SocketAddress)
        ensures
            final(self).connections@ == old(self).connections@.remove(*addr),
            final(self).connections.order() == order_without(
                old(self).connections.order(),
                old(self).connections@,
                *addr,
            ),
            final(self).host == old(self).host,
            final(self).peer_store == old(self).peer_store,
    {
        self.connections.remove(addr);
    }

    /// Says where `msg` goes, with this peer as its sender.
    pub fn route(&self, msg: FNP) -> (actions: Vec<Action>)
        ensures
            views(actions@) == route_of(
                self.host@,
                self.connections.order(),
                self.connections@,
                self.peer_store.by_listener(),
                msg@,
            ),
    {
        let fan_out = match &msg {
            FNP::Broadcast { .. } => true,
            FNP::AnnounceName { .. } => true,
            FNP::PeerList { .. } => true,
            _ => false,
        };
        let dest = match msg.dest() {
            Some(d) => Some(d.address()),
            None => None,
        };
        match dest {
            Some(listener) if !fan_out => {
                let mut actions = no_actions();
                let target = match self.peer_store.get_by_listener(&listener) {
                    Some(info) => {
                        if self.connections.contains_key(&info.client_addr) {
                            Some(info.client_addr)
                        } else {
                            None
                        }
                    },
                    None => None,
                };
                match target {
                    Some(client) => {
                        push_action(
                            &mut actions,
                            Action::Send(Delivery { client, message: msg.set_rem(self.host()) }),
                        );
                    },
                    None => {
                        push_notice(&mut actions, Notice::Undeliverable(listener));
                    },
                }
                actions
            },
            _ => self.send_all(&msg),
        }
    }

    /// One action that sends `msg`, with this peer as its sender, for each open connection.
    fn send_all(&self, msg: &FNP) -> (actions: Vec<Action>)
        ensures
            views(actions@) == send_to_all(self.connections.order(), with_sender(msg@, self.host@)),
    {
        let ghost all = send_to_all(self.connections.order(), with_sender(msg@, self.host@));
        let mut actions = no_actions();
        let n = self.connections.len();
        let mut i: usize = 0;
        assert(all.take(0) =~= Seq::<ActionView>::empty());
        while i < n
            invariant
                i <= n == self.connections.order().len(),
                all == send_to_all(self.connections.order(), with_sender(msg@, self.host@)),
                views(actions@) == all.take(i as int),
            decreases n - i,
        {
            let client = *self.connections.key_at(i);
            push_action(
                &mut actions,
                Action::Send(Delivery { client, message: msg.clone().set_rem(self.host()) }),
            );
            i += 1;
            assert(all.take(i as int) =~= all.take(i - 1).push(all[i - 1]));
        }
        assert(all.take(n as int) == all);
        actions
    }
}

} // verus!
