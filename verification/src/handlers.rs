//! What a peer does about each event: a peer that leaves, a message that
//! comes in, a message that the user sends, a cast of the line.
//!
//! Each handler changes the state of the peer and returns what is left to do:
//! the messages to write, the connections to open or drop, and the notices for
//! the user.
use crate::address::{address_lt, lemma_address_order_total, SocketAddress};
use crate::assoc::{order_with, order_without, value_views, AssocMap};
use crate::backend::{route_of, ServerBackend};
use crate::basket::{gain, items_of, FishBasket};
use crate::event::{
    no_actions, push_action, push_notice, Action, ActionView, Event, EventView, Notice, NoticeView,
};
use crate::gameplay::{
    catalog, fishing, list_of, rarity_rank, style_of_rank, CatalogView, FishCatalog,
};
use crate::offer::{Inventory, InventoryItem, ItemView, Offer, OfferView};
use crate::peer::{Peer, PeerView};
use crate::peerstore::{
    peers_of, registered, registry_agrees, unregistered, Delivery, DeliveryView, RegistryView,
};
use crate::protocol::{destination, sender, MessageView, FNP};
use crate::text::{lemma_views_push, str_eq, views};
use crate::trade::{accept, accept_order, first_missing, settle, settle_order, OfferBuff};
use vstd::prelude::*;

verus! {

/// What a peer has besides its connections: the catalog of fish, its basket,
/// and the offers that wait for an answer.
pub struct AppState {
    pub fish_catalog: FishCatalog,
    pub basket: FishBasket,
    pub offer_buffers: OfferBuff,
}

impl AppState {
    /// The state of a peer that has caught nothing and traded nothing yet.
    pub fn new() -> (s: Self)
        ensures
            s.fish_catalog@ == catalog(),
            s.basket@ == Map::<Seq<char>, u32>::empty(),
            s.basket.order() == Seq::<Seq<char>>::empty(),
            s.offer_buffers.offers_made@ == Map::<SocketAddress, Offer>::empty(),
            s.offer_buffers.offers_received@ == Map::<SocketAddress, Offer>::empty(),
            s.offer_buffers.offers_made.order() == Seq::<SocketAddress>::empty(),
            s.offer_buffers.offers_received.order() == Seq::<SocketAddress>::empty(),
    {
        Self {
            fish_catalog: FishCatalog::new(),
            basket: FishBasket::new(),
            offer_buffers: OfferBuff::default(),
        }
    }

    /// The offers that this peer made, by the address of the peer they are for.
    pub open spec fn made(&self) -> Map<SocketAddress, OfferView> {
        value_views(self.offer_buffers.offers_made@)
    }

    /// The offers that this peer received, by the address of the peer that made them.
    pub open spec fn received(&self) -> Map<SocketAddress, OfferView> {
        value_views(self.offer_buffers.offers_received@)
    }

    /// What the basket holds, as a list of items in the order in which the kinds came.
    pub open spec fn holdings(&self) -> Seq<ItemView> {
        items_of(self.basket.order(), self.basket@)
    }
}

/// Those of `items` whose fish has the rank `rank`, in order.
pub open spec fn of_rank(items: Seq<ItemView>, c: CatalogView, rank: u8) -> Seq<ItemView>
    decreases items.len(),
{
    if items.len() == 0 {
        Seq::empty()
    } else {
        let rest = of_rank(items.drop_last(), c, rank);
        if rarity_rank(c, items.last().fish_type) == rank {
            rest.push(items.last())
        } else {
            rest
        }
    }
}

/// Those of `items` whose fish has a rank below `rank`, by rank, and in order
/// within a rank.
pub open spec fn below_rank(items: Seq<ItemView>, c: CatalogView, rank: u8) -> Seq<ItemView>
    decreases rank,
{
    if rank == 0 {
        Seq::empty()
    } else {
        below_rank(items, c, (rank - 1) as u8) + of_rank(items, c, (rank - 1) as u8)
    }
}

/// `items` with the commonest fish first and the rarest last; fish of one
/// rarity stay in the order in which they stood.
pub open spec fn by_rarity(items: Seq<ItemView>, c: CatalogView) -> Seq<ItemView> {
    below_rank(items, c, 7)
}

/// A copy of `items` with the commonest fish first and the rarest last.
pub fn sort_by_rarity(items: &Vec<InventoryItem>, fish_catalog: &FishCatalog) -> (out: Vec<
    InventoryItem,
>)
    ensures
        views(out@) == by_rarity(views(items@), fish_catalog@),
{
    let ghost all = views(items@);
    let ghost c = fish_catalog@;
    let mut out: Vec<InventoryItem> = Vec::new();
    let mut rank: u8 = 0;
    assert(views(out@) =~= below_rank(all, c, 0));
    while rank <= 6
        invariant
            rank <= 7,
            all == views(items@),
            c == fish_catalog@,
            views(out@) == below_rank(all, c, rank),
        decreases 7 - rank,
    {
        let ghost before = views(out@);
        let mut i: usize = 0;
        assert(all.take(0) == Seq::<ItemView>::empty());
        assert(before + of_rank(all.take(0), c, rank) == before);
        while i < items.len()
            invariant
                i <= items.len(),
                rank <= 6,
                all == views(items@),
                c == fish_catalog@,
                views(out@) == before + of_rank(all.take(i as int), c, rank),
            decreases items.len() - i,
        {
            assert(all.take(i + 1).drop_last() == all.take(i as int));
            assert(all.take(i + 1).last() == items@[i as int]@);
            if fish_catalog.get_rarity_rank(items[i].fish_type.as_str()) == rank {
                let item = items[i].clone();
                proof {
                    lemma_views_push(out@, item);
                }
                out.push(item);
                assert(views(out@) =~= before + of_rank(all.take(i + 1), c, rank));
            }
            i += 1;
        }
        assert(all.take(items.len() as int) == all);
        rank += 1;
    }
    out
}

/// The connections of `server1` are those of `server0` without the one of the socket `client`.
pub open spec fn connection_dropped(
    server0: ServerBackend,
    server1: ServerBackend,
    client: SocketAddress,
) -> bool {
    &&& server1.connections@ == server0.connections@.remove(client)
    &&& server1.connections.order() == order_without(
        server0.connections.order(),
        server0.connections@,
        client,
    )
}

/// The offers `offers1` are the offers `offers0` without the one under `address`.
pub open spec fn offer_dropped(
    offers0: AssocMap<SocketAddress, Offer>,
    offers1: AssocMap<SocketAddress, Offer>,
    address: SocketAddress,
) -> bool {
    &&& value_views(offers1@) == value_views(offers0@).remove(address)
    &&& offers1.order() == order_without(offers0.order(), offers0@, address)
}

/// The offers `offers1` are the offers `offers0` with `offer` under `address`.
pub open spec fn offer_kept(
    offers0: AssocMap<SocketAddress, Offer>,
    offers1: AssocMap<SocketAddress, Offer>,
    address: SocketAddress,
    offer: OfferView,
) -> bool {
    &&& value_views(offers1@) == value_views(offers0@).insert(address, offer)
    &&& offers1.order() == order_with(offers0.order(), offers0@, address)
}

/// What the user is told when a registered peer leaves: that it left, and
/// that the offers made to it and received from it are void, where there were any.
pub open spec fn departure_of(peer: PeerView, made: bool, received: bool) -> Seq<ActionView> {
    seq![ActionView::Notify(NoticeView::PeerLeft(peer))] + (if made {
        seq![ActionView::Notify(NoticeView::OfferMadeCancelled(peer))]
    } else {
        Seq::empty()
    }) + (if received {
        seq![ActionView::Notify(NoticeView::OfferReceivedCancelled(peer))]
    } else {
        Seq::empty()
    })
}

/// What holds after the connection of the socket `client` has ended: the
/// connection is forgotten; the peer that was registered on it is taken out
/// of the registry, and the offers made to it and received from it are
/// dropped; the basket stays as it is.
pub open spec fn after_disconnect(
    app0: AppState,
    app1: AppState,
    server0: ServerBackend,
    server1: ServerBackend,
    client: SocketAddress,
    actions: Seq<ActionView>,
) -> bool {
    let r = server0.peer_store@;
    &&& server1.host == server0.host
    &&& connection_dropped(server0, server1, client)
    &&& app1.basket == app0.basket
    &&& app1.fish_catalog == app0.fish_catalog
    &&& registry_agrees(server1.peer_store@)
    &&& if r.by_client.contains_key(client) {
        let peer = r.by_listener[r.by_client[client]].peer;
        &&& server1.peer_store@ == unregistered(r, r.by_client[client])
        &&& offer_dropped(
            app0.offer_buffers.offers_made,
            app1.offer_buffers.offers_made,
            peer.address,
        )
        &&& offer_dropped(
            app0.offer_buffers.offers_received,
            app1.offer_buffers.offers_received,
            peer.address,
        )
        &&& actions == departure_of(
            peer,
            app0.made().contains_key(peer.address),
            app0.received().contains_key(peer.address),
        )
    } else {
        &&& server1.peer_store@ == r
        &&& app1.offer_buffers == app0.offer_buffers
        &&& actions == seq![ActionView::Notify(NoticeView::UnknownPeerLeft(client))]
    }
}

/// Deals with the end of the connection of the socket `client_addr`.
pub fn handle_peer_disconnected(
    app_state: &mut AppState,
    server: &mut ServerBackend,
    client_addr: SocketAddress,
) -> (actions: Vec<Action>)
    ensures
        after_disconnect(
            *old(app_state),
            *final(app_state),
            *old(server),
            *final(server),
            client_addr,
            views(actions@),
        ),
{
    let mut actions = no_actions();
    server.connections.remove(&client_addr);
    match server.peer_store.unregister_by_client(&client_addr) {
        Some(info) => {
            let peer = info.peer;
            let address = peer.address();
            push_notice(&mut actions, Notice::PeerLeft(peer.clone()));
            let made = app_state.offer_buffers.offers_made.remove(&address);
            if made.is_some() {
                push_notice(&mut actions, Notice::OfferMadeCancelled(peer.clone()));
            }
            let received = app_state.offer_buffers.offers_received.remove(&address);
            if received.is_some() {
                push_notice(&mut actions, Notice::OfferReceivedCancelled(peer.clone()));
            }
            proof {
                assert(app_state.made() =~= old(app_state).made().remove(address));
                assert(app_state.received() =~= old(app_state).received().remove(address));
                assert(views(actions@) =~= departure_of(
                    peer@,
                    old(app_state).made().contains_key(address),
                    old(app_state).received().contains_key(address),
                ));
            }
        },
        None => {
            push_notice(&mut actions, Notice::UnknownPeerLeft(client_addr));
        },
    }
    actions
}

/// What holds after the fish `fish` was caught: the basket holds one more of
/// it, and the user is told, in the style of the fish's rarity.
pub open spec fn after_catch(
    app0: AppState,
    app1: AppState,
    fish: Seq<char>,
    actions: Seq<ActionView>,
) -> bool {
    &&& app1.basket@ == gain(app0.basket@, fish, 1)
    &&& app1.fish_catalog == app0.fish_catalog
    &&& app1.offer_buffers == app0.offer_buffers
    &&& actions == seq![
        ActionView::Notify(
            NoticeView::Caught {
                fish,
                style: style_of_rank(rarity_rank(app0.fish_catalog@, fish)),
            },
        ),
    ]
}

/// Puts the fish `fish` that was caught into the basket.
pub fn catch(app_state: &mut AppState, fish: String) -> (actions: Vec<Action>)
    ensures
        after_catch(*old(app_state), *final(app_state), fish@, views(actions@)),
{
    let mut actions = no_actions();
    app_state.basket.add(fish.as_str(), 1);
    let style = app_state.fish_catalog.get_style_for_fish(fish.as_str());
    push_notice(&mut actions, Notice::Caught { fish, style });
    actions
}

/// Casts the line: a fish of the catalog is drawn and put into the basket.
pub fn handle_pesca(app_state: &mut AppState) -> (actions: Vec<Action>)
    ensures
        exists|rank: u8, fish: Seq<char>|
            #![trigger list_of(old(app_state).fish_catalog@, rank).contains(fish)]
            list_of(old(app_state).fish_catalog@, rank).contains(fish) && after_catch(
                *old(app_state),
                *final(app_state),
                fish,
                views(actions@),
            ),
{
    let fish = fishing(&app_state.fish_catalog);
    let ghost name = fish@;
    let actions = catch(app_state, fish);
    proof {
        let rank = choose|rank: u8| #[trigger]
            list_of(old(app_state).fish_catalog@, rank).contains(name);
        assert(list_of(old(app_state).fish_catalog@, rank).contains(name));
    }
    actions
}

/// What holds after an offer from `rem` came in: it waits for an answer
/// under the address of `rem`, in place of any older one, and the user is told.
pub open spec fn after_trade_offer(
    app0: AppState,
    app1: AppState,
    rem: PeerView,
    offer: OfferView,
    actions: Seq<ActionView>,
) -> bool {
    &&& offer_kept(
        app0.offer_buffers.offers_received,
        app1.offer_buffers.offers_received,
        rem.address,
        offer,
    )
    &&& app1.offer_buffers.offers_made == app0.offer_buffers.offers_made
    &&& app1.basket == app0.basket
    &&& app1.fish_catalog == app0.fish_catalog
    &&& actions == seq![ActionView::Notify(NoticeView::TradeOffered { from: rem, offer })]
}

/// Notes the offer that `rem` proposes.
pub fn handle_server_tradeoffer(app_state: &mut AppState, rem: Peer, offer: Offer) -> (actions:
    Vec<Action>)
    ensures
        after_trade_offer(*old(app_state), *final(app_state), rem@, offer@, views(actions@)),
{
    let mut actions = no_actions();
    let shown = offer.clone();
    app_state.offer_buffers.offers_received.insert(rem.address(), offer);
    assert(app_state.received() =~= old(app_state).received().insert(rem@.address, offer@));
    push_notice(&mut actions, Notice::TradeOffered { from: rem, offer: shown });
    actions
}

/// What holds after `rem` answered the offer made to it: where it accepted,
/// the basket has lost what was offered and gained what was requested; either
/// way the offer waits no more, and the user is told.
pub open spec fn after_trade_confirm(
    app0: AppState,
    app1: AppState,
    rem: PeerView,
    response: bool,
    offer: OfferView,
    actions: Seq<ActionView>,
) -> bool {
    &&& offer_dropped(
        app0.offer_buffers.offers_made,
        app1.offer_buffers.offers_made,
        rem.address,
    )
    &&& app1.offer_buffers.offers_received == app0.offer_buffers.offers_received
    &&& app1.fish_catalog == app0.fish_catalog
    &&& if response {
        &&& app1.basket@ == settle(app0.basket@, offer)
        &&& app1.basket.order() == settle_order(app0.basket.order(), app0.basket@, offer)
        &&& actions == seq![ActionView::Notify(NoticeView::TradeAccepted { by: rem, offer })]
    } else {
        &&& app1.basket == app0.basket
        &&& actions == seq![ActionView::Notify(NoticeView::TradeRefused { by: rem })]
    }
}

/// Settles the offer that `rem` answered.
pub fn handle_server_tradeconfirm(
    app_state: &mut AppState,
    response: bool,
    rem: Peer,
    offer: &Offer,
) -> (actions: Vec<Action>)
    ensures
        after_trade_confirm(
            *old(app_state),
            *final(app_state),
            rem@,
            response,
            offer@,
            views(actions@),
        ),
{
    let mut actions = no_actions();
    let address = rem.address();
    if response {
        app_state.basket.lose_all(&offer.offered);
        app_state.basket.gain_all(&offer.requested);
        push_notice(&mut actions, Notice::TradeAccepted { by: rem, offer: offer.clone() });
    } else {
        push_notice(&mut actions, Notice::TradeRefused { by: rem });
    }
    app_state.offer_buffers.offers_made.remove(&address);
    assert(app_state.made() =~= old(app_state).made().remove(address));
    actions
}

/// The inventory that a peer shows: what its basket holds, the commonest fish first.
pub open spec fn showcase_of(app: AppState) -> Seq<ItemView> {
    by_rarity(app.holdings(), app.fish_catalog@)
}

/// What the basket holds, the commonest fish first.
pub fn showcase(app_state: &AppState) -> (inventory: Inventory)
    ensures
        inventory@ == showcase_of(*app_state),
{
    let items = app_state.basket.items();
    Inventory { items: sort_by_rarity(&items, &app_state.fish_catalog) }
}

/// Where `m` goes when `server` sends it.
pub open spec fn routed(server: ServerBackend, m: MessageView) -> Seq<ActionView> {
    route_of(
        server.host@,
        server.connections.order(),
        server.connections@,
        server.peer_store@.by_listener,
        m,
    )
}

/// The answer to a request of `peer` to see the inventory: the inventory, sent to `peer`.
pub open spec fn inventory_answer(app: AppState, server: ServerBackend, peer: PeerView) -> Seq<
    ActionView,
> {
    routed(
        server,
        MessageView::InventoryShowcase {
            rem: server.host@,
            dest: peer,
            inventory: showcase_of(app),
        },
    )
}

/// Answers the request of `peer` to see the inventory.
pub fn handle_server_inventory_request(app_state: &AppState, peer: Peer, server: &ServerBackend) -> (actions:
    Vec<Action>)
    ensures
        views(actions@) == inventory_answer(*app_state, *server, peer@),
{
    let inventory = showcase(app_state);
    server.route(FNP::InventoryShowcase { rem: server.host(), dest: peer, inventory })
}

/// Shows the inventory that `peer` sent.
pub fn handle_server_inventory_showcase(peer: Peer, inventory: Inventory) -> (actions: Vec<Action>)
    ensures
        views(actions@) == seq![
            ActionView::Notify(
                NoticeView::InventoryShown { owner: peer@, inventory: inventory@ },
            ),
        ],
{
    let mut actions = no_actions();
    push_notice(&mut actions, Notice::InventoryShown { owner: peer, inventory });
    actions
}

/// Shows the text that `rem` sent to this peer alone.
pub fn handle_server_direct_message(rem: Peer, content: String) -> (actions: Vec<Action>)
    ensures
        views(actions@) == seq![
            ActionView::Notify(NoticeView::DirectMessage { from: rem@, content: content@ }),
        ],
{
    let mut actions = no_actions();
    push_notice(&mut actions, Notice::DirectMessage { from: rem, content });
    actions
}

/// Shows the text that `rem` sent to everybody.
pub fn handle_server_broadcast_message(rem: Peer, content: String) -> (actions: Vec<Action>)
    ensures
        views(actions@) == seq![
            ActionView::Notify(NoticeView::BroadcastMessage { from: rem@, content: content@ }),
        ],
{
    let mut actions = no_actions();
    push_notice(&mut actions, Notice::BroadcastMessage { from: rem, content });
    actions
}

/// What this peer's own rejection asks for: the user is told, and the program
/// ends with status 1.
pub open spec fn rejection() -> Seq<ActionView> {
    seq![ActionView::Notify(NoticeView::Rejected), ActionView::Exit(1)]
}

/// Deals with the refusal of this peer's own username.
pub fn handle_rejection() -> (actions: Vec<Action>)
    ensures
        views(actions@) == rejection(),
{
    let mut actions = no_actions();
    push_notice(&mut actions, Notice::Rejected);
    push_action(&mut actions, Action::Exit(1));
    actions
}

/// How the peer `rem` is turned away on the socket `client`, for its
/// username is taken: the refusal is written on its connection, if that is
/// open, the connection is dropped, and the user is told.
pub open spec fn turning_away(
    host: PeerView,
    live: Map<SocketAddress, ()>,
    rem: PeerView,
    client: SocketAddress,
) -> Seq<ActionView> {
    (if live.contains_key(client) {
        seq![
            ActionView::Send(
                DeliveryView {
                    client,
                    message: MessageView::RejectConnection { rem: host, dest: rem },
                },
            ),
        ]
    } else {
        Seq::empty()
    }) + seq![ActionView::Close(client), ActionView::Notify(NoticeView::NameTaken(rem))]
}

/// Turns the peer `rem` away on the socket `client_addr`.
pub fn reject_homonym(server: &mut ServerBackend, rem: &Peer, client_addr: SocketAddress) -> (actions:
    Vec<Action>)
    ensures
        views(actions@) == turning_away(
            old(server).host@,
            old(server).connections@,
            rem@,
            client_addr,
        ),
        connection_dropped(*old(server), *final(server), client_addr),
        final(server).host == old(server).host,
        final(server).peer_store == old(server).peer_store,
{
    let mut actions = no_actions();
    if server.connections.contains_key(&client_addr) {
        let message = FNP::RejectConnection { rem: server.host(), dest: rem.clone() };
        push_action(&mut actions, Action::Send(Delivery { client: client_addr, message }));
    }
    server.connections.remove(&client_addr);
    push_action(&mut actions, Action::Close(client_addr));
    push_notice(&mut actions, Notice::NameTaken(rem.clone()));
    assert(views(actions@) =~= turning_away(
        old(server).host@,
        old(server).connections@,
        rem@,
        client_addr,
    ));
    actions
}

/// Whether the handshake of `rem` on the socket `client` is refused: its
/// username is held by a peer at another address, or is the host's own.
pub open spec fn is_homonym(r: RegistryView, host: PeerView, rem: PeerView) -> bool {
    if r.by_username.contains_key(rem.username) {
        r.by_username[rem.username] != rem.address
    } else {
        rem.username == host.username
    }
}

/// Whether the handshake of `rem` is one more from a peer that is registered
/// already, under that username and at that address.
pub open spec fn is_repeated(r: RegistryView, rem: PeerView) -> bool {
    r.by_username.contains_key(rem.username) && r.by_username[rem.username] == rem.address
}

/// Whether the handshake of `rem` on the socket `client` registers it: it is
/// neither refused nor repeated, and neither its address nor the socket is registered.
pub open spec fn is_admitted(
    r: RegistryView,
    host: PeerView,
    rem: PeerView,
    client: SocketAddress,
) -> bool {
    &&& !r.by_username.contains_key(rem.username)
    &&& rem.username != host.username
    &&& !r.by_listener.contains_key(rem.address)
    &&& !r.by_client.contains_key(client)
}

/// The registry after the handshake of `rem` on the socket `client`.
pub open spec fn announce_registry(
    r: RegistryView,
    host: PeerView,
    rem: PeerView,
    client: SocketAddress,
) -> RegistryView {
    if is_admitted(r, host, rem, client) {
        registered(r, rem, client)
    } else {
        r
    }
}

/// What holds after the handshake of `rem` came in on the socket `client`.
/// A refused handshake is answered and its connection dropped; a repeated one
/// has its connection dropped; an admitted one registers the peer, tells the
/// user, and sends the list of all registered peers; any other changes nothing.
pub open spec fn after_announce(
    server0: ServerBackend,
    server1: ServerBackend,
    rem: PeerView,
    client: SocketAddress,
    actions: Seq<ActionView>,
) -> bool {
    let r = server0.peer_store@;
    let host = server0.host@;
    &&& server1.host == server0.host
    &&& server1.peer_store@ == announce_registry(r, host, rem, client)
    &&& registry_agrees(server1.peer_store@)
    &&& if is_homonym(r, host, rem) {
        &&& connection_dropped(server0, server1, client)
        &&& actions == turning_away(host, server0.connections@, rem, client)
    } else if is_repeated(r, rem) {
        &&& connection_dropped(server0, server1, client)
        &&& actions == seq![ActionView::Close(client)]
    } else if is_admitted(r, host, rem, client) {
        &&& server1.connections == server0.connections
        &&& actions == seq![ActionView::Notify(NoticeView::PeerJoined(rem))] + routed(
            server1,
            MessageView::PeerList {
                rem: host,
                dest: rem,
                peers: peers_of(registered(r, rem, client)),
            },
        )
    } else {
        &&& server1.connections == server0.connections
        &&& actions == Seq::<ActionView>::empty()
    }
}

/// Deals with the handshake of `rem` on the socket `client_addr`.
pub fn handle_server_announce_name(
    server: &mut ServerBackend,
    rem: Peer,
    client_addr: SocketAddress,
) -> (actions: Vec<Action>)
    ensures
        after_announce(*old(server), *final(server), rem@, client_addr, views(actions@)),
{
    match server.peer_store.get_by_username(rem.username()) {
        Some(existing) => {
            if existing.peer.address() != rem.address() {
                return reject_homonym(server, &rem, client_addr);
            } else {
                let mut actions = no_actions();
                server.connections.remove(&client_addr);
                push_action(&mut actions, Action::Close(client_addr));
                return actions;
            }
        },
        None => {},
    }
    if str_eq(rem.username(), server.host.username()) {
        return reject_homonym(server, &rem, client_addr);
    }
    let mut actions = no_actions();
    if server.peer_store.get_by_listener(&rem.address()).is_none()
        && !server.peer_store.contains_client(&client_addr) {
        server.register_peer(rem.clone(), client_addr);
        push_notice(&mut actions, Notice::PeerJoined(rem.clone()));
        let peers = server.peer_store.all_pears();
        let list = FNP::PeerList { rem: server.host(), dest: rem, peers };
        let mut sends = server.route(list);
        let ghost first = views(actions@);
        let ghost rest = views(sends@);
        append_actions(&mut actions, &mut sends);
        assert(views(actions@) == first + rest);
    }
    actions
}

/// Moves the actions of `more` to the end of `actions`.
pub fn append_actions(actions: &mut Vec<Action>, more: &mut Vec<Action>)
    ensures
        views(final(actions)@) == views(old(actions)@) + views(old(more)@),
        final(more)@.len() == 0,
{
    actions.append(more);
    assert(views(actions@) =~= views(old(actions)@) + views(old(more)@));
}

/// Whether this peer opens a connection to `candidate`, of which it learned
/// from `from`: only to a peer that it does not know by name, that is neither
/// itself nor `from`, and whose address comes after its own.
pub open spec fn should_connect(
    candidate: PeerView,
    known: Map<Seq<char>, SocketAddress>,
    host: PeerView,
    from: PeerView,
) -> bool {
    &&& !known.contains_key(candidate.username)
    &&& candidate.username != host.username
    &&& candidate.username != from.username
    &&& address_lt(host.address, candidate.address)
}

/// Those of `peers` to which this peer opens a connection, in order.
pub open spec fn connect_targets(
    peers: Seq<PeerView>,
    known: Map<Seq<char>, SocketAddress>,
    host: PeerView,
    from: PeerView,
) -> Seq<PeerView>
    decreases peers.len(),
{
    if peers.len() == 0 {
        Seq::empty()
    } else {
        let rest = connect_targets(peers.drop_last(), known, host, from);
        if should_connect(peers.last(), known, host, from) {
            rest.push(peers.last())
        } else {
            rest
        }
    }
}

/// A peer of the list is among the targets exactly where this peer opens a connection to it.
pub proof fn lemma_connect_targets(
    peers: Seq<PeerView>,
    known: Map<Seq<char>, SocketAddress>,
    host: PeerView,
    from: PeerView,
    candidate: PeerView,
)
    ensures
        connect_targets(peers, known, host, from).contains(candidate) <==> (peers.contains(
            candidate,
        ) && should_connect(candidate, known, host, from)),
    decreases peers.len(),
{
    if peers.len() > 0 {
        let rest = peers.drop_last();
        let targets = connect_targets(rest, known, host, from);
        lemma_connect_targets(rest, known, host, from, candidate);
        if peers.contains(candidate) {
            let i = choose|i: int| 0 <= i < peers.len() && peers[i] == candidate;
            if i < rest.len() {
                assert(rest[i] == candidate);
            }
        }
        if rest.contains(candidate) {
            let i = choose|i: int| 0 <= i < rest.len() && rest[i] == candidate;
            assert(peers[i] == candidate);
        }
        assert(peers[peers.len() - 1] == peers.last());
        if should_connect(peers.last(), known, host, from) {
            let all = targets.push(peers.last());
            if all.contains(candidate) {
                let i = choose|i: int| 0 <= i < all.len() && all[i] == candidate;
                if i < targets.len() {
                    assert(targets[i] == candidate);
                }
            }
            if targets.contains(candidate) {
                let i = choose|i: int| 0 <= i < targets.len() && targets[i] == candidate;
                assert(all[i] == candidate);
            }
            assert(all[targets.len() as int] == peers.last());
        }
    }
}

/// Of two peers that learn of each other from the same list, exactly one
/// opens the connection: the one whose address comes first. This is stated
/// for two peers with different addresses and different usernames that do not
/// know each other yet, and for a list that neither of them sent.
pub proof fn lemma_exactly_one_connects(
    a: PeerView,
    b: PeerView,
    from: PeerView,
    peers: Seq<PeerView>,
    known_to_a: Map<Seq<char>, SocketAddress>,
    known_to_b: Map<Seq<char>, SocketAddress>,
)
    requires
        a.address != b.address,
        a.username != b.username,
        from.username != a.username,
        from.username != b.username,
        peers.contains(a),
        peers.contains(b),
        !known_to_a.contains_key(b.username),
        !known_to_b.contains_key(a.username),
    ensures
        connect_targets(peers, known_to_a, a, from).contains(b) != connect_targets(
            peers,
            known_to_b,
            b,
            from,
        ).contains(a),
        connect_targets(peers, known_to_a, a, from).contains(b) == address_lt(
            a.address,
            b.address,
        ),
{
    lemma_connect_targets(peers, known_to_a, a, from, b);
    lemma_connect_targets(peers, known_to_b, b, from, a);
    lemma_address_order_total(a.address, b.address);
}

/// A handshake that comes in twice registers its peer at most once: after
/// the peer was admitted, the same handshake changes the registry no more,
/// on whichever socket it comes; and two handshakes add at most one record.
pub proof fn lemma_announce_twice(
    r: RegistryView,
    host: PeerView,
    rem: PeerView,
    first_client: SocketAddress,
    second_client: SocketAddress,
)
    ensures
        ({
            let once = announce_registry(r, host, rem, first_client);
            let twice = announce_registry(once, host, rem, second_client);
            &&& is_admitted(r, host, rem, first_client) ==> twice == once
            &&& twice.listeners.len() <= r.listeners.len() + 1
        }),
{
}

/// The addresses of `peers`, in order.
pub open spec fn addresses_of(peers: Seq<PeerView>) -> Seq<SocketAddress> {
    Seq::new(peers.len(), |i: int| peers[i].address)
}

/// One notice for each of `peers`: that it was learned of.
pub open spec fn discoveries(peers: Seq<PeerView>) -> Seq<ActionView> {
    Seq::new(peers.len(), |i: int| ActionView::Notify(NoticeView::PeerDiscovered(peers[i])))
}

/// What a list of peers asks for: a notice for each peer to connect to, and,
/// if there is any, the opening of the connections.
pub open spec fn discovery_of(targets: Seq<PeerView>) -> Seq<ActionView> {
    if targets.len() == 0 {
        Seq::empty()
    } else {
        discoveries(targets) + seq![
            ActionView::Notify(NoticeView::Connecting),
            ActionView::Connect(addresses_of(targets)),
        ]
    }
}

/// Deals with the list of peers `peers` that `rem` sent.
pub fn handle_server_peerlist(peers: &Vec<Peer>, server: &ServerBackend, rem: Peer) -> (actions:
    Vec<Action>)
    ensures
        views(actions@) == discovery_of(
            connect_targets(views(peers@), server.peer_store@.by_username, server.host@, rem@),
        ),
{
    let ghost all = views(peers@);
    let ghost known = server.peer_store@.by_username;
    let ghost host = server.host@;
    let mut actions = no_actions();
    let mut to_connect: Vec<SocketAddress> = Vec::new();
    let mut i: usize = 0;
    assert(all.take(0) == Seq::<PeerView>::empty());
    assert(views(actions@) =~= discoveries(Seq::<PeerView>::empty()));
    assert(to_connect@ =~= addresses_of(Seq::<PeerView>::empty()));
    while i < peers.len()
        invariant
            i <= peers.len(),
            all == views(peers@),
            known == server.peer_store@.by_username,
            host == server.host@,
            views(actions@) == discoveries(connect_targets(all.take(i as int), known, host, rem@)),
            to_connect@ == addresses_of(connect_targets(all.take(i as int), known, host, rem@)),
        decreases peers.len() - i,
    {
        assert(all.take(i + 1).drop_last() == all.take(i as int));
        assert(all.take(i + 1).last() == peers@[i as int]@);
        let peer = &peers[i];
        let ghost before = connect_targets(all.take(i as int), known, host, rem@);
        if server.peer_store.get_by_username(peer.username()).is_none() && !str_eq(
            peer.username(),
            server.host.username(),
        ) && !str_eq(peer.username(), rem.username()) && server.host.address().precedes(
            &peer.address(),
        ) {
            push_notice(&mut actions, Notice::PeerDiscovered(peer.clone()));
            to_connect.push(peer.address());
            assert(views(actions@) =~= discoveries(before.push(peer@)));
            assert(to_connect@ =~= addresses_of(before.push(peer@)));
        }
        i += 1;
    }
    assert(all.take(peers.len() as int) == all);
    if to_connect.len() > 0 {
        push_notice(&mut actions, Notice::Connecting);
        push_action(&mut actions, Action::Connect(to_connect));
    }
    actions
}

/// What holds after the message `m` came in on the socket `client`.
pub open spec fn after_server_message(
    app0: AppState,
    app1: AppState,
    server0: ServerBackend,
    server1: ServerBackend,
    m: MessageView,
    client: SocketAddress,
    actions: Seq<ActionView>,
) -> bool {
    match m {
        MessageView::Message { rem, content, .. } => {
            &&& app1 == app0
            &&& server1 == server0
            &&& actions == seq![
                ActionView::Notify(NoticeView::DirectMessage { from: rem, content }),
            ]
        },
        MessageView::Broadcast { rem, content } => {
            &&& app1 == app0
            &&& server1 == server0
            &&& actions == seq![
                ActionView::Notify(NoticeView::BroadcastMessage { from: rem, content }),
            ]
        },
        MessageView::TradeOffer { rem, offer, .. } => {
            &&& server1 == server0
            &&& after_trade_offer(app0, app1, rem, offer, actions)
        },
        MessageView::TradeConfirm { rem, response, offer, .. } => {
            &&& server1 == server0
            &&& after_trade_confirm(app0, app1, rem, response, offer, actions)
        },
        MessageView::InventoryInspection { rem, .. } => {
            &&& app1 == app0
            &&& server1 == server0
            &&& actions == inventory_answer(app0, server0, rem)
        },
        MessageView::InventoryShowcase { rem, inventory, .. } => {
            &&& app1 == app0
            &&& server1 == server0
            &&& actions == seq![
                ActionView::Notify(NoticeView::InventoryShown { owner: rem, inventory }),
            ]
        },
        MessageView::AnnounceName { rem } => {
            &&& app1 == app0
            &&& after_announce(server0, server1, rem, client, actions)
        },
        MessageView::PeerList { rem, peers, .. } => {
            &&& app1 == app0
            &&& server1 == server0
            &&& actions == discovery_of(
                connect_targets(peers, server0.peer_store@.by_username, server0.host@, rem),
            )
        },
        MessageView::RejectConnection { .. } => {
            &&& app1 == app0
            &&& server1 == server0
            &&& actions == rejection()
        },
    }
}

/// Deals with the message `msg` that came in on the socket `client_addr`.
pub fn handle_server_message(
    app_state: &mut AppState,
    msg: FNP,
    server: &mut ServerBackend,
    client_addr: SocketAddress,
) -> (actions: Vec<Action>)
    ensures
        after_server_message(
            *old(app_state),
            *final(app_state),
            *old(server),
            *final(server),
            msg@,
            client_addr,
            views(actions@),
        ),
{
    match msg {
        FNP::Message { rem, content, .. } => handle_server_direct_message(rem, content),
        FNP::Broadcast { rem, content } => handle_server_broadcast_message(rem, content),
        FNP::TradeOffer { rem, offer, .. } => handle_server_tradeoffer(app_state, rem, offer),
        FNP::TradeConfirm { rem, response, offer, .. } => handle_server_tradeconfirm(
            app_state,
            response,
            rem,
            &offer,
        ),
        FNP::InventoryInspection { rem, .. } => handle_server_inventory_request(
            app_state,
            rem,
            server,
        ),
        FNP::InventoryShowcase { rem, inventory, .. } => handle_server_inventory_showcase(
            rem,
            inventory,
        ),
        FNP::AnnounceName { rem } => handle_server_announce_name(server, rem, client_addr),
        FNP::PeerList { rem, peers, .. } => handle_server_peerlist(&peers, server, rem),
        FNP::RejectConnection { .. } => handle_rejection(),
    }
}

/// Whether `m` is for the peer that sends it.
pub open spec fn is_for_itself(m: MessageView) -> bool {
    match destination(m) {
        Some(dest) => dest.address == sender(m).address,
        None => false,
    }
}

/// Shows the user's own inventory, the commonest fish first.
pub fn handle_ui_inventory_inspection(app_state: &AppState) -> (actions: Vec<Action>)
    ensures
        views(actions@) == seq![
            ActionView::Notify(NoticeView::OwnInventory(showcase_of(*app_state))),
        ],
{
    let mut actions = no_actions();
    push_notice(&mut actions, Notice::OwnInventory(showcase(app_state)));
    actions
}

/// What holds after the user's offer to `dest` was noted: it waits for an
/// answer under the address of `dest`, in place of any older one.
pub open spec fn after_ui_trade_offer(
    app0: AppState,
    app1: AppState,
    dest: PeerView,
    offer: OfferView,
    actions: Seq<ActionView>,
) -> bool {
    &&& offer_kept(
        app0.offer_buffers.offers_made,
        app1.offer_buffers.offers_made,
        dest.address,
        offer,
    )
    &&& app1.offer_buffers.offers_received == app0.offer_buffers.offers_received
    &&& app1.basket == app0.basket
    &&& app1.fish_catalog == app0.fish_catalog
    &&& actions == seq![ActionView::Notify(NoticeView::OfferRecorded)]
}

/// Notes the offer that the user makes to `dest`.
pub fn handle_ui_tradeoffer(app_state: &mut AppState, dest: &Peer, offer: &Offer) -> (actions:
    Vec<Action>)
    ensures
        after_ui_trade_offer(*old(app_state), *final(app_state), dest@, offer@, views(actions@)),
{
    let mut actions = no_actions();
    app_state.offer_buffers.offers_made.insert(dest.address(), offer.clone());
    assert(app_state.made() =~= old(app_state).made().insert(dest@.address, offer@));
    push_notice(&mut actions, Notice::OfferRecorded);
    actions
}

/// Whether the user's answer `response` to `offer` is a yes that stands:
/// the user accepts, and the basket holds each item that is requested.
pub open spec fn is_accepted(app: AppState, response: bool, offer: OfferView) -> bool {
    response && first_missing(app.basket@, offer.requested) == offer.requested.len()
}

/// What the user is told about its answer to `offer`.
pub open spec fn confirm_notice(app: AppState, response: bool, offer: OfferView) -> NoticeView {
    if !response {
        NoticeView::OfferDeclined
    } else if is_accepted(app, response, offer) {
        NoticeView::OfferAccepted(offer)
    } else {
        NoticeView::TradeImpossible(offer.requested[first_missing(app.basket@, offer.requested)])
    }
}

/// What holds after the user answered the offer of `dest`: where the answer
/// is a yes that stands, the basket has gained what was offered and lost what
/// was requested; either way the offer waits no more, and the user is told.
pub open spec fn after_ui_trade_confirm(
    app0: AppState,
    app1: AppState,
    dest: PeerView,
    response: bool,
    offer: OfferView,
    actions: Seq<ActionView>,
) -> bool {
    &&& offer_dropped(
        app0.offer_buffers.offers_received,
        app1.offer_buffers.offers_received,
        dest.address,
    )
    &&& app1.offer_buffers.offers_made == app0.offer_buffers.offers_made
    &&& app1.fish_catalog == app0.fish_catalog
    &&& actions == seq![ActionView::Notify(confirm_notice(app0, response, offer))]
    &&& if is_accepted(app0, response, offer) {
        &&& app1.basket@ == accept(app0.basket@, offer)
        &&& app1.basket.order() == accept_order(app0.basket.order(), app0.basket@, offer)
    } else {
        app1.basket == app0.basket
    }
}

/// Carries out the user's answer `response` to the offer `offer` of `dest`.
/// Returns the answer that is sent: no, where the basket lacks what is requested.
pub fn handle_ui_tradeconfirm(
    app_state: &mut AppState,
    response: bool,
    offer: &Offer,
    dest: &Peer,
) -> (r: (bool, Vec<Action>))
    ensures
        r.0 == is_accepted(*old(app_state), response, offer@),
        after_ui_trade_confirm(
            *old(app_state),
            *final(app_state),
            dest@,
            response,
            offer@,
            views(r.1@),
        ),
{
    let mut actions = no_actions();
    let mut accepted = false;
    if response {
        let at = app_state.basket.first_missing(&offer.requested);
        if at < offer.requested.len() {
            assert(views(offer.requested@)[at as int] == offer.requested@[at as int]@);
            push_notice(&mut actions, Notice::TradeImpossible(offer.requested[at].clone()));
        } else {
            push_notice(&mut actions, Notice::OfferAccepted(offer.clone()));
            app_state.basket.gain_all(&offer.offered);
            app_state.basket.lose_all(&offer.requested);
            accepted = true;
        }
    } else {
        push_notice(&mut actions, Notice::OfferDeclined);
    }
    app_state.offer_buffers.offers_received.remove(&dest.address());
    assert(app_state.received() =~= old(app_state).received().remove(dest@.address));
    (accepted, actions)
}

/// What holds after the user's message `m` was dealt with. A message for the
/// user itself is answered on the spot, and only a request for the inventory
/// makes sense there. Every other message is sent on its way, an offer after
/// it was noted and an answer to an offer after it was carried out.
pub open spec fn after_ui_message(
    app0: AppState,
    app1: AppState,
    server: ServerBackend,
    m: MessageView,
    actions: Seq<ActionView>,
) -> bool {
    if is_for_itself(m) {
        &&& app1 == app0
        &&& actions == (if m is InventoryInspection {
            seq![ActionView::Notify(NoticeView::OwnInventory(showcase_of(app0)))]
        } else {
            seq![ActionView::Notify(NoticeView::NotForYourself)]
        })
    } else {
        match m {
            MessageView::TradeConfirm { rem, dest, response, offer } => {
                let first = seq![ActionView::Notify(confirm_notice(app0, response, offer))];
                &&& after_ui_trade_confirm(app0, app1, dest, response, offer, first)
                &&& actions == first + routed(
                    server,
                    MessageView::TradeConfirm {
                        rem,
                        dest,
                        response: is_accepted(app0, response, offer),
                        offer,
                    },
                )
            },
            MessageView::TradeOffer { dest, offer, .. } => {
                let first = seq![ActionView::Notify(NoticeView::OfferRecorded)];
                &&& after_ui_trade_offer(app0, app1, dest, offer, first)
                &&& actions == first + routed(server, m)
            },
            _ => {
                &&& app1 == app0
                &&& actions == routed(server, m)
            },
        }
    }
}

/// Deals with the message `msg` that the user sends.
pub fn handle_ui_message(app_state: &mut AppState, msg: FNP, server: &ServerBackend) -> (actions:
    Vec<Action>)
    ensures
        after_ui_message(*old(app_state), *final(app_state), *server, msg@, views(actions@)),
{
    let to_itself = match msg.dest() {
        Some(dest) => dest.address() == msg.rem().address(),
        None => false,
    };
    if to_itself {
        match msg {
            FNP::InventoryInspection { .. } => {
                return handle_ui_inventory_inspection(app_state);
            },
            _ => {
                let mut actions = no_actions();
                push_notice(&mut actions, Notice::NotForYourself);
                return actions;
            },
        }
    }
    match msg {
        FNP::TradeConfirm { rem, dest, response, offer } => {
            let (accepted, mut actions) = handle_ui_tradeconfirm(
                app_state,
                response,
                &offer,
                &dest,
            );
            let ghost first = views(actions@);
            let mut sends = server.route(FNP::TradeConfirm { rem, dest, response: accepted, offer });
            append_actions(&mut actions, &mut sends);
            assert(after_ui_trade_confirm(
                *old(app_state),
                *app_state,
                dest@,
                response,
                offer@,
                first,
            ));
            actions
        },
        FNP::TradeOffer { rem, dest, offer } => {
            let mut actions = handle_ui_tradeoffer(app_state, &dest, &offer);
            let ghost first = views(actions@);
            let mut sends = server.route(FNP::TradeOffer { rem, dest, offer });
            append_actions(&mut actions, &mut sends);
            assert(after_ui_trade_offer(*old(app_state), *app_state, dest@, offer@, first));
            actions
        },
        other => server.route(other),
    }
}

/// What holds after the event `e` was dealt with.
pub open spec fn after_event(
    app0: AppState,
    app1: AppState,
    server0: ServerBackend,
    server1: ServerBackend,
    e: EventView,
    actions: Seq<ActionView>,
) -> bool {
    match e {
        EventView::PeerDisconnected(client) => after_disconnect(
            app0,
            app1,
            server0,
            server1,
            client,
            actions,
        ),
        EventView::ServerMessage(m, client) => after_server_message(
            app0,
            app1,
            server0,
            server1,
            m,
            client,
            actions,
        ),
        EventView::UIMessage(m) => {
            &&& server1 == server0
            &&& after_ui_message(app0, app1, server0, m, actions)
        },
        EventView::Pesca => {
            &&& server1 == server0
            &&& exists|rank: u8, fish: Seq<char>|
                #![trigger list_of(app0.fish_catalog@, rank).contains(fish)]
                list_of(app0.fish_catalog@, rank).contains(fish) && after_catch(
                    app0,
                    app1,
                    fish,
                    actions,
                )
        },
    }
}

/// Deals with one event: the one place where the registry, the basket and
/// the offers that wait change.
pub fn dispatch(app_state: &mut AppState, server: &mut ServerBackend, event: Event) -> (actions:
    Vec<Action>)
    ensures
        after_event(
            *old(app_state),
            *final(app_state),
            *old(server),
            *final(server),
            event@,
            views(actions@),
        ),
{
    match event {
        Event::PeerDisconnected(client_addr) => handle_peer_disconnected(
            app_state,
            server,
            client_addr,
        ),
        Event::ServerMessage(msg, client_addr) => handle_server_message(
            app_state,
            msg,
            server,
            client_addr,
        ),
        Event::UIMessage(msg) => handle_ui_message(app_state, msg, server),
        Event::Pesca => handle_pesca(app_state),
    }
}

} // verus!
