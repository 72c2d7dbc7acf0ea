//! What happens to a peer and what it does about it: the events that the
//! dispatcher takes, the actions that it asks for, and the notices that it has
//! for the user.
use crate::address::SocketAddress;
use crate::gameplay::FishStyle;
use crate::offer::{Inventory, InventoryItem, ItemView, Offer, OfferView};
use crate::peer::{Peer, PeerView};
use crate::peerstore::{Delivery, DeliveryView};
use crate::protocol::{MessageView, FNP};
use crate::text::views;
use vstd::prelude::*;

verus! {

/// What the dispatcher deals with.
#[derive(Debug, PartialEq)]
pub enum Event {
    /// The connection of this client socket has ended.
    PeerDisconnected(SocketAddress),
    /// A message came in on the connection of this client socket.
    ServerMessage(FNP, SocketAddress),
    /// The user has a message to send.
    UIMessage(FNP),
    /// The user casts the line.
    Pesca,
}

/// An event as the contracts speak of it.
pub enum EventView {
    PeerDisconnected(SocketAddress),
    ServerMessage(MessageView, SocketAddress),
    UIMessage(MessageView),
    Pesca,
}

impl View for Event {
    type V = EventView;

    open spec fn view(&self) -> EventView {
        match self {
            Event::PeerDisconnected(a) => EventView::PeerDisconnected(*a),
            Event::ServerMessage(m, a) => EventView::ServerMessage(m@, *a),
            Event::UIMessage(m) => EventView::UIMessage(m@),
            Event::Pesca => EventView::Pesca,
        }
    }
}

/// Something to tell the user.
#[derive(Debug, PartialEq)]
pub enum Notice {
    /// A connection was opened with this socket.
    ConnectionOpened(SocketAddress),
    /// A peer joined the network.
    PeerJoined(Peer),
    /// A peer left the network.
    PeerLeft(Peer),
    /// A socket that belonged to no known peer was closed.
    UnknownPeerLeft(SocketAddress),
    /// The offer made to this peer is void, since the peer left.
    OfferMadeCancelled(Peer),
    /// The offer received from this peer is void, since the peer left.
    OfferReceivedCancelled(Peer),
    /// A peer asked for a username that is taken, and was turned away.
    NameTaken(Peer),
    /// This peer's own username is taken on the network.
    Rejected,
    /// A peer was learned of and will be connected to.
    PeerDiscovered(Peer),
    /// Connections to the peers just learned of are being opened.
    Connecting,
    /// No connection leads to the peer that listens on this address.
    Undeliverable(SocketAddress),
    /// Text for this user alone.
    DirectMessage { from: Peer, content: String },
    /// Text for everybody.
    BroadcastMessage { from: Peer, content: String },
    /// A peer proposes a trade.
    TradeOffered { from: Peer, offer: Offer },
    /// A peer accepted the offer made to it, and the fish have moved.
    TradeAccepted { by: Peer, offer: Offer },
    /// A peer refused the offer made to it.
    TradeRefused { by: Peer },
    /// The inventory of a peer.
    InventoryShown { owner: Peer, inventory: Inventory },
    /// The user's own inventory, the commonest fish first.
    OwnInventory(Inventory),
    /// The command makes no sense with oneself as the other peer.
    NotForYourself,
    /// The offer was noted and is on its way.
    OfferRecorded,
    /// The offer was accepted, and the fish have moved.
    OfferAccepted(Offer),
    /// The offer was declined.
    OfferDeclined,
    /// The offer cannot be accepted: the basket lacks this item.
    TradeImpossible(InventoryItem),
    /// The peers that are online.
    Online(Vec<Peer>),
    /// No peer has the username that was given.
    PeerUnknown,
    /// How an offer is written.
    TradeUsage,
    /// The offer that was typed is no offer.
    OfferMalformed,
    /// Too few fish of this kind are free to offer.
    NotEnoughFish { available: u32, kind: String },
    /// No offer from that peer waits for an answer.
    NoOfferFound,
    /// The program ends at the user's wish.
    Farewell,
    /// The list of commands.
    Help,
    /// The command that was typed does not exist.
    UnknownCommand(String),
    /// How a direct message is written.
    MessageUsage,
    /// A fish was caught.
    Caught { fish: String, style: FishStyle },
}

/// A notice as the contracts speak of it.
pub enum NoticeView {
    ConnectionOpened(SocketAddress),
    PeerJoined(PeerView),
    PeerLeft(PeerView),
    UnknownPeerLeft(SocketAddress),
    OfferMadeCancelled(PeerView),
    OfferReceivedCancelled(PeerView),
    NameTaken(PeerView),
    Rejected,
    PeerDiscovered(PeerView),
    Connecting,
    Undeliverable(SocketAddress),
    DirectMessage { from: PeerView, content: Seq<char> },
    BroadcastMessage { from: PeerView, content: Seq<char> },
    TradeOffered { from: PeerView, offer: OfferView },
    TradeAccepted { by: PeerView, offer: OfferView },
    TradeRefused { by: PeerView },
    InventoryShown { owner: PeerView, inventory: Seq<ItemView> },
    OwnInventory(Seq<ItemView>),
    NotForYourself,
    OfferRecorded,
    OfferAccepted(OfferView),
    OfferDeclined,
    TradeImpossible(ItemView),
    Online(Seq<PeerView>),
    PeerUnknown,
    TradeUsage,
    OfferMalformed,
    NotEnoughFish { available: u32, kind: Seq<char> },
    NoOfferFound,
    Farewell,
    Help,
    UnknownCommand(Seq<char>),
    MessageUsage,
    Caught { fish: Seq<char>, style: FishStyle },
}

impl View for Notice {
    type V = NoticeView;

    open spec fn view(&self) -> NoticeView {
        match self {
            Notice::ConnectionOpened(a) => NoticeView::ConnectionOpened(*a),
            Notice::PeerJoined(p) => NoticeView::PeerJoined(p@),
            Notice::PeerLeft(p) => NoticeView::PeerLeft(p@),
            Notice::UnknownPeerLeft(a) => NoticeView::UnknownPeerLeft(*a),
            Notice::OfferMadeCancelled(p) => NoticeView::OfferMadeCancelled(p@),
            Notice::OfferReceivedCancelled(p) => NoticeView::OfferReceivedCancelled(p@),
            Notice::NameTaken(p) => NoticeView::NameTaken(p@),
            Notice::Rejected => NoticeView::Rejected,
            Notice::PeerDiscovered(p) => NoticeView::PeerDiscovered(p@),
            Notice::Connecting => NoticeView::Connecting,
            Notice::Undeliverable(a) => NoticeView::Undeliverable(*a),
            Notice::DirectMessage { from, content } => NoticeView::DirectMessage {
                from: from@,
                content: content@,
            },
            Notice::BroadcastMessage { from, content } => NoticeView::BroadcastMessage {
                from: from@,
                content: content@,
            },
            Notice::TradeOffered { from, offer } => NoticeView::TradeOffered {
                from: from@,
                offer: offer@,
            },
            Notice::TradeAccepted { by, offer } => NoticeView::TradeAccepted {
                by: by@,
                offer: offer@,
            },
            Notice::TradeRefused { by } => NoticeView::TradeRefused { by: by@ },
            Notice::InventoryShown { owner, inventory } => NoticeView::InventoryShown {
                owner: owner@,
                inventory: inventory@,
            },
            Notice::OwnInventory(inventory) => NoticeView::OwnInventory(inventory@),
            Notice::NotForYourself => NoticeView::NotForYourself,
            Notice::OfferRecorded => NoticeView::OfferRecorded,
            Notice::OfferAccepted(offer) => NoticeView::OfferAccepted(offer@),
            Notice::OfferDeclined => NoticeView::OfferDeclined,
            Notice::TradeImpossible(item) => NoticeView::TradeImpossible(item@),
            Notice::Online(peers) => NoticeView::Online(views(peers@)),
            Notice::PeerUnknown => NoticeView::PeerUnknown,
            Notice::TradeUsage => NoticeView::TradeUsage,
            Notice::OfferMalformed => NoticeView::OfferMalformed,
            Notice::NotEnoughFish { available, kind } => NoticeView::NotEnoughFish {
                available: *available,
                kind: kind@,
            },
            Notice::NoOfferFound => NoticeView::NoOfferFound,
            Notice::Farewell => NoticeView::Farewell,
            Notice::Help => NoticeView::Help,
            Notice::UnknownCommand(c) => NoticeView::UnknownCommand(c@),
            Notice::MessageUsage => NoticeView::MessageUsage,
            Notice::Caught { fish, style } => NoticeView::Caught { fish: fish@, style: *style },
        }
    }
}

/// Something for the program around the library to do.
#[derive(Debug, PartialEq)]
pub enum Action {
    /// Write the message on the connection of the client socket.
    Send(Delivery),
    /// Open a connection to each of these listening addresses, one after the other.
    Connect(Vec<SocketAddress>),
    /// Start to read the lines that come in on the connection of this client socket.
    Read(SocketAddress),
    /// Drop the connection of this client socket.
    Close(SocketAddress),
    /// Tell the user.
    Notify(Notice),
    /// Hand this event to the dispatcher.
    Emit(Event),
    /// End the program with this status.
    Exit(u8),
}

/// An action as the contracts speak of it.
pub enum ActionView {
    Send(DeliveryView),
    Connect(Seq<SocketAddress>),
    Read(SocketAddress),
    Close(SocketAddress),
    Notify(NoticeView),
    Emit(EventView),
    Exit(u8),
}

impl View for Action {
    type V = ActionView;

    open spec fn view(&self) -> ActionView {
        match self {
            Action::Send(d) => ActionView::Send(d@),
            Action::Connect(a) => ActionView::Connect(a@),
            Action::Read(a) => ActionView::Read(*a),
            Action::Close(a) => ActionView::Close(*a),
            Action::Notify(n) => ActionView::Notify(n@),
            Action::Emit(e) => ActionView::Emit(e@),
            Action::Exit(s) => ActionView::Exit(*s),
        }
    }
}

/// Appends `action` to `actions`.
pub fn push_action(actions: &mut Vec<Action>, action: Action)
    ensures
        views(final(actions)@) == views(old(actions)@).push(action@),
{
    actions.push(action);
    assert(views(actions@) =~= views(old(actions)@).push(action@));
}

/// Appends a notice for the user to `actions`.
pub fn push_notice(actions: &mut Vec<Action>, notice: Notice)
    ensures
        views(final(actions)@) == views(old(actions)@).push(ActionView::Notify(notice@)),
{
    push_action(actions, Action::Notify(notice));
}

/// No actions.
pub fn no_actions() -> (actions: Vec<Action>)
    ensures
        views(actions@) == Seq::<ActionView>::empty(),
{
    let actions: Vec<Action> = Vec::new();
    assert(views(actions@) =~= Seq::<ActionView>::empty());
    actions
}

} // verus!
