//! What a line that the user typed asks for: a command is carried out, a line
//! that begins with `@` is a message for one peer, and any other line is a
//! message for everybody.

use crate::commands::{command_of, parse_command, Command, CommandView};
use crate::event::{
    no_actions, push_action, push_notice, Action, ActionView, Event, EventView, Notice, NoticeView,
};
use crate::handlers::AppState;
use crate::offer::{parse_offer, Offer};
use crate::pattern::{is_match, regex_is_match};
use crate::peer::{Peer, PeerView};
use crate::peerstore::{peers_of, PeerStore, RegistryView};
use crate::protocol::{MessageView, FNP};
use crate::text::{
    chars_of, find_char, index_of, lemma_index_of, slice_of, string_of, trim, trimmed, views,
};
use crate::trade::{available, first_unavailable, first_unavailable_fish};
use vstd::prelude::*;

verus! {

/// The pattern of a username: a letter, then at least two letters, digits,
/// hyphens or underscores.
pub const USERNAME_PATTERN: &'static str = r"^[A-Za-z][A-Za-z0-9_-]{2,}$";

/// The username in `input`, given what the pattern of usernames says of it.
pub open spec fn username_of(input: Seq<char>, matched: Option<bool>) -> Option<Seq<char>> {
    if matched == Some(true) {
        Some(trim(input))
    } else {
        None
    }
}

/// The username in `input`, without the whitespace around it, where `matched` says that it is one.
pub fn username_from(input: &str, matched: Option<bool>) -> (r: Option<String>)
    ensures
        r.deep_view() == username_of(input@, matched),
{
    match matched {
        Some(true) => Some(string_of(&trimmed(&chars_of(input)))),
        _ => None,
    }
}

/// The username that the user typed, if it is one: `input` without the
/// whitespace around it, where that matches the pattern of usernames.
pub fn accept_username(input: &str) -> (r: Option<String>)
    ensures
        r.deep_view() == username_of(input@, regex_is_match(USERNAME_PATTERN@, trim(input@))),
{
    let name = string_of(&trimmed(&chars_of(input)));
    username_from(input, is_match(USERNAME_PATTERN, name.as_str()))
}

/// One action: this event, for the dispatcher.
pub open spec fn emit(e: EventView) -> Seq<ActionView> {
    seq![ActionView::Emit(e)]
}

/// One action: this notice, for the user.
pub open spec fn notify(n: NoticeView) -> Seq<ActionView> {
    seq![ActionView::Notify(n)]
}

/// What a request to see an inventory asks for: the request is sent to the
/// peer that was named, or to the user itself where none was named.
pub open spec fn inventory_actions(name: Option<Seq<char>>, r: RegistryView, me: PeerView) -> Seq<
    ActionView,
> {
    match name {
        None => emit(EventView::UIMessage(MessageView::InventoryInspection { rem: me, dest: me })),
        Some(name) => if r.by_username.contains_key(name) {
            emit(
                EventView::UIMessage(
                    MessageView::InventoryInspection {
                        rem: me,
                        dest: r.by_listener[r.by_username[name]].peer,
                    },
                ),
            )
        } else {
            notify(NoticeView::PeerUnknown)
        },
    }
}

/// What an offer that the user typed asks for. The offer is sent where the
/// peer is known, the offer well written, and enough of each item offered is
/// free: in the basket and not given away by the offers that wait already.
pub open spec fn trade_actions(
    peer_str: Seq<char>,
    offer_str: Seq<char>,
    app: AppState,
    r: RegistryView,
    me: PeerView,
) -> Seq<ActionView> {
    if peer_str.len() == 0 || offer_str.len() == 0 {
        notify(NoticeView::TradeUsage)
    } else if !r.by_username.contains_key(peer_str) {
        notify(NoticeView::PeerUnknown)
    } else {
        match parse_offer(offer_str) {
            Err(_) => notify(NoticeView::OfferMalformed),
            Ok(offer) => {
                let offers = app.offer_buffers.offers_made.values();
                let at = first_unavailable(app.basket@, offers, offer.offered);
                if at < offer.offered.len() {
                    notify(
                        NoticeView::NotEnoughFish {
                            available: available(
                                app.basket@,
                                offers,
                                offer.offered[at].fish_type,
                            ) as u32,
                            kind: offer.offered[at].fish_type,
                        },
                    )
                } else {
                    emit(
                        EventView::UIMessage(
                            MessageView::TradeOffer {
                                rem: me,
                                dest: r.by_listener[r.by_username[peer_str]].peer,
                                offer,
                            },
                        ),
                    )
                }
            },
        }
    }
}

/// What the user's answer to an offer asks for: the answer is sent, with the
/// offer that waits from the peer that was named.
pub open spec fn confirm_actions(
    resp: bool,
    peer_str: Seq<char>,
    app: AppState,
    r: RegistryView,
    me: PeerView,
) -> Seq<ActionView> {
    if !r.by_username.contains_key(peer_str) {
        notify(NoticeView::PeerUnknown)
    } else {
        let peer = r.by_listener[r.by_username[peer_str]].peer;
        if app.received().contains_key(peer.address) {
            emit(
                EventView::UIMessage(
                    MessageView::TradeConfirm {
                        rem: me,
                        dest: peer,
                        response: resp,
                        offer: app.received()[peer.address],
                    },
                ),
            )
        } else {
            notify(NoticeView::NoOfferFound)
        }
    }
}

/// What the command `cmd` asks for.
pub open spec fn command_actions(cmd: CommandView, app: AppState, r: RegistryView, me: PeerView) -> Seq<
    ActionView,
> {
    match cmd {
        CommandView::Pescar => emit(EventView::Pesca),
        CommandView::List => notify(NoticeView::Online(peers_of(r))),
        CommandView::Inventario(name) => inventory_actions(name, r, me),
        CommandView::Trade { peer_str, offer_str } => trade_actions(peer_str, offer_str, app, r, me),
        CommandView::ConfirmTrade { resp, peer_str } => confirm_actions(resp, peer_str, app, r, me),
        CommandView::Quit => seq![ActionView::Notify(NoticeView::Farewell), ActionView::Exit(0)],
        CommandView::Help => notify(NoticeView::Help),
        CommandView::Unknown(line) => notify(NoticeView::UnknownCommand(line)),
    }
}

fn emitted(event: Event) -> (actions: Vec<Action>)
    ensures
        views(actions@) == emit(event@),
{
    let mut actions = no_actions();
    push_action(&mut actions, Action::Emit(event));
    actions
}

fn notified(notice: Notice) -> (actions: Vec<Action>)
    ensures
        views(actions@) == notify(notice@),
{
    let mut actions = no_actions();
    push_notice(&mut actions, notice);
    actions
}

fn inventory_command(name: Option<String>, peer_store: &PeerStore, my_peer: &Peer) -> (actions: Vec<
    Action,
>)
    ensures
        views(actions@) == inventory_actions(name.deep_view(), peer_store@, my_peer@),
{
    match name {
        None => emitted(
            Event::UIMessage(
                FNP::InventoryInspection { rem: my_peer.clone(), dest: my_peer.clone() },
            ),
        ),
        Some(name) => match peer_store.get_by_username(name.as_str()) {
            Some(info) => emitted(
                Event::UIMessage(
                    FNP::InventoryInspection { rem: my_peer.clone(), dest: info.peer },
                ),
            ),
            None => notified(Notice::PeerUnknown),
        },
    }
}

fn trade_command(
    peer_str: String,
    offer_str: String,
    app_state: &AppState,
    peer_store: &PeerStore,
    my_peer: &Peer,
) -> (actions: Vec<Action>)
    ensures
        views(actions@) == trade_actions(peer_str@, offer_str@, *app_state, peer_store@, my_peer@),
{
    if peer_str.as_str().unicode_len() == 0 || offer_str.as_str().unicode_len() == 0 {
        return notified(Notice::TradeUsage);
    }
    let info = match peer_store.get_by_username(peer_str.as_str()) {
        Some(info) => info,
        None => {
            return notified(Notice::PeerUnknown);
        },
    };
    let offer = match Offer::parse(offer_str.as_str()) {
        Ok(offer) => offer,
        Err(_) => {
            return notified(Notice::OfferMalformed);
        },
    };
    let (at, free) = first_unavailable_fish(
        &app_state.basket,
        &app_state.offer_buffers.offers_made,
        &offer.offered,
    );
    if at < offer.offered.len() {
        assert(views(offer.offered@)[at as int] == offer.offered@[at as int]@);
        notified(
            Notice::NotEnoughFish { available: free, kind: offer.offered[at].fish_type.clone() },
        )
    } else {
        emitted(Event::UIMessage(FNP::TradeOffer { rem: my_peer.clone(), dest: info.peer, offer }))
    }
}

fn confirm_command(
    resp: bool,
    peer_str: String,
    app_state: &AppState,
    peer_store: &PeerStore,
    my_peer: &Peer,
) -> (actions: Vec<Action>)
    ensures
        views(actions@) == confirm_actions(resp, peer_str@, *app_state, peer_store@, my_peer@),
{
    let info = match peer_store.get_by_username(peer_str.as_str()) {
        Some(info) => info,
        None => {
            return notified(Notice::PeerUnknown);
        },
    };
    match app_state.offer_buffers.offers_received.get(&info.peer.address()) {
        Some(offer) => emitted(
            Event::UIMessage(
                FNP::TradeConfirm {
                    rem: my_peer.clone(),
                    dest: info.peer,
                    response: resp,
                    offer: offer.clone(),
                },
            ),
        ),
        None => notified(Notice::NoOfferFound),
    }
}

/// Says what the command `cmd` asks for.
pub fn handle_command(cmd: Command, app_state: &AppState, peer_store: &PeerStore, my_peer: &Peer) -> (actions:
    Vec<Action>)
    ensures
        views(actions@) == command_actions(cmd@, *app_state, peer_store@, my_peer@),
{
    match cmd {
        Command::Pescar => emitted(Event::Pesca),
        Command::List => notified(Notice::Online(peer_store.all_pears())),
        Command::Inventario(name) => inventory_command(name, peer_store, my_peer),
        Command::Trade { peer_str, offer_str } => trade_command(
            peer_str,
            offer_str,
            app_state,
            peer_store,
            my_peer,
        ),
        Command::ConfirmTrade { resp, peer_str } => confirm_command(
            resp,
            peer_str,
            app_state,
            peer_store,
            my_peer,
        ),
        Command::Quit => {
            let mut actions = no_actions();
            push_notice(&mut actions, Notice::Farewell);
            push_action(&mut actions, Action::Exit(0));
            actions
        },
        Command::Help => notified(Notice::Help),
        Command::Unknown(line) => notified(Notice::UnknownCommand(line)),
    }
}

/// What a line that is no command asks for. A line that begins with `@` is a
/// message for the peer named between the `@` and the first space, with what
/// follows that space as its text; any other line is a message for everybody.
pub open spec fn message_actions(line: Seq<char>, r: RegistryView, me: PeerView) -> Seq<
    ActionView,
> {
    if line.len() > 0 && line[0] == '@' {
        let space = index_of(line, ' ');
        if space >= line.len() {
            notify(NoticeView::MessageUsage)
        } else {
            let name = line.subrange(1, space);
            if r.by_username.contains_key(name) {
                emit(
                    EventView::UIMessage(
                        MessageView::Message {
                            rem: me,
                            dest: r.by_listener[r.by_username[name]].peer,
                            content: line.skip(space + 1),
                        },
                    ),
                )
            } else {
                notify(NoticeView::PeerUnknown)
            }
        }
    } else {
        emit(EventView::UIMessage(MessageView::Broadcast { rem: me, content: line }))
    }
}

/// What the line `line` asks for.
pub open spec fn line_actions(line: Seq<char>, app: AppState, r: RegistryView, me: PeerView) -> Seq<
    ActionView,
> {
    match command_of(line) {
        Some(cmd) => command_actions(cmd, app, r, me),
        None => message_actions(line, r, me),
    }
}

/// Says what a line that is no command asks for.
pub fn handle_message(line: &str, peer_store: &PeerStore, my_peer: &Peer) -> (actions: Vec<Action>)
    ensures
        views(actions@) == message_actions(line@, peer_store@, my_peer@),
{
    let v = chars_of(line);
    if v.len() > 0 && v[0] == '@' {
        assert(v@.skip(0) == v@);
        let space = find_char(&v, 0, ' ');
        if space >= v.len() {
            return notified(Notice::MessageUsage);
        }
        proof {
            lemma_index_of(v@, ' ');
        }
        let name = string_of(&slice_of(&v, 1, space));
        match peer_store.get_by_username(name.as_str()) {
            Some(info) => {
                let content = string_of(&slice_of(&v, space + 1, v.len()));
                assert(v@.subrange(space + 1, v.len() as int) == v@.skip(space + 1));
                emitted(
                    Event::UIMessage(
                        FNP::Message { rem: my_peer.clone(), dest: info.peer, content },
                    ),
                )
            },
            None => notified(Notice::PeerUnknown),
        }
    } else {
        emitted(Event::UIMessage(FNP::Broadcast { rem: my_peer.clone(), content: line.to_owned() }))
    }
}

/// Says what the line `line` that the user typed asks for.
pub fn eval(line: &str, app_state: &AppState, peer_store: &PeerStore, my_peer: &Peer) -> (actions:
    Vec<Action>)
    ensures
        views(actions@) == line_actions(line@, *app_state, peer_store@, my_peer@),
{
    match parse_command(line) {
        Some(cmd) => handle_command(cmd, app_state, peer_store, my_peer),
        None => handle_message(line, peer_store, my_peer),
    }
}

} // verus!
