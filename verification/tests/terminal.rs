use fishnet::address::SocketAddress;
use fishnet::commands::{parse_command, split_whitespace, Command};
use fishnet::event::{Action, Event, Notice};
use fishnet::handlers::AppState;
use fishnet::offer::{InventoryItem, Offer};
use fishnet::peer::Peer;
use fishnet::peerstore::PeerStore;
use fishnet::protocol::FNP;
use fishnet::tui::{accept_username, eval, handle_command, username_from};

fn terminal_peer(name: &str, last: u8) -> Peer {
    Peer::new(name.to_string(), SocketAddress::new(10, 0, 0, last, 6000))
}

fn terminal_store() -> PeerStore {
    let mut store = PeerStore::new();
    store.register(terminal_peer("bob", 2), SocketAddress::new(10, 0, 0, 2, 50000));
    store.register(terminal_peer("carol", 3), SocketAddress::new(10, 0, 0, 3, 50000));
    store
}

fn terminal_offer(offered: &[(&str, u32)], requested: &[(&str, u32)]) -> Offer {
    Offer {
        offered: offered.iter().map(|(k, q)| InventoryItem::new(k.to_string(), *q)).collect(),
        requested: requested.iter().map(|(k, q)| InventoryItem::new(k.to_string(), *q)).collect(),
    }
}

#[test]
fn commands_are_read_in_any_case() {
    assert_eq!(parse_command("$PESCAR"), Some(Command::Pescar));
    assert_eq!(parse_command("$Listar"), Some(Command::List));
    assert_eq!(parse_command("$C SIM alice"), Some(Command::ConfirmTrade {
        resp: true,
        peer_str: "alice".to_string(),
    }));
    assert_eq!(parse_command("$c talvez alice"), Some(Command::ConfirmTrade {
        resp: false,
        peer_str: "alice".to_string(),
    }));
    assert_eq!(parse_command("$c"), Some(Command::ConfirmTrade {
        resp: false,
        peer_str: "".to_string(),
    }));
    assert_eq!(parse_command("\t$troca  bob   a|1\t>  b|2 "), Some(Command::Trade {
        peer_str: "bob".to_string(),
        offer_str: "a|1 > b|2".to_string(),
    }));
    assert_eq!(parse_command("$quit now"), Some(Command::Quit));
    assert_eq!(parse_command("$help"), Some(Command::Help));
    assert_eq!(parse_command(" $ "), Some(Command::Unknown("$".to_string())));
}

#[test]
fn a_command_is_made_of_its_words() {
    let words: Vec<String> = vec!["$T".to_string(), "bob".to_string(), "x".to_string(), "y".to_string()];
    assert_eq!(
        Command::from_words("$T bob x y", &words, "$t", Some("bob")),
        Command::Trade { peer_str: "bob".to_string(), offer_str: "x y".to_string() }
    );
    assert_eq!(
        Command::from_words("$T bob x y", &words, "$T", Some("bob")),
        Command::Unknown("$T bob x y".to_string())
    );
    assert_eq!(
        Command::from_words("$c s bob", &vec!["$c".to_string(), "S".to_string(), "bob".to_string()], "$c", Some("s")),
        Command::ConfirmTrade { resp: true, peer_str: "bob".to_string() }
    );
    assert_eq!(
        Command::from_words("$i", &vec!["$i".to_string()], "$inventario", None),
        Command::Inventario(None)
    );
}

#[test]
fn a_line_is_cut_into_words_at_any_whitespace() {
    let line: Vec<char> = "  one\ttwo \u{a0} three\n".chars().collect();
    let words: Vec<String> = split_whitespace(&line).iter().map(|w| w.iter().collect()).collect();
    assert_eq!(words, vec!["one", "two", "three"]);
    assert_eq!(split_whitespace(&Vec::new()).len(), 0);
    assert_eq!(split_whitespace(&vec![' ', ' ']).len(), 0);
}

#[test]
fn simple_commands_ask_for_what_they_name() {
    let app = AppState::new();
    let store = terminal_store();
    let me = terminal_peer("me", 1);
    assert_eq!(handle_command(Command::Pescar, &app, &store, &me), vec![Action::Emit(Event::Pesca)]);
    assert_eq!(
        handle_command(Command::List, &app, &store, &me),
        vec![Action::Notify(Notice::Online(vec![terminal_peer("bob", 2), terminal_peer("carol", 3)]))]
    );
    assert_eq!(
        handle_command(Command::Quit, &app, &store, &me),
        vec![Action::Notify(Notice::Farewell), Action::Exit(0)]
    );
    assert_eq!(handle_command(Command::Help, &app, &store, &me), vec![Action::Notify(Notice::Help)]);
    assert_eq!(
        handle_command(Command::Unknown("$x".to_string()), &app, &store, &me),
        vec![Action::Notify(Notice::UnknownCommand("$x".to_string()))]
    );
    assert_eq!(
        handle_command(Command::Inventario(None), &app, &store, &me),
        vec![Action::Emit(Event::UIMessage(FNP::InventoryInspection {
            rem: me.clone(),
            dest: me.clone(),
        }))]
    );
    assert_eq!(
        handle_command(Command::Inventario(Some("bob".to_string())), &app, &store, &me),
        vec![Action::Emit(Event::UIMessage(FNP::InventoryInspection {
            rem: me.clone(),
            dest: terminal_peer("bob", 2),
        }))]
    );
    assert_eq!(
        handle_command(Command::Inventario(Some("dave".to_string())), &app, &store, &me),
        vec![Action::Notify(Notice::PeerUnknown)]
    );
}

#[test]
fn an_offer_is_sent_only_if_the_fish_are_free() {
    let mut app = AppState::new();
    app.basket.add("cod", 3);
    app.offer_buffers
        .offers_made
        .insert(terminal_peer("carol", 3).address(), terminal_offer(&[("cod", 2)], &[]));
    let store = terminal_store();
    let me = terminal_peer("me", 1);
    let trade = |peer: &str, offer: &str| Command::Trade {
        peer_str: peer.to_string(),
        offer_str: offer.to_string(),
    };
    assert_eq!(
        handle_command(trade("bob", "cod|1 > salmon|1"), &app, &store, &me),
        vec![Action::Emit(Event::UIMessage(FNP::TradeOffer {
            rem: me.clone(),
            dest: terminal_peer("bob", 2),
            offer: terminal_offer(&[("cod", 1)], &[("salmon", 1)]),
        }))]
    );
    assert_eq!(
        handle_command(trade("bob", "cod|2 > salmon|1"), &app, &store, &me),
        vec![Action::Notify(Notice::NotEnoughFish { available: 1, kind: "cod".to_string() })]
    );
    assert_eq!(
        handle_command(trade("bob", "cod|1,eel|1 > "), &app, &store, &me),
        vec![Action::Notify(Notice::NotEnoughFish { available: 0, kind: "eel".to_string() })]
    );
    assert_eq!(
        handle_command(trade("", "cod|1 > salmon|1"), &app, &store, &me),
        vec![Action::Notify(Notice::TradeUsage)]
    );
    assert_eq!(
        handle_command(trade("bob", ""), &app, &store, &me),
        vec![Action::Notify(Notice::TradeUsage)]
    );
    assert_eq!(
        handle_command(trade("dave", "cod|1 > salmon|1"), &app, &store, &me),
        vec![Action::Notify(Notice::PeerUnknown)]
    );
    assert_eq!(
        handle_command(trade("bob", "cod"), &app, &store, &me),
        vec![Action::Notify(Notice::OfferMalformed)]
    );
}

#[test]
fn an_answer_is_sent_with_the_offer_that_waits() {
    let mut app = AppState::new();
    let offer = terminal_offer(&[("cod", 2)], &[("salmon", 1)]);
    app.offer_buffers.offers_received.insert(terminal_peer("bob", 2).address(), offer.clone());
    let store = terminal_store();
    let me = terminal_peer("me", 1);
    let confirm = |resp: bool, peer: &str| Command::ConfirmTrade { resp, peer_str: peer.to_string() };
    assert_eq!(
        handle_command(confirm(true, "bob"), &app, &store, &me),
        vec![Action::Emit(Event::UIMessage(FNP::TradeConfirm {
            rem: me.clone(),
            dest: terminal_peer("bob", 2),
            response: true,
            offer: offer.clone(),
        }))]
    );
    assert_eq!(
        handle_command(confirm(false, "carol"), &app, &store, &me),
        vec![Action::Notify(Notice::NoOfferFound)]
    );
    assert_eq!(
        handle_command(confirm(true, "dave"), &app, &store, &me),
        vec![Action::Notify(Notice::PeerUnknown)]
    );
}

#[test]
fn a_line_is_a_command_a_direct_message_or_a_broadcast() {
    let app = AppState::new();
    let store = terminal_store();
    let me = terminal_peer("me", 1);
    assert_eq!(eval("$p", &app, &store, &me), vec![Action::Emit(Event::Pesca)]);
    assert_eq!(
        eval("@bob how are  you?", &app, &store, &me),
        vec![Action::Emit(Event::UIMessage(FNP::Message {
            rem: me.clone(),
            dest: terminal_peer("bob", 2),
            content: "how are  you?".to_string(),
        }))]
    );
    assert_eq!(eval("@dave hi", &app, &store, &me), vec![Action::Notify(Notice::PeerUnknown)]);
    assert_eq!(eval("@bob", &app, &store, &me), vec![Action::Notify(Notice::MessageUsage)]);
    assert_eq!(
        eval(" @bob hi", &app, &store, &me),
        vec![Action::Emit(Event::UIMessage(FNP::Broadcast {
            rem: me.clone(),
            content: " @bob hi".to_string(),
        }))]
    );
    assert_eq!(
        eval("good morning", &app, &store, &me),
        vec![Action::Emit(Event::UIMessage(FNP::Broadcast {
            rem: me.clone(),
            content: "good morning".to_string(),
        }))]
    );
}

#[test]
fn a_username_begins_with_a_letter_and_has_three_characters_or_more() {
    assert_eq!(accept_username("alice"), Some("alice".to_string()));
    assert_eq!(accept_username("  bob_1-x \n"), Some("bob_1-x".to_string()));
    assert_eq!(accept_username("ab"), None);
    assert_eq!(accept_username("1abc"), None);
    assert_eq!(accept_username("al ice"), None);
    assert_eq!(accept_username("alice;"), None);
    assert_eq!(accept_username(""), None);
    assert_eq!(username_from(" x ", Some(true)), Some("x".to_string()));
    assert_eq!(username_from(" x ", Some(false)), None);
    assert_eq!(username_from(" x ", None), None);
}
