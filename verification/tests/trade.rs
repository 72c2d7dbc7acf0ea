use fishnet::address::SocketAddress;
use fishnet::backend::ServerBackend;
use fishnet::basket::FishBasket;
use fishnet::event::{Action, Event, Notice};
use fishnet::handlers::{
    dispatch, handle_server_tradeconfirm, handle_server_tradeoffer, handle_ui_message,
    handle_ui_tradeconfirm, AppState,
};
use fishnet::offer::{InventoryItem, Offer};
use fishnet::peer::Peer;
use fishnet::peerstore::Delivery;
use fishnet::protocol::FNP;
use fishnet::trade::{available_fish, first_unavailable_fish, promised_capped, OfferBuff};

fn trade_peer(name: &str, last: u8) -> Peer {
    Peer::new(name.to_string(), SocketAddress::new(127, 0, 0, last, 6000))
}

fn trade_socket(port: u16) -> SocketAddress {
    SocketAddress::new(127, 0, 0, 1, port)
}

fn trade_item(kind: &str, quantity: u32) -> InventoryItem {
    InventoryItem::new(kind.to_string(), quantity)
}

fn trade_offer(offered: &[(&str, u32)], requested: &[(&str, u32)]) -> Offer {
    Offer {
        offered: offered.iter().map(|(k, q)| trade_item(k, *q)).collect(),
        requested: requested.iter().map(|(k, q)| trade_item(k, *q)).collect(),
    }
}

fn trade_state(fish: &[(&str, u32)]) -> AppState {
    let mut app = AppState::new();
    for (kind, quantity) in fish {
        app.basket.add(kind, *quantity);
    }
    app
}

/// A transport for `host` with `other` registered and connected.
fn trade_server(host: &Peer, other: &Peer, socket: SocketAddress) -> ServerBackend {
    let mut server = ServerBackend::new(host.username(), host.address());
    server.handle_connection(socket);
    server.register_peer(other.clone(), socket);
    server
}

#[test]
fn alice_trades_two_cod_for_a_salmon_of_bob() {
    let alice = trade_peer("alice", 1);
    let bob = trade_peer("bob", 2);
    let mut at_alice = trade_state(&[("cod", 2)]);
    let mut at_bob = trade_state(&[("salmon", 3)]);
    let alice_server = trade_server(&alice, &bob, trade_socket(50002));
    let bob_server = trade_server(&bob, &alice, trade_socket(50001));
    let offer = trade_offer(&[("cod", 2)], &[("salmon", 1)]);

    // Alice offers.
    let offering = FNP::TradeOffer { rem: alice.clone(), dest: bob.clone(), offer: offer.clone() };
    let actions = handle_ui_message(&mut at_alice, offering.clone(), &alice_server);
    assert_eq!(
        actions,
        vec![
            Action::Notify(Notice::OfferRecorded),
            Action::Send(Delivery { client: trade_socket(50002), message: offering.clone() }),
        ]
    );
    assert_eq!(at_alice.offer_buffers.offers_made.get(&bob.address()), Some(&offer));

    // Bob receives the offer.
    let actions = handle_server_tradeoffer(&mut at_bob, alice.clone(), offer.clone());
    assert_eq!(
        actions,
        vec![Action::Notify(Notice::TradeOffered { from: alice.clone(), offer: offer.clone() })]
    );
    assert_eq!(at_bob.offer_buffers.offers_received.get(&alice.address()), Some(&offer));

    // Bob confirms.
    let confirming = FNP::TradeConfirm {
        rem: bob.clone(),
        dest: alice.clone(),
        response: true,
        offer: offer.clone(),
    };
    let actions = handle_ui_message(&mut at_bob, confirming.clone(), &bob_server);
    assert_eq!(
        actions,
        vec![
            Action::Notify(Notice::OfferAccepted(offer.clone())),
            Action::Send(Delivery { client: trade_socket(50001), message: confirming.clone() }),
        ]
    );
    assert_eq!(at_bob.basket.items(), vec![trade_item("salmon", 2), trade_item("cod", 2)]);
    assert!(at_bob.offer_buffers.offers_received.is_empty());

    // Alice receives the confirmation.
    let actions = handle_server_tradeconfirm(&mut at_alice, true, bob.clone(), &offer);
    assert_eq!(
        actions,
        vec![Action::Notify(Notice::TradeAccepted { by: bob.clone(), offer: offer.clone() })]
    );
    assert_eq!(at_alice.basket.items(), vec![trade_item("salmon", 1)]);
    assert!(at_alice.offer_buffers.offers_made.is_empty());
}

#[test]
fn a_confirmed_trade_keeps_the_number_of_fish_of_each_kind() {
    let mut offerer = trade_state(&[("cod", 5), ("tuna", 1)]);
    let mut responder = trade_state(&[("salmon", 3), ("cod", 1)]);
    let offer = trade_offer(&[("cod", 2), ("tuna", 1), ("cod", 1)], &[("salmon", 2), ("cod", 1)]);
    let before: Vec<u32> = ["cod", "tuna", "salmon"]
        .iter()
        .map(|k| offerer.basket.quantity(k) + responder.basket.quantity(k))
        .collect();
    let (accepted, _) =
        handle_ui_tradeconfirm(&mut responder, true, &offer, &trade_peer("offerer", 1));
    assert!(accepted);
    handle_server_tradeconfirm(&mut offerer, true, trade_peer("responder", 2), &offer);
    let after: Vec<u32> = ["cod", "tuna", "salmon"]
        .iter()
        .map(|k| offerer.basket.quantity(k) + responder.basket.quantity(k))
        .collect();
    assert_eq!(before, after);
    assert_eq!(offerer.basket.quantity("cod"), 3);
    assert_eq!(offerer.basket.quantity("tuna"), 0);
    assert_eq!(offerer.basket.quantity("salmon"), 2);
    assert_eq!(responder.basket.quantity("cod"), 3);
    assert_eq!(responder.basket.quantity("tuna"), 1);
    assert_eq!(responder.basket.quantity("salmon"), 1);
}

#[test]
fn an_offer_that_cannot_be_met_is_answered_with_no() {
    let alice = trade_peer("alice", 1);
    let bob = trade_peer("bob", 2);
    let mut at_bob = trade_state(&[("salmon", 1)]);
    let bob_server = trade_server(&bob, &alice, trade_socket(50001));
    let offer = trade_offer(&[("cod", 2)], &[("salmon", 1), ("salmon", 2)]);
    handle_server_tradeoffer(&mut at_bob, alice.clone(), offer.clone());
    let confirming = FNP::TradeConfirm {
        rem: bob.clone(),
        dest: alice.clone(),
        response: true,
        offer: offer.clone(),
    };
    let actions = handle_ui_message(&mut at_bob, confirming, &bob_server);
    assert_eq!(
        actions,
        vec![
            Action::Notify(Notice::TradeImpossible(trade_item("salmon", 2))),
            Action::Send(Delivery {
                client: trade_socket(50001),
                message: FNP::TradeConfirm {
                    rem: bob.clone(),
                    dest: alice.clone(),
                    response: false,
                    offer: offer.clone(),
                },
            }),
        ]
    );
    assert_eq!(at_bob.basket.items(), vec![trade_item("salmon", 1)]);
    assert!(at_bob.offer_buffers.offers_received.is_empty());
}

#[test]
fn a_refusal_moves_no_fish_and_drops_the_offer() {
    let alice = trade_peer("alice", 1);
    let bob = trade_peer("bob", 2);
    let mut at_alice = trade_state(&[("cod", 2)]);
    let mut at_bob = trade_state(&[("salmon", 3)]);
    let offer = trade_offer(&[("cod", 2)], &[("salmon", 1)]);
    at_alice.offer_buffers.offers_made.insert(bob.address(), offer.clone());
    handle_server_tradeoffer(&mut at_bob, alice.clone(), offer.clone());
    let (accepted, actions) = handle_ui_tradeconfirm(&mut at_bob, false, &offer, &alice);
    assert!(!accepted);
    assert_eq!(actions, vec![Action::Notify(Notice::OfferDeclined)]);
    assert_eq!(at_bob.basket.items(), vec![trade_item("salmon", 3)]);
    assert!(at_bob.offer_buffers.offers_received.is_empty());
    let actions = handle_server_tradeconfirm(&mut at_alice, false, bob.clone(), &offer);
    assert_eq!(actions, vec![Action::Notify(Notice::TradeRefused { by: bob })]);
    assert_eq!(at_alice.basket.items(), vec![trade_item("cod", 2)]);
    assert!(at_alice.offer_buffers.offers_made.is_empty());
}

#[test]
fn a_new_offer_takes_the_place_of_the_old_one() {
    let alice = trade_peer("alice", 1);
    let mut at_bob = trade_state(&[]);
    handle_server_tradeoffer(&mut at_bob, alice.clone(), trade_offer(&[("a", 1)], &[("b", 1)]));
    handle_server_tradeoffer(&mut at_bob, alice.clone(), trade_offer(&[("c", 3)], &[]));
    assert_eq!(at_bob.offer_buffers.offers_received.len(), 1);
    assert_eq!(
        at_bob.offer_buffers.offers_received.get(&alice.address()),
        Some(&trade_offer(&[("c", 3)], &[]))
    );
}

#[test]
fn the_offers_of_a_peer_that_leaves_are_dropped() {
    let alice = trade_peer("alice", 1);
    let bob = trade_peer("bob", 2);
    let carol = trade_peer("carol", 3);
    let mut at_alice = trade_state(&[("cod", 2)]);
    let mut server = trade_server(&alice, &bob, trade_socket(50002));
    server.handle_connection(trade_socket(50003));
    server.register_peer(carol.clone(), trade_socket(50003));
    let offer = trade_offer(&[("cod", 1)], &[("salmon", 1)]);
    at_alice.offer_buffers.offers_made.insert(bob.address(), offer.clone());
    at_alice.offer_buffers.offers_made.insert(carol.address(), offer.clone());
    at_alice.offer_buffers.offers_received.insert(bob.address(), offer.clone());

    let actions =
        dispatch(&mut at_alice, &mut server, Event::PeerDisconnected(trade_socket(50002)));
    assert_eq!(
        actions,
        vec![
            Action::Notify(Notice::PeerLeft(bob.clone())),
            Action::Notify(Notice::OfferMadeCancelled(bob.clone())),
            Action::Notify(Notice::OfferReceivedCancelled(bob.clone())),
        ]
    );
    assert!(!at_alice.offer_buffers.offers_made.contains_key(&bob.address()));
    assert!(!at_alice.offer_buffers.offers_received.contains_key(&bob.address()));
    assert!(at_alice.offer_buffers.offers_made.contains_key(&carol.address()));
    assert_eq!(server.peer_store().get_by_username("bob"), None);
    assert!(!server.connections().contains_key(&trade_socket(50002)));
    assert!(server.connections().contains_key(&trade_socket(50003)));

    let actions =
        dispatch(&mut at_alice, &mut server, Event::PeerDisconnected(trade_socket(50009)));
    assert_eq!(actions, vec![Action::Notify(Notice::UnknownPeerLeft(trade_socket(50009)))]);
    assert!(at_alice.offer_buffers.offers_made.contains_key(&carol.address()));
}

#[test]
fn what_is_promised_already_is_not_free_to_offer() {
    let mut basket = FishBasket::new();
    basket.add("cod", 5);
    let mut offers = OfferBuff::new();
    offers.offers_made.insert(
        trade_peer("bob", 2).address(),
        trade_offer(&[("cod", 2), ("tuna", 1), ("cod", 1)], &[("cod", 100)]),
    );
    offers.offers_made.insert(trade_peer("carol", 3).address(), trade_offer(&[("cod", 1)], &[]));
    assert_eq!(promised_capped(&offers.offers_made, "cod"), 4);
    assert_eq!(promised_capped(&offers.offers_made, "tuna"), 1);
    assert_eq!(promised_capped(&offers.offers_made, "eel"), 0);
    assert_eq!(available_fish(&basket, &offers.offers_made, "cod"), 1);
    assert_eq!(available_fish(&basket, &offers.offers_made, "tuna"), 0);
    let wanted = vec![trade_item("cod", 1), trade_item("tuna", 0), trade_item("cod", 2)];
    assert_eq!(first_unavailable_fish(&basket, &offers.offers_made, &wanted), (2, 1));
    let modest = vec![trade_item("cod", 1)];
    assert_eq!(first_unavailable_fish(&basket, &offers.offers_made, &modest).0, 1);
}

#[test]
fn promises_beyond_any_basket_are_counted_up_to_the_cap() {
    let mut offers = OfferBuff::new();
    offers.offers_made.insert(
        trade_peer("bob", 2).address(),
        trade_offer(&[("cod", 4294967295), ("cod", 4294967295)], &[]),
    );
    offers.offers_made.insert(
        trade_peer("carol", 3).address(),
        trade_offer(&[("cod", 4294967295)], &[]),
    );
    assert_eq!(promised_capped(&offers.offers_made, "cod"), 4294967296);
    let mut basket = FishBasket::new();
    basket.add("cod", 4294967295);
    assert_eq!(available_fish(&basket, &offers.offers_made, "cod"), 0);
}

#[test]
fn a_basket_never_counts_below_none_or_above_the_most() {
    let mut basket = FishBasket::new();
    assert_eq!(basket.quantity("cod"), 0);
    basket.add("cod", 3);
    basket.add("tuna", 1);
    basket.add("cod", 4);
    assert_eq!(basket.quantity("cod"), 7);
    basket.take("cod", 2);
    assert_eq!(basket.quantity("cod"), 5);
    basket.take("eel", 2);
    assert_eq!(basket.items(), vec![trade_item("cod", 5), trade_item("tuna", 1)]);
    basket.take("cod", 9);
    assert_eq!(basket.quantity("cod"), 0);
    assert_eq!(basket.items(), vec![trade_item("tuna", 1)]);
    basket.add("tuna", 4294967295);
    assert_eq!(basket.quantity("tuna"), 4294967295);
    basket.add("eel", 0);
    assert_eq!(basket.items(), vec![trade_item("tuna", 4294967295), trade_item("eel", 0)]);
    assert_eq!(basket.map().len(), 2);
    basket.map_mut().insert("shark".to_string(), 1);
    assert_eq!(basket.quantity("shark"), 1);
    assert_eq!(FishBasket::default().items(), vec![]);
}
