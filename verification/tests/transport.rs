use fishnet::address::SocketAddress;
use fishnet::backend::ServerBackend;
use fishnet::event::{Action, Event, Notice};
use fishnet::handlers::{dispatch, AppState};
use fishnet::offer::{Inventory, InventoryItem};
use fishnet::peer::Peer;
use fishnet::peerstore::Delivery;
use fishnet::protocol::FNP;

fn transport_peer(name: &str, last: u8) -> Peer {
    Peer::new(name.to_string(), SocketAddress::new(10, 0, 0, last, 6000))
}

fn transport_socket(port: u16) -> SocketAddress {
    SocketAddress::new(10, 0, 0, 200, port)
}

#[test]
fn a_new_connection_gets_the_handshake() {
    let host = transport_peer("host", 1);
    let mut server = ServerBackend::new("host", host.address());
    assert_eq!(server.host(), host);
    let actions = server.handle_connection(transport_socket(1));
    assert_eq!(
        actions,
        vec![
            Action::Notify(Notice::ConnectionOpened(transport_socket(1))),
            Action::Send(Delivery {
                client: transport_socket(1),
                message: FNP::AnnounceName { rem: host.clone() },
            }),
            Action::Read(transport_socket(1)),
        ]
    );
    assert!(server.connections().contains_key(&transport_socket(1)));
    assert_eq!(server.handle_connection(transport_socket(1)), vec![]);
    assert_eq!(server.connections().len(), 1);
    server.drop_connection(&transport_socket(1));
    assert_eq!(server.connections().len(), 0);
}

#[test]
fn a_broadcast_goes_to_every_connection_and_a_message_to_one() {
    let host = transport_peer("host", 1);
    let alice = transport_peer("alice", 2);
    let mut server = ServerBackend::new("host", host.address());
    server.handle_connection(transport_socket(1));
    server.handle_connection(transport_socket(2));
    server.register_peer(alice.clone(), transport_socket(2));
    let typed = transport_peer("typed", 77);
    let broadcast = FNP::Broadcast { rem: typed.clone(), content: "hello".to_string() };
    let sent = FNP::Broadcast { rem: host.clone(), content: "hello".to_string() };
    assert_eq!(
        server.route(broadcast),
        vec![
            Action::Send(Delivery { client: transport_socket(1), message: sent.clone() }),
            Action::Send(Delivery { client: transport_socket(2), message: sent }),
        ]
    );
    let direct = FNP::Message { rem: typed.clone(), dest: alice.clone(), content: "psst".to_string() };
    assert_eq!(
        server.route(direct),
        vec![Action::Send(Delivery {
            client: transport_socket(2),
            message: FNP::Message { rem: host.clone(), dest: alice.clone(), content: "psst".to_string() },
        })]
    );
    let announce = FNP::AnnounceName { rem: typed };
    assert_eq!(server.route(announce).len(), 2);
}

#[test]
fn a_message_for_a_peer_without_a_connection_is_dropped() {
    let host = transport_peer("host", 1);
    let alice = transport_peer("alice", 2);
    let bob = transport_peer("bob", 3);
    let mut server = ServerBackend::new("host", host.address());
    server.handle_connection(transport_socket(1));
    server.register_peer(alice.clone(), transport_socket(2));
    let to_bob = FNP::InventoryInspection { rem: host.clone(), dest: bob.clone() };
    assert_eq!(server.route(to_bob), vec![Action::Notify(Notice::Undeliverable(bob.address()))]);
    let to_alice = FNP::InventoryInspection { rem: host.clone(), dest: alice.clone() };
    assert_eq!(
        server.route(to_alice),
        vec![Action::Notify(Notice::Undeliverable(alice.address()))]
    );
}

#[test]
fn messages_that_come_in_are_shown_or_answered() {
    let host = transport_peer("host", 1);
    let alice = transport_peer("alice", 2);
    let mut server = ServerBackend::new("host", host.address());
    server.handle_connection(transport_socket(2));
    server.register_peer(alice.clone(), transport_socket(2));
    let mut app = AppState::new();
    app.basket.add("peixe-bolha", 1);
    app.basket.add("atum", 2);
    app.basket.add("salmão", 3);
    app.basket.add("sardinha", 4);

    let message = FNP::Message { rem: alice.clone(), dest: host.clone(), content: "hi".to_string() };
    assert_eq!(
        dispatch(&mut app, &mut server, Event::ServerMessage(message, transport_socket(2))),
        vec![Action::Notify(Notice::DirectMessage { from: alice.clone(), content: "hi".to_string() })]
    );
    let message = FNP::Broadcast { rem: alice.clone(), content: "all".to_string() };
    assert_eq!(
        dispatch(&mut app, &mut server, Event::ServerMessage(message, transport_socket(2))),
        vec![Action::Notify(Notice::BroadcastMessage {
            from: alice.clone(),
            content: "all".to_string(),
        })]
    );
    let shown = Inventory { items: vec![InventoryItem::new("cod".to_string(), 1)] };
    let message =
        FNP::InventoryShowcase { rem: alice.clone(), dest: host.clone(), inventory: shown.clone() };
    assert_eq!(
        dispatch(&mut app, &mut server, Event::ServerMessage(message, transport_socket(2))),
        vec![Action::Notify(Notice::InventoryShown { owner: alice.clone(), inventory: shown })]
    );
    let message = FNP::InventoryInspection { rem: alice.clone(), dest: host.clone() };
    let sorted = Inventory {
        items: vec![
            InventoryItem::new("atum".to_string(), 2),
            InventoryItem::new("sardinha".to_string(), 4),
            InventoryItem::new("salmão".to_string(), 3),
            InventoryItem::new("peixe-bolha".to_string(), 1),
        ],
    };
    assert_eq!(
        dispatch(&mut app, &mut server, Event::ServerMessage(message, transport_socket(2))),
        vec![Action::Send(Delivery {
            client: transport_socket(2),
            message: FNP::InventoryShowcase {
                rem: host.clone(),
                dest: alice.clone(),
                inventory: sorted.clone(),
            },
        })]
    );
    let own = FNP::InventoryInspection { rem: host.clone(), dest: host.clone() };
    assert_eq!(
        dispatch(&mut app, &mut server, Event::UIMessage(own)),
        vec![Action::Notify(Notice::OwnInventory(sorted))]
    );
    let odd = FNP::Message { rem: host.clone(), dest: host.clone(), content: "me".to_string() };
    assert_eq!(
        dispatch(&mut app, &mut server, Event::UIMessage(odd)),
        vec![Action::Notify(Notice::NotForYourself)]
    );
}
