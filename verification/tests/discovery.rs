use fishnet::address::SocketAddress;
use fishnet::backend::ServerBackend;
use fishnet::event::{Action, Event, Notice};
use fishnet::handlers::{
    dispatch, handle_rejection, handle_server_announce_name, handle_server_peerlist, AppState,
};
use fishnet::peer::Peer;
use fishnet::peerstore::Delivery;
use fishnet::protocol::FNP;

fn discovery_peer(name: &str, last: u8) -> Peer {
    Peer::new(name.to_string(), SocketAddress::new(10, 0, 0, last, 6000))
}

fn discovery_socket(port: u16) -> SocketAddress {
    SocketAddress::new(10, 0, 0, 200, port)
}

fn discovery_server(host: &Peer) -> ServerBackend {
    ServerBackend::new(host.username(), host.address())
}

#[test]
fn a_new_peer_is_registered_and_told_who_is_there() {
    let host = discovery_peer("host", 1);
    let alice = discovery_peer("alice", 2);
    let bob = discovery_peer("bob", 3);
    let mut server = discovery_server(&host);
    server.handle_connection(discovery_socket(1));
    server.handle_connection(discovery_socket(2));
    let actions =
        handle_server_announce_name(&mut server, alice.clone(), discovery_socket(1));
    let list = FNP::PeerList { rem: host.clone(), dest: alice.clone(), peers: vec![alice.clone()] };
    assert_eq!(
        actions,
        vec![
            Action::Notify(Notice::PeerJoined(alice.clone())),
            Action::Send(Delivery { client: discovery_socket(1), message: list.clone() }),
            Action::Send(Delivery { client: discovery_socket(2), message: list }),
        ]
    );
    assert_eq!(server.peer_store().all_pears(), vec![alice.clone()]);
    let actions = handle_server_announce_name(&mut server, bob.clone(), discovery_socket(2));
    let list = FNP::PeerList {
        rem: host.clone(),
        dest: bob.clone(),
        peers: vec![alice.clone(), bob.clone()],
    };
    assert_eq!(
        actions,
        vec![
            Action::Notify(Notice::PeerJoined(bob.clone())),
            Action::Send(Delivery { client: discovery_socket(1), message: list.clone() }),
            Action::Send(Delivery { client: discovery_socket(2), message: list }),
        ]
    );
    assert_eq!(server.peer_store().len(), 2);
}

#[test]
fn the_same_handshake_twice_registers_once() {
    let host = discovery_peer("host", 1);
    let alice = discovery_peer("alice", 2);
    let mut server = discovery_server(&host);
    server.handle_connection(discovery_socket(1));
    server.handle_connection(discovery_socket(2));
    handle_server_announce_name(&mut server, alice.clone(), discovery_socket(1));
    let actions = handle_server_announce_name(&mut server, alice.clone(), discovery_socket(2));
    assert_eq!(actions, vec![Action::Close(discovery_socket(2))]);
    assert_eq!(server.peer_store().all_pears(), vec![alice.clone()]);
    assert_eq!(
        server.peer_store().get_by_username("alice").map(|i| i.client_addr),
        Some(discovery_socket(1))
    );
    assert!(server.connections().contains_key(&discovery_socket(1)));
    assert!(!server.connections().contains_key(&discovery_socket(2)));
}

#[test]
fn a_username_that_is_taken_is_turned_away() {
    let host = discovery_peer("host", 1);
    let alice = discovery_peer("alice", 2);
    let other_alice = discovery_peer("alice", 3);
    let mut server = discovery_server(&host);
    server.handle_connection(discovery_socket(1));
    server.handle_connection(discovery_socket(2));
    handle_server_announce_name(&mut server, alice.clone(), discovery_socket(1));
    let actions =
        handle_server_announce_name(&mut server, other_alice.clone(), discovery_socket(2));
    assert_eq!(
        actions,
        vec![
            Action::Send(Delivery {
                client: discovery_socket(2),
                message: FNP::RejectConnection { rem: host.clone(), dest: other_alice.clone() },
            }),
            Action::Close(discovery_socket(2)),
            Action::Notify(Notice::NameTaken(other_alice.clone())),
        ]
    );
    assert_eq!(server.peer_store().all_pears(), vec![alice]);
    assert!(!server.connections().contains_key(&discovery_socket(2)));
}

#[test]
fn the_name_of_the_host_is_taken_too() {
    let host = discovery_peer("host", 1);
    let impostor = discovery_peer("host", 9);
    let mut server = discovery_server(&host);
    let actions = handle_server_announce_name(&mut server, impostor.clone(), discovery_socket(5));
    assert_eq!(
        actions,
        vec![Action::Close(discovery_socket(5)), Action::Notify(Notice::NameTaken(impostor))]
    );
    assert_eq!(server.peer_store().len(), 0);
}

#[test]
fn a_second_name_on_a_socket_or_at_an_address_changes_nothing() {
    let host = discovery_peer("host", 1);
    let alice = discovery_peer("alice", 2);
    let mut server = discovery_server(&host);
    server.handle_connection(discovery_socket(1));
    server.handle_connection(discovery_socket(2));
    handle_server_announce_name(&mut server, alice.clone(), discovery_socket(1));
    let on_the_same_socket = discovery_peer("bob", 3);
    assert_eq!(
        handle_server_announce_name(&mut server, on_the_same_socket, discovery_socket(1)),
        vec![]
    );
    let at_the_same_address = discovery_peer("carol", 2);
    assert_eq!(
        handle_server_announce_name(&mut server, at_the_same_address, discovery_socket(2)),
        vec![]
    );
    assert_eq!(server.peer_store().all_pears(), vec![alice]);
    assert_eq!(server.connections().len(), 2);
}

#[test]
fn the_peer_with_the_lower_address_opens_the_connection() {
    let low = Peer::new("low".to_string(), SocketAddress::new(10, 0, 0, 1, 6000));
    let high = Peer::new("high".to_string(), SocketAddress::new(10, 0, 0, 2, 6000));
    let seed = discovery_peer("seed", 100);
    let list = vec![low.clone(), high.clone()];
    let at_low = discovery_server(&low);
    let at_high = discovery_server(&high);
    assert_eq!(
        handle_server_peerlist(&list, &at_low, seed.clone()),
        vec![
            Action::Notify(Notice::PeerDiscovered(high.clone())),
            Action::Notify(Notice::Connecting),
            Action::Connect(vec![high.address()]),
        ]
    );
    assert_eq!(handle_server_peerlist(&list, &at_high, seed), vec![]);
}

#[test]
fn known_peers_the_sender_and_the_host_are_not_connected_to() {
    let host = discovery_peer("host", 10);
    let seed = discovery_peer("seed", 200);
    let known = discovery_peer("known", 50);
    let fresh = discovery_peer("fresh", 60);
    let newer = discovery_peer("newer", 70);
    let below = discovery_peer("below", 5);
    let mut server = discovery_server(&host);
    server.handle_connection(discovery_socket(1));
    server.register_peer(known.clone(), discovery_socket(1));
    let list =
        vec![host.clone(), seed.clone(), newer.clone(), known.clone(), below, fresh.clone()];
    assert_eq!(
        handle_server_peerlist(&list, &server, seed),
        vec![
            Action::Notify(Notice::PeerDiscovered(newer.clone())),
            Action::Notify(Notice::PeerDiscovered(fresh.clone())),
            Action::Notify(Notice::Connecting),
            Action::Connect(vec![newer.address(), fresh.address()]),
        ]
    );
}

#[test]
fn a_rejection_ends_the_program() {
    assert_eq!(handle_rejection(), vec![Action::Notify(Notice::Rejected), Action::Exit(1)]);
    let host = discovery_peer("host", 1);
    let mut server = discovery_server(&host);
    let mut app = AppState::new();
    let message = FNP::RejectConnection { rem: discovery_peer("seed", 2), dest: host.clone() };
    assert_eq!(
        dispatch(&mut app, &mut server, Event::ServerMessage(message, discovery_socket(1))),
        vec![Action::Notify(Notice::Rejected), Action::Exit(1)]
    );
}
