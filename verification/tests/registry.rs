use fishnet::address::SocketAddress;
use fishnet::peer::Peer;
use fishnet::peerstore::{Delivery, PeerInfo, PeerStore};
use fishnet::protocol::FNP;

fn registry_peer(name: &str, last: u8) -> Peer {
    Peer::new(name.to_string(), SocketAddress::new(10, 0, 0, last, 6000))
}

fn registry_socket(port: u16) -> SocketAddress {
    SocketAddress::new(10, 0, 0, 99, port)
}

#[test]
fn a_registered_peer_is_found_by_address_and_by_name() {
    let mut store = PeerStore::new();
    let alice = registry_peer("alice", 1);
    store.register(alice.clone(), registry_socket(40001));
    let info = PeerInfo { peer: alice.clone(), client_addr: registry_socket(40001) };
    assert_eq!(store.get_by_listener(&alice.address()), Some(info.clone()));
    assert_eq!(store.get_by_username("alice"), Some(info));
    assert!(store.contains_client(&registry_socket(40001)));
    assert_eq!(store.get_by_username("bob"), None);
    assert_eq!(store.get_by_listener(&registry_socket(40001)), None);
    assert!(!store.contains_client(&alice.address()));
    assert_eq!(store.len(), 1);
}

#[test]
fn a_peer_is_in_all_three_maps_or_in_none() {
    let mut store = PeerStore::new();
    let alice = registry_peer("alice", 1);
    let bob = registry_peer("bob", 2);
    store.register(alice.clone(), registry_socket(40001));
    store.register(bob.clone(), registry_socket(40002));
    let removed = store.unregister_by_client(&registry_socket(40001));
    assert_eq!(removed, Some(PeerInfo { peer: alice.clone(), client_addr: registry_socket(40001) }));
    assert_eq!(store.get_by_listener(&alice.address()), None);
    assert_eq!(store.get_by_username("alice"), None);
    assert!(!store.contains_client(&registry_socket(40001)));
    assert_eq!(store.get_by_username("bob").map(|i| i.peer), Some(bob.clone()));
    assert_eq!(store.all_pears(), vec![bob.clone()]);
    assert_eq!(store.unregister_by_client(&registry_socket(40001)), None);
    assert_eq!(store.all_pears(), vec![bob]);
}

#[test]
fn a_socket_that_never_registered_unregisters_nothing() {
    let mut store = PeerStore::new();
    store.register(registry_peer("alice", 1), registry_socket(40001));
    assert_eq!(store.unregister_by_client(&registry_socket(40009)), None);
    assert_eq!(store.len(), 1);
}

#[test]
fn a_peer_can_be_unregistered_by_its_name() {
    let mut store = PeerStore::new();
    let alice = registry_peer("alice", 1);
    store.register(alice.clone(), registry_socket(40001));
    store.register(registry_peer("bob", 2), registry_socket(40002));
    assert_eq!(store.unregister_by_username("carol"), None);
    assert_eq!(
        store.unregister_by_username("alice"),
        Some(PeerInfo { peer: alice.clone(), client_addr: registry_socket(40001) })
    );
    assert!(!store.contains_client(&registry_socket(40001)));
    assert_eq!(store.get_by_listener(&alice.address()), None);
    assert_eq!(store.len(), 1);
}

#[test]
fn the_peers_come_out_in_the_order_in_which_they_came() {
    let mut store = PeerStore::new();
    assert_eq!(store.all_pears(), Vec::<Peer>::new());
    let names = ["dora", "alice", "carol", "bob"];
    for (i, name) in names.iter().enumerate() {
        store.register(registry_peer(name, i as u8), registry_socket(40000 + i as u16));
    }
    let listed: Vec<String> = store.all_pears().iter().map(|p| p.username().to_string()).collect();
    assert_eq!(listed, vec!["dora", "alice", "carol", "bob"]);
    store.unregister_by_username("alice");
    let listed: Vec<String> = store.all_pears().iter().map(|p| p.username().to_string()).collect();
    assert_eq!(listed, vec!["dora", "carol", "bob"]);
}

#[test]
fn a_broadcast_goes_to_every_registered_peer_with_the_host_as_sender() {
    let mut store = PeerStore::new();
    let host = registry_peer("host", 100);
    store.register(registry_peer("alice", 1), registry_socket(40001));
    store.register(registry_peer("bob", 2), registry_socket(40002));
    let msg = FNP::Broadcast { rem: registry_peer("somebody", 50), content: "hi".to_string() };
    let sent = FNP::Broadcast { rem: host.clone(), content: "hi".to_string() };
    assert_eq!(
        store.broadcast(&host, &msg),
        vec![
            Delivery { client: registry_socket(40001), message: sent.clone() },
            Delivery { client: registry_socket(40002), message: sent },
        ]
    );
    assert_eq!(PeerStore::new().broadcast(&host, &msg), vec![]);
}

#[test]
fn a_message_through_a_listener_goes_to_the_socket_of_that_peer() {
    let mut store = PeerStore::new();
    let host = registry_peer("host", 100);
    let alice = registry_peer("alice", 1);
    store.register(alice.clone(), registry_socket(40001));
    let msg = FNP::InventoryInspection { rem: registry_peer("x", 9), dest: alice.clone() };
    assert_eq!(
        store.send_through_listener(&host, &alice.address(), msg.clone()),
        Some(Delivery {
            client: registry_socket(40001),
            message: FNP::InventoryInspection { rem: host.clone(), dest: alice.clone() },
        })
    );
    assert_eq!(store.send_through_listener(&host, &registry_socket(1), msg), None);
}
