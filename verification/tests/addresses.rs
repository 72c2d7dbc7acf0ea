use fishnet::address::SocketAddress;
use fishnet::peer::Peer;

#[test]
fn an_address_is_written_and_read_back() {
    let a = SocketAddress::new(127, 0, 0, 1, 6000);
    assert_eq!(a.to_string(), "127.0.0.1:6000");
    assert_eq!(SocketAddress::parse("127.0.0.1:6000"), Some(a));
    let b = SocketAddress::new(0, 10, 200, 255, 0);
    assert_eq!(b.to_string(), "0.10.200.255:0");
    assert_eq!(SocketAddress::parse(&b.to_string()), Some(b));
    let c = SocketAddress::new(255, 255, 255, 255, 65535);
    assert_eq!(SocketAddress::parse(&c.to_string()), Some(c));
}

#[test]
fn a_port_may_have_leading_zeros_and_an_octet_may_not() {
    assert_eq!(SocketAddress::parse("1.2.3.4:0080"), Some(SocketAddress::new(1, 2, 3, 4, 80)));
    assert_eq!(SocketAddress::parse("01.2.3.4:80"), None);
    assert_eq!(SocketAddress::parse("0.0.0.0:0"), Some(SocketAddress::new(0, 0, 0, 0, 0)));
}

#[test]
fn what_is_no_address_is_refused() {
    for text in [
        "",
        "1.2.3.4",
        "1.2.3.4:",
        "1.2.3:80",
        "1.2.3.4.5:80",
        "256.1.1.1:80",
        "1.2.3.4:65536",
        "1.2.3.4:80:90",
        " 1.2.3.4:80",
        "1.2.3.4:80 ",
        "1..3.4:80",
        "1.2.3.4:+80",
        "a.b.c.d:80",
        "1234.1.1.1:80",
        "localhost:80",
    ] {
        assert_eq!(SocketAddress::parse(text), None, "{}", text);
        assert_eq!(
            text.parse::<SocketAddress>(),
            Err("invalid socket address syntax".to_string())
        );
    }
}

#[test]
fn addresses_are_ordered_by_octets_and_then_by_port() {
    let low = SocketAddress::new(10, 0, 0, 1, 6000);
    let high = SocketAddress::new(10, 0, 0, 2, 6000);
    assert!(low.precedes(&high));
    assert!(!high.precedes(&low));
    assert!(!low.precedes(&low));
    assert!(SocketAddress::new(10, 0, 0, 1, 1).precedes(&SocketAddress::new(10, 0, 0, 1, 2)));
    assert!(SocketAddress::new(9, 255, 255, 255, 65535).precedes(&low));
    assert!(SocketAddress::new(10, 0, 0, 1, 65535).precedes(&SocketAddress::new(10, 0, 1, 0, 0)));
}

#[test]
fn a_peer_is_written_with_the_prefix_and_read_with_or_without_it() {
    let peer = Peer::new("alice".to_string(), SocketAddress::new(192, 168, 0, 7, 6001));
    assert_eq!(peer.to_string(), "fnp://alice@192.168.0.7:6001");
    assert_eq!("fnp://alice@192.168.0.7:6001".parse::<Peer>(), Ok(peer.clone()));
    assert_eq!("alice@192.168.0.7:6001".parse::<Peer>(), Ok(peer.clone()));
    assert_eq!(peer.username(), "alice");
    assert_eq!(peer.address(), SocketAddress::new(192, 168, 0, 7, 6001));
    assert!(peer.same(&peer.clone()));
    assert!(!peer.same(&Peer::new("alice".to_string(), SocketAddress::new(192, 168, 0, 7, 6002))));
    assert_eq!("a@b@1.1.1.1:1".parse::<Peer>(), Err("Invalid peer format".to_string()));
    assert_eq!("a@nowhere".parse::<Peer>(), Err("invalid socket address syntax".to_string()));
}
