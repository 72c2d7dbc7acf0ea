use fishnet::address::SocketAddress;
use fishnet::escape::{escape_semicolons, unescape_semicolons};
use fishnet::offer::{Inventory, InventoryItem, Offer};
use fishnet::parser::FNPParser;
use fishnet::peer::Peer;
use fishnet::protocol::FNP;

fn codec_peer(name: &str, last: u8, port: u16) -> Peer {
    Peer::new(name.to_string(), SocketAddress::new(127, 0, 0, last, port))
}

fn codec_item(kind: &str, quantity: u32) -> InventoryItem {
    InventoryItem::new(kind.to_string(), quantity)
}

fn codec_offer() -> Offer {
    Offer {
        offered: vec![codec_item("cod", 2), codec_item("red;snapper", 1)],
        requested: vec![codec_item("salmon", 1)],
    }
}

fn codec_fields(pairs: &[(&str, &str)]) -> Vec<(String, String)> {
    pairs.iter().map(|(k, v)| (k.to_string(), v.to_string())).collect()
}

#[test]
fn decodes_a_message_from_alice_to_bob() {
    let line = "REM: fnp://alice@127.0.0.1:6000; DEST: fnp://bob@127.0.0.1:6001; CMD: Message; Content: \"hi\";";
    assert_eq!(
        FNPParser::parse(line),
        Ok(FNP::Message {
            rem: codec_peer("alice", 1, 6000),
            dest: codec_peer("bob", 1, 6001),
            content: "hi".to_string(),
        })
    );
}

#[test]
fn encodes_a_message_with_its_content_escaped() {
    let m = FNP::Message {
        rem: codec_peer("alice", 1, 6000),
        dest: codec_peer("bob", 1, 6001),
        content: "one; two".to_string(),
    };
    assert_eq!(
        m.to_string(),
        "FNP 1.0; REM: fnp://alice@127.0.0.1:6000; DEST: fnp://bob@127.0.0.1:6001; CMD: Message; Content: \"one\\; two\";"
    );
}

#[test]
fn encodes_a_broadcast_for_everyone() {
    let m = FNP::Broadcast { rem: codec_peer("alice", 1, 6000), content: "hello".to_string() };
    assert_eq!(
        m.to_string(),
        "FNP 1.0; REM: fnp://alice@127.0.0.1:6000; DEST: fnp://*; CMD: Broadcast; Content: \"hello\";"
    );
}

#[test]
fn encodes_an_offer_and_its_answer() {
    let offer = FNP::TradeOffer {
        rem: codec_peer("alice", 1, 6000),
        dest: codec_peer("bob", 1, 6001),
        offer: codec_offer(),
    };
    assert_eq!(
        offer.to_string(),
        "FNP 1.0; REM: fnp://alice@127.0.0.1:6000; DEST: fnp://bob@127.0.0.1:6001; CMD: TradeOffer; Offer: cod|2,red\\;snapper|1 > salmon|1;"
    );
    let answer = FNP::TradeConfirm {
        rem: codec_peer("bob", 1, 6001),
        dest: codec_peer("alice", 1, 6000),
        response: true,
        offer: codec_offer(),
    };
    assert_eq!(
        answer.to_string(),
        "FNP 1.0; REM: fnp://bob@127.0.0.1:6001; DEST: fnp://alice@127.0.0.1:6000; CMD: TradeConfirm; Response: true; Offer: cod|2,red\\;snapper|1 > salmon|1;"
    );
}

#[test]
fn encodes_the_messages_without_a_payload() {
    let inspection = FNP::InventoryInspection {
        rem: codec_peer("alice", 1, 6000),
        dest: codec_peer("bob", 1, 6001),
    };
    assert_eq!(
        inspection.to_string(),
        "FNP 1.0; REM: fnp://alice@127.0.0.1:6000; DEST: fnp://bob@127.0.0.1:6001; CMD: InventoryInspection;"
    );
    let announce = FNP::AnnounceName { rem: codec_peer("alice", 1, 6000) };
    assert_eq!(announce.to_string(), "FNP 1.0; REM: fnp://alice@127.0.0.1:6000; CMD: AnnounceName;");
    let reject = FNP::RejectConnection {
        rem: codec_peer("alice", 1, 6000),
        dest: codec_peer("bob", 1, 6001),
    };
    assert_eq!(
        reject.to_string(),
        "FNP 1.0; REM: fnp://alice@127.0.0.1:6000; DEST: fnp://bob@127.0.0.1:6001; CMD: RejectConnection;"
    );
}

#[test]
fn encodes_an_inventory_and_a_list_of_peers() {
    let showcase = FNP::InventoryShowcase {
        rem: codec_peer("alice", 1, 6000),
        dest: codec_peer("bob", 1, 6001),
        inventory: Inventory { items: vec![codec_item("cod", 2), codec_item("tuna", 7)] },
    };
    assert_eq!(
        showcase.to_string(),
        "FNP 1.0; REM: fnp://alice@127.0.0.1:6000; DEST: fnp://bob@127.0.0.1:6001; CMD: InvetoryShowcase; Invetory: cod|2, tuna|7;"
    );
    let list = FNP::PeerList {
        rem: codec_peer("alice", 1, 6000),
        dest: codec_peer("bob", 1, 6001),
        peers: vec![codec_peer("bob", 1, 6001), codec_peer("carol", 2, 6002)],
    };
    assert_eq!(
        list.to_string(),
        "FNP 1.0; REM: fnp://alice@127.0.0.1:6000; DEST: fnp://bob@127.0.0.1:6001; CMD: PeerList; Peers: fnp://bob@127.0.0.1:6001,fnp://carol@127.0.0.2:6002;"
    );
}

#[test]
fn every_kind_of_message_survives_the_wire() {
    let alice = codec_peer("alice", 1, 6000);
    let bob = codec_peer("bob", 1, 6001);
    let messages = vec![
        FNP::Message { rem: alice.clone(), dest: bob.clone(), content: "a; b;; c".to_string() },
        FNP::Message { rem: alice.clone(), dest: bob.clone(), content: "".to_string() },
        FNP::Broadcast { rem: alice.clone(), content: "to all; really".to_string() },
        FNP::TradeOffer { rem: alice.clone(), dest: bob.clone(), offer: codec_offer() },
        FNP::TradeConfirm {
            rem: alice.clone(),
            dest: bob.clone(),
            response: true,
            offer: codec_offer(),
        },
        FNP::TradeConfirm {
            rem: alice.clone(),
            dest: bob.clone(),
            response: false,
            offer: Offer { offered: vec![], requested: vec![] },
        },
        FNP::InventoryInspection { rem: alice.clone(), dest: bob.clone() },
        FNP::InventoryShowcase {
            rem: alice.clone(),
            dest: bob.clone(),
            inventory: Inventory { items: vec![codec_item("a;b", 0), codec_item("c", 4294967295)] },
        },
        FNP::InventoryShowcase {
            rem: alice.clone(),
            dest: bob.clone(),
            inventory: Inventory { items: vec![] },
        },
        FNP::AnnounceName { rem: alice.clone() },
        FNP::PeerList {
            rem: alice.clone(),
            dest: bob.clone(),
            peers: vec![bob.clone(), codec_peer("carol", 9, 1)],
        },
        FNP::RejectConnection { rem: alice.clone(), dest: bob.clone() },
    ];
    for m in messages {
        assert_eq!(FNPParser::parse(&m.to_string()), Ok(m.clone()));
    }
}

#[test]
fn an_empty_list_of_peers_does_not_survive_the_wire() {
    let list = FNP::PeerList {
        rem: codec_peer("alice", 1, 6000),
        dest: codec_peer("bob", 1, 6001),
        peers: vec![],
    };
    assert_eq!(FNPParser::parse(&list.to_string()), Err("Invalid peer format".to_string()));
}

#[test]
fn the_last_of_two_fields_with_one_key_counts() {
    let line = "REM: fnp://a@1.1.1.1:1; REM: fnp://b@2.2.2.2:2; CMD: AnnounceName;";
    assert_eq!(
        FNPParser::parse(line),
        Ok(FNP::AnnounceName { rem: Peer::new("b".to_string(), SocketAddress::new(2, 2, 2, 2, 2)) })
    );
}

#[test]
fn decode_reads_fields_that_are_handed_to_it() {
    let fields = codec_fields(&[
        ("REM", "fnp://alice@127.0.0.1:6000"),
        ("DEST", "fnp://bob@127.0.0.1:6001"),
        ("CMD", " Message "),
        ("Content", "anything"),
    ]);
    assert_eq!(
        FNPParser::decode(&fields, Some("a\\;b".to_string())),
        Ok(FNP::Message {
            rem: codec_peer("alice", 1, 6000),
            dest: codec_peer("bob", 1, 6001),
            content: "a;b".to_string(),
        })
    );
    assert_eq!(FNPParser::decode(&fields, None), Err("Invalid content format".to_string()));
}

#[test]
fn each_error_of_the_reader_has_its_text() {
    let rem = "REM: fnp://u@1.1.1.1:1;";
    let dest = "DEST: fnp://v@2.2.2.2:2;";
    let cases: Vec<(String, &str)> = vec![
        ("CMD: Message;".to_string(), "No REM"),
        ("REM: nobody; CMD: Message;".to_string(), "Invalid peer format"),
        ("REM: fnp://u@1.1.1:1; CMD: Message;".to_string(), "invalid socket address syntax"),
        (format!("{rem}"), "No CMD"),
        (format!("{rem} CMD: Dance;"), "Unknown CMD: Dance"),
        (format!("{rem} CMD: Message;"), "No DEST"),
        (format!("{rem} {dest} CMD: Message;"), "No Content"),
        (format!("{rem} {dest} CMD: Message; Content: bare;"), "Invalid content format"),
        (format!("{rem} CMD: Broadcast;"), "No Content"),
        (format!("{rem} {dest} CMD: TradeOffer;"), "No Offer"),
        (format!("{rem} {dest} CMD: TradeOffer; Offer: a|1;"), "Invalid offer format"),
        (format!("{rem} {dest} CMD: TradeOffer; Offer: a > b|1;"), "Invalid offer item format"),
        (format!("{rem} {dest} CMD: TradeOffer; Offer: a|x > b|1;"), "Invalid quantity"),
        (format!("{rem} {dest} CMD: TradeOffer; Offer: a|4294967296 > b|1;"), "Invalid quantity"),
        (format!("{rem} {dest} CMD: TradeConfirm; Offer: a|1 > b|1;"), "No CONFIRM"),
        (
            format!("{rem} {dest} CMD: TradeConfirm; Response: yes; Offer: a|1 > b|1;"),
            "provided string was not `true` or `false`",
        ),
        (format!("{rem} {dest} CMD: TradeConfirm; Response: true;"), "No Offer"),
        (format!("{rem} {dest} CMD: InvetoryShowcase;"), "No Invetory"),
        (
            format!("{rem} {dest} CMD: InvetoryShowcase; Invetory: a|1|2;"),
            "Invalid inventory item format",
        ),
        (format!("{rem} {dest} CMD: PeerList;"), "No Peers"),
        (format!("{rem} CMD: PeerList; Peers: fnp://w@3.3.3.3:3;"), "No DEST"),
        (format!("{rem} {dest} CMD: PeerList; Peers: w;"), "Invalid peer format"),
        (format!("{rem} CMD: RejectConnection;"), "No DEST"),
        (format!("{rem} CMD: InventoryInspection;"), "No DEST"),
    ];
    for (line, error) in cases {
        assert_eq!(FNPParser::parse(&line), Err(error.to_string()), "{}", line);
    }
}

#[test]
fn semicolons_are_escaped_and_read_back() {
    assert_eq!(escape_semicolons("a;b;;c"), "a\\;b\\;\\;c");
    assert_eq!(escape_semicolons("plain"), "plain");
    assert_eq!(unescape_semicolons("a\\;b"), "a;b");
    assert_eq!(unescape_semicolons("a\\\\;b"), "a\\;b");
    assert_eq!(unescape_semicolons("trailing\\"), "trailing\\");
    for text in ["", ";", "\\;", "\\\\;;\\", "x;y\\;z"] {
        assert_eq!(unescape_semicolons(&escape_semicolons(text)), text);
    }
}

#[test]
fn sender_and_destination_can_be_read_and_the_sender_replaced() {
    let alice = codec_peer("alice", 1, 6000);
    let bob = codec_peer("bob", 1, 6001);
    let carol = codec_peer("carol", 1, 6002);
    let m = FNP::Message { rem: alice.clone(), dest: bob.clone(), content: "x".to_string() };
    assert_eq!(m.rem(), &alice);
    assert_eq!(m.dest(), Some(&bob));
    assert_eq!(
        m.set_rem(carol.clone()),
        FNP::Message { rem: carol.clone(), dest: bob.clone(), content: "x".to_string() }
    );
    let b = FNP::Broadcast { rem: alice.clone(), content: "x".to_string() };
    assert_eq!(b.dest(), None);
    let a = FNP::AnnounceName { rem: alice.clone() };
    assert_eq!(a.dest(), None);
    assert_eq!(a.set_rem(carol.clone()), FNP::AnnounceName { rem: carol });
}

#[test]
fn items_are_read_with_the_whitespace_around_them_dropped() {
    let inventory: Inventory = " cod | 2 ,, tuna|+7 , ".parse().unwrap();
    assert_eq!(inventory.items, vec![codec_item("cod", 2), codec_item("tuna", 7)]);
    let empty: Inventory = "".parse().unwrap();
    assert_eq!(empty.items, vec![]);
    let offer: Offer = " > ".parse().unwrap();
    assert_eq!(offer, Offer { offered: vec![], requested: vec![] });
    assert_eq!("a|1 > b|1 > c|1".parse::<Offer>(), Err("Invalid offer format".to_string()));
    assert_eq!("a|-1".parse::<Inventory>(), Err("Invalid quantity".to_string()));
    assert_eq!("a|".parse::<Inventory>(), Err("Invalid quantity".to_string()));
}
