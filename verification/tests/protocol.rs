use fishnet::offer::{Inventory, InventoryItem, Offer};
use fishnet::parser::FNPParser;
use fishnet::peer::Peer;
use fishnet::protocol::FNP;

// Peers
#[test]
fn test_peer_parsing_valid() {
    let peer: Peer = "fnp://user@127.0.0.1:6000".parse().unwrap();
    assert_eq!(peer.username(), "user");
    assert_eq!(peer.address(), "127.0.0.1:6000".parse().unwrap());
}

#[test]
fn test_peer_parsing_invalid() {
    let result = "invalid".parse::<Peer>();
    assert!(result.is_err());
}

// Items and inventories
#[test]
fn test_inventory_parsing_single_item() {
    let inventory: Inventory = "fish1|10".parse().unwrap();
    assert_eq!(inventory.items.len(), 1);
    assert_eq!(inventory.items[0].fish_type, "fish1");
    assert_eq!(inventory.items[0].quantity, 10);
}

#[test]
fn test_inventory_parsing_multiple_items() {
    let inventory: Inventory = "fish1|10, fish2|20, goldfish|5".parse().unwrap();
    assert_eq!(inventory.items.len(), 3);
    assert_eq!(inventory.items[1].fish_type, "fish2");
    assert_eq!(inventory.items[2].quantity, 5);
}

#[test]
fn test_inventory_parsing_invalid() {
    let result = "invalid".parse::<Inventory>();
    assert!(result.is_err());
}

// Offers
#[test]
fn test_offer_parsing_simple() {
    let offer: Offer = "fish1|10 > fish2|5".parse().unwrap();
    assert_eq!(offer.offered.len(), 1);
    assert_eq!(offer.requested.len(), 1);
    assert_eq!(offer.offered[0].fish_type, "fish1");
    assert_eq!(offer.requested[0].quantity, 5);
}

#[test]
fn test_offer_parsing_complex() {
    let offer: Offer = "fish1|10,fish2|5 > fish3|3,fish4|2".parse().unwrap();
    assert_eq!(offer.offered.len(), 2);
    assert_eq!(offer.requested.len(), 2);
    assert_eq!(offer.offered[1].fish_type, "fish2");
    assert_eq!(offer.requested[1].quantity, 2);
}

#[test]
fn test_offer_parsing_invalid() {
    let result = "invalid".parse::<Offer>();
    assert!(result.is_err());
}

// Text forms
#[test]
fn test_peer_display() {
    let peer = Peer::new("user".to_string(), "127.0.0.1:6000".parse().unwrap());
    assert_eq!(peer.to_string(), "fnp://user@127.0.0.1:6000");
}

#[test]
fn test_inventory_item_display() {
    let item = InventoryItem {
        fish_type: "goldfish".to_string(),
        quantity: 10,
    };
    assert_eq!(item.to_string(), "goldfish|10");
}

#[test]
fn test_inventory_display() {
    let inventory = Inventory {
        items: vec![
            InventoryItem {
                fish_type: "fish1".to_string(),
                quantity: 10,
            },
            InventoryItem {
                fish_type: "fish2".to_string(),
                quantity: 5,
            },
        ],
    };
    assert_eq!(inventory.to_string(), "fish1|10, fish2|5");
}

#[test]
fn test_offer_display() {
    let offer = Offer {
        offered: vec![InventoryItem {
            fish_type: "fish1".to_string(),
            quantity: 10,
        }],
        requested: vec![InventoryItem {
            fish_type: "fish2".to_string(),
            quantity: 5,
        }],
    };
    assert_eq!(offer.to_string(), "fish1|10 > fish2|5");
}

// One test for each kind of message
#[test]
fn test_message_parsing() {
    let protocol = r#"
        REM: fnp://user@127.0.0.1:6000;
        DEST: fnp://user2@129.0.0.1:4848;
        CMD: Message;
        Content: "Hello World";
    "#;

    match FNPParser::parse(protocol) {
        Ok(FNP::Message { rem, dest, content }) => {
            assert_eq!(rem.username(), "user");
            assert_eq!(rem.address().to_string(), "127.0.0.1:6000");
            assert_eq!(dest.username(), "user2");
            assert_eq!(dest.address().to_string(), "129.0.0.1:4848");
            assert_eq!(content, "Hello World");
        }
        _ => panic!("Should parse as Message"),
    }
}

#[test]
fn test_broadcast_parsing() {
    let protocol = r#"
        REM: fnp://user@127.0.0.1:6000;
        DEST: *;
        CMD: Broadcast;
        Content: "Broadcast message";
    "#;

    match FNPParser::parse(protocol) {
        Ok(FNP::Broadcast { rem, content }) => {
            assert_eq!(rem.username(), "user");
            assert_eq!(rem.address().to_string(), "127.0.0.1:6000");
            assert_eq!(content, "Broadcast message");
        }
        _ => panic!("Should parse as Broadcast"),
    }
}

#[test]
fn test_trade_offer_parsing() {
    let protocol = r#"
        REM: fnp://user@127.0.0.1:6000;
        DEST: fnp://user2@129.0.0.1:4848;
        CMD: TradeOffer;
        Offer: fish1|10 > fish2|5;
    "#;

    match FNPParser::parse(protocol) {
        Ok(FNP::TradeOffer { rem, dest, offer }) => {
            assert_eq!(rem.username(), "user");
            assert_eq!(rem.address().to_string(), "127.0.0.1:6000");
            assert_eq!(dest.username(), "user2");
            assert_eq!(dest.address().to_string(), "129.0.0.1:4848");
            assert_eq!(offer.offered.len(), 1);
            assert_eq!(offer.requested.len(), 1);
            assert_eq!(offer.offered[0].fish_type, "fish1");
            assert_eq!(offer.requested[0].quantity, 5);
        }
        _ => panic!("Should parse as TradeOffer"),
    }
}

#[test]
fn test_trade_confirm_parsing_true() {
    let protocol = r#"
        REM: fnp://user@127.0.0.1:6000;
        DEST: fnp://user2@129.0.0.1:4848;
        CMD: TradeConfirm;
        Response: true;
        Offer: fish1|10 > fish2|5;
    "#;

    match FNPParser::parse(protocol) {
        Ok(FNP::TradeConfirm {
            rem,
            dest,
            response,
            offer,
        }) => {
            assert_eq!(rem.username(), "user");
            assert_eq!(rem.address().to_string(), "127.0.0.1:6000");
            assert_eq!(dest.username(), "user2");
            assert_eq!(dest.address().to_string(), "129.0.0.1:4848");
            assert!(response);
            assert_eq!(offer.offered.len(), 1);
            assert_eq!(offer.requested.len(), 1);
            assert_eq!(offer.offered[0].fish_type, "fish1");
            assert_eq!(offer.requested[0].quantity, 5);
        }
        _ => panic!("Should parse as TradeConfirm with true"),
    }
}

#[test]
fn test_trade_confirm_parsing_false() {
    let protocol = r#"
        REM: fnp://user@127.0.0.1:6000;
        DEST: fnp://user2@129.0.0.1:4848;
        CMD: TradeConfirm;
        Response: false;
        Offer: fish1|10 > fish2|5;
    "#;

    match FNPParser::parse(protocol) {
        Ok(FNP::TradeConfirm {
            rem,
            dest,
            response,
            offer: _,
        }) => {
            assert_eq!(rem.username(), "user");
            assert_eq!(rem.address().to_string(), "127.0.0.1:6000");
            assert_eq!(dest.username(), "user2");
            assert_eq!(dest.address().to_string(), "129.0.0.1:4848");
            assert!(!response);
        }
        _ => panic!("Should parse as TradeConfirm with false"),
    }
}

#[test]
fn test_inventory_inspection_parsing() {
    let protocol = r#"
        REM: fnp://user@127.0.0.1:6000;
        DEST: fnp://user2@129.0.0.1:4848;
        CMD: InventoryInspection;
    "#;

    match FNPParser::parse(protocol) {
        Ok(FNP::InventoryInspection { rem, dest }) => {
            assert_eq!(rem.username(), "user");
            assert_eq!(rem.address().to_string(), "127.0.0.1:6000");
            assert_eq!(dest.username(), "user2");
            assert_eq!(dest.address().to_string(), "129.0.0.1:4848");
        }
        _ => panic!("Should parse as InventoryInspection"),
    }
}

#[test]
fn test_inventory_showcase_parsing() {
    let protocol = r#"
        REM: fnp://user@127.0.0.1:6000;
        DEST: fnp://user2@129.0.0.1:4848;
        CMD: InvetoryShowcase;
        Invetory: goldfish|10, shark|1, tuna|5;
    "#;

    match FNPParser::parse(protocol) {
        Ok(FNP::InventoryShowcase {
            rem,
            dest,
            inventory,
        }) => {
            assert_eq!(rem.username(), "user");
            assert_eq!(rem.address().to_string(), "127.0.0.1:6000");
            assert_eq!(dest.username(), "user2");
            assert_eq!(dest.address().to_string(), "129.0.0.1:4848");
            assert_eq!(inventory.items.len(), 3);
            assert_eq!(inventory.items[0].fish_type, "goldfish");
            assert_eq!(inventory.items[1].quantity, 1);
        }
        _ => panic!("Should parse as InventoryShowcase"),
    }
}

#[test]
fn test_announce_name_parsing() {
    let protocol = r#"
        REM: fnp://new_user@127.0.0.1:6001;
        CMD: AnnounceName;
    "#;

    match FNPParser::parse(protocol) {
        Ok(FNP::AnnounceName { rem }) => {
            assert_eq!(rem.username(), "new_user");
            assert_eq!(rem.address().to_string(), "127.0.0.1:6001");
        }
        _ => panic!("Should parse as AnnounceName"),
    }
}

#[test]
fn test_peer_list_parsing() {
    let protocol = r#"
        REM: fnp://user1@127.0.0.1:6000;
        DEST: fnp://new_user@127.0.0.1:6001;
        CMD: PeerList;
        Peers: fnp://user1@127.0.0.1:6000,fnp://user2@127.0.0.1:6002;
    "#;

    match FNPParser::parse(protocol) {
        Ok(FNP::PeerList { rem, dest, peers }) => {
            assert_eq!(rem.username(), "user1");
            assert_eq!(dest.username(), "new_user");
            assert_eq!(peers.len(), 2);
            assert_eq!(peers[0].username(), "user1");
            assert_eq!(peers[1].address().to_string(), "127.0.0.1:6002");
        }
        _ => panic!("Should parse as PeerList"),
    }
}

// Errors
#[test]
fn test_missing_rem_field() {
    let protocol = r#"
        DEST: fnp://user2@129.0.0.1:4848;
        CMD: Message;
        Content: "test";
    "#;

    let result = FNPParser::parse(protocol);
    assert!(result.is_err());
    assert!(result.unwrap_err().contains("REM"));
}

#[test]
fn test_missing_cmd_field() {
    let protocol = r#"
        REM: fnp://user@127.0.0.1:6000;
        DEST: fnp://user2@129.0.0.1:4848;
        Content: "test";
    "#;

    let result = FNPParser::parse(protocol);
    assert!(result.is_err());
    assert!(result.unwrap_err().contains("CMD"));
}

#[test]
fn test_unknown_command() {
    let protocol = r#"
        REM: fnp://user@127.0.0.1:6000;
        DEST: fnp://user2@129.0.0.1:4848;
        CMD: UnknownCommand;
        Content: "test";
    "#;

    let result = FNPParser::parse(protocol);
    assert!(result.is_err());
    assert!(result.unwrap_err().contains("UnknownCommand"));
}

#[test]
fn test_invalid_offer_response() {
    let protocol = r#"
        REM: fnp://user@127.0.0.1:6000;
        DEST: fnp://user2@129.0.0.1:4848;
        CMD: TradeConfirm;
        Response: invalid;
        Offer: fish1|1 > fish2|1;
    "#;

    let result = FNPParser::parse(protocol);
    assert!(result.is_err());
}

// Malformed fields
#[test]
fn test_invalid_peer_format() {
    let protocol = r#"
        REM: invalid_format;
        DEST: fnp://user2@129.0.0.1:4848;
        CMD: Message;
        Content: "test";
    "#;

    let result = FNPParser::parse(protocol);
    assert!(result.is_err());
}

#[test]
fn test_invalid_inventory_format() {
    let protocol = r#"
        REM: fnp://user@127.0.0.1:6000;
        DEST: fnp://user2@129.0.0.1:4848;
        CMD: InvetoryShowcase;
        Invetory: invalid;
    "#;

    let result = FNPParser::parse(protocol);
    assert!(result.is_err());
}

#[test]
fn test_invalid_offer_format() {
    let protocol = r#"
        REM: fnp://user@127.0.0.1:6000;
        DEST: fnp://user2@129.0.0.1:4848;
        CMD: TradeOffer;
        Offer: invalid;
    "#;

    let result = FNPParser::parse(protocol);
    assert!(result.is_err());
}

// Edge cases
#[test]
fn test_empty_content() {
    let protocol = r#"
        REM: fnp://user@127.0.0.1:6000;
        DEST: fnp://user2@129.0.0.1:4848;
        CMD: Message;
        Content: "";
    "#;

    match FNPParser::parse(protocol) {
        Ok(FNP::Message { content, .. }) => {
            assert_eq!(content, "");
        }
        _ => panic!("Should parse empty content"),
    }
}

#[test]
fn test_special_characters_in_content() {
    let protocol = r#"
        REM: fnp://user@127.0.0.1:6000;
        DEST: fnp://user2@129.0.0.1:4848;
        CMD: Message;
        Content: "Hello\nWorld\tTest";
    "#;

    match FNPParser::parse(protocol) {
        Ok(FNP::Message { content, .. }) => {
            assert_eq!(content, "Hello\\nWorld\\tTest");
        }
        _ => panic!("Should parse special characters"),
    }
}

#[test]
fn test_complex_trade_offer() {
    let protocol = r#"
        REM: fnp://user@127.0.0.1:6000;
        DEST: fnp://user2@129.0.0.1:4848;
        CMD: TradeOffer;
        Offer: fish1|10,fish2|5,fish3|3 > fish4|8,fish5|2;
    "#;

    match FNPParser::parse(protocol) {
        Ok(FNP::TradeOffer { offer, .. }) => {
            assert_eq!(offer.offered.len(), 3);
            assert_eq!(offer.requested.len(), 2);
            assert_eq!(offer.offered[2].fish_type, "fish3");
            assert_eq!(offer.requested[1].quantity, 2);
        }
        _ => panic!("Should parse complex trade offer"),
    }
}

// Spacing
#[test]
fn test_various_spacing_formats() {
    let protocols = vec![
        r#"REM:fnp://u@1.1.1.1:1;DEST:fnp://u2@2.2.2.2:2;CMD:Message;Content:"test";"#,
        r#"REM: fnp://u@1.1.1.1:1 ; DEST: fnp://u2@2.2.2.2:2 ; CMD: Message; Content: "test" ;"#,
        r#"  REM: fnp://u@1.1.1.1:1;
            DEST: fnp://u2@2.2.2.2:2;
            CMD: Message;
            Content: "test";"#,
    ];

    for protocol in protocols {
        let result = FNPParser::parse(protocol);
        assert!(result.is_ok(), "Failed to parse protocol: {}", protocol);
    }
}

// From a line to the text of its offer
#[test]
fn test_complete_round_trip() {
    let protocol_text = r#"
        REM: fnp://user@127.0.0.1:6000;
        DEST: fnp://user2@129.0.0.1:4848;
        CMD: TradeOffer;
        Offer: goldfish|10,shark|1 > tuna|5;
    "#;

    let fnp = FNPParser::parse(protocol_text).unwrap();

    if let FNP::TradeOffer { rem, dest, offer } = fnp {
        assert_eq!(rem.username(), "user");
        assert_eq!(rem.address().to_string(), "127.0.0.1:6000");
        assert_eq!(dest.username(), "user2");
        assert_eq!(dest.address().to_string(), "129.0.0.1:4848");
        assert_eq!(offer.offered.len(), 2);
        assert_eq!(offer.requested.len(), 1);
        assert_eq!(offer.to_string(), "goldfish|10,shark|1 > tuna|5");
    } else {
        panic!("Round trip test failed");
    }
}
