use fishnet::commands::{parse_command, Command};

#[test]
fn parse_pescar_and_listar() {
    assert_eq!(parse_command("$p"), Some(Command::Pescar));
    assert_eq!(parse_command("  $pescar  "), Some(Command::Pescar));
    assert_eq!(parse_command("$l"), Some(Command::List));
    assert_eq!(parse_command("$listar extra ignored"), Some(Command::List));
}

#[test]
fn parse_inventario() {
    assert_eq!(parse_command("$i"), Some(Command::Inventario(None)));
    assert_eq!(
        parse_command("$i alice"),
        Some(Command::Inventario(Some("alice".to_string())))
    );
}

#[test]
fn parse_troca_and_offer_reconstruction() {
    let input = "$t bob peixe|2 > peixe|1";
    assert_eq!(
        parse_command(input),
        Some(Command::Trade {
            peer_str: "bob".to_string(),
            offer_str: "peixe|2 > peixe|1".to_string()
        })
    );

    // Missing peer -> peer empty string, offer empty
    assert_eq!(
        parse_command("$t"),
        Some(Command::Trade {
            peer_str: "".to_string(),
            offer_str: "".to_string()
        })
    );
}

#[test]
fn parse_confirmar() {
    assert_eq!(
        parse_command("$c s alice"),
        Some(Command::ConfirmTrade {
            resp: true,
            peer_str: "alice".to_string()
        })
    );
    assert_eq!(
        parse_command("$c n bob"),
        Some(Command::ConfirmTrade {
            resp: false,
            peer_str: "bob".to_string()
        })
    );
    assert_eq!(
        parse_command("$c sim carla"),
        Some(Command::ConfirmTrade {
            resp: true,
            peer_str: "carla".to_string()
        })
    );
}

#[test]
fn parse_quit_and_help() {
    assert_eq!(parse_command("$q"), Some(Command::Quit));
    assert_eq!(parse_command("$h"), Some(Command::Help));
}

#[test]
fn not_a_command_returns_none() {
    assert_eq!(parse_command("hello world"), None);
    assert_eq!(parse_command(" @bob hi"), None);
    assert_eq!(parse_command(""), None);
    assert_eq!(parse_command("   "), None);
}

#[test]
fn unknown_command_returns_unknown() {
    assert_eq!(
        parse_command("$unknown cmd args"),
        Some(Command::Unknown("$unknown cmd args".to_string()))
    );
}
