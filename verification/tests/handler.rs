use crust::server::handler::{
    advertised_protocol, chat_line, chat_line_chat, console_chat, disconnect_packet, join_chat,
    join_message, login_success, parse_request, pong, status_description, status_response,
    unsupported_version_chat, unsupported_version_message, Request,
};

#[test]
fn status_requests() {
    assert!(matches!(parse_request(1, &vec![1, 0]), Some(Request::Status)));
    assert!(matches!(
        parse_request(1, &vec![9, 1, 0, 0, 0, 0, 0, 0, 0, 42]),
        Some(Request::Ping { payload: 42 })
    ));
    // A ping without its payload.
    assert!(parse_request(1, &vec![2, 1, 0]).is_none());
    assert!(matches!(parse_request(1, &vec![1, 7]), Some(Request::Ignored)));
}

#[test]
fn login_and_play_requests() {
    match parse_request(2, &vec![5, 0, 3, b'b', b'o', b'b']) {
        Some(Request::LoginStart { username }) => assert_eq!(username, "bob"),
        _ => panic!("expected a login start"),
    }
    match parse_request(3, &vec![7, 0x15, 5, b'f', b'r', b'_', b'F', b'R']) {
        Some(Request::ClientSettings { locale }) => assert_eq!(locale, "fr_FR"),
        _ => panic!("expected client settings"),
    }
    match parse_request(3, &vec![4, 0x01, 2, b'h', b'i']) {
        Some(Request::ChatMessage { message }) => assert_eq!(message, "hi"),
        _ => panic!("expected a chat message"),
    }
    assert!(matches!(parse_request(3, &vec![1, 0x00]), Some(Request::Ignored)));
    assert!(matches!(parse_request(0, &vec![1, 0x00]), Some(Request::UnknownState { state: 0 })));
    assert!(matches!(parse_request(7, &vec![1, 0x00]), Some(Request::UnknownState { state: 7 })));
}

#[test]
fn malformed_requests() {
    assert!(parse_request(1, &vec![]).is_none());
    assert!(parse_request(1, &vec![1]).is_none());
    assert!(parse_request(2, &vec![3, 0, 5, b'a']).is_none());
    // Not valid UTF-8.
    assert!(parse_request(2, &vec![3, 0, 1, 0xFF]).is_none());
}

#[test]
fn chat_message_round_trip() {
    let p = crust::util::packet::PacketBuilder::new(0x01, String::new())
        .write_string(String::from("hello there"))
        .finish();
    match parse_request(3, &p.data) {
        Some(Request::ChatMessage { message }) => assert_eq!(message, "hello there"),
        _ => panic!("expected a chat message"),
    }
}

#[test]
fn advertised() {
    assert_eq!(advertised_protocol(47), 47);
    assert_eq!(advertised_protocol(759), 759);
    assert_eq!(advertised_protocol(1), 0);
}

#[test]
fn unsupported_version_messages() {
    assert_eq!(unsupported_version_message("fr_FR"), "Version non support\u{e9}e.");
    assert_eq!(unsupported_version_message("fr"), "Version non support\u{e9}e.");
    assert_eq!(unsupported_version_message("fr_"), "Version non support\u{e9}e.");
    assert_eq!(unsupported_version_message("en_US"), "Unsupported version.");
    assert_eq!(unsupported_version_message("frx"), "Unsupported version.");
    assert_eq!(unsupported_version_message("f"), "Unsupported version.");
    assert_eq!(unsupported_version_message(""), "Unsupported version.");
    let c = unsupported_version_chat("en_GB");
    assert_eq!(c.text, "Unsupported version.");
    assert_eq!(c.color.as_deref(), Some("red"));
    assert!(!c.bold);
}

#[test]
fn messages() {
    assert_eq!(join_message("bob"), "bob joined the game.");
    assert_eq!(chat_line("bob", "hi"), "bob: hi");
    let c = join_chat("bob");
    assert_eq!(c.text, "bob joined the game.");
    assert_eq!(c.color.as_deref(), Some("yellow"));
    let c = chat_line_chat("bob", "hi");
    assert_eq!(c.text, "bob: hi");
    assert_eq!(c.color.as_deref(), Some("gray"));
    let d = status_description("Welcome");
    assert_eq!(d.text, "Welcome");
    assert_eq!(d.color.as_deref(), Some("gold"));
    assert!(d.bold && !d.italic && !d.underlined && !d.strikethrough && !d.obfuscated);
    let s = console_chat("hello");
    assert_eq!(s.text, "Server:");
    assert_eq!(s.extra.len(), 2);
    assert_eq!(s.extra[0].text, " ");
    assert_eq!(s.extra[1].text, "hello");
    assert_eq!(s.extra[1].color.as_deref(), Some("gray"));
}

#[test]
fn response_packets() {
    assert_eq!(
        pong(String::from("p"), 5).data,
        vec![9, 1, 0, 0, 0, 0, 0, 0, 0, 5]
    );
    assert_eq!(status_response(String::from("p"), String::from("{}")).data, vec![4, 0, 2, b'{', b'}']);
    let p = login_success(String::from("p"), String::from("u"), String::from("n"), None);
    assert_eq!(p.data, vec![5, 2, 1, b'u', 1, b'n']);
    assert_eq!(disconnect_packet(String::from("p"), String::from("x")).data, vec![3, 0x40, 1, b'x']);
}
