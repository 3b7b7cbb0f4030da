use crust::server::handler::{respond, Request, ServerAction};
use crust::util::packet::ConnState;

fn conn(state: u64, protocol: Option<u64>, username: Option<&str>) -> ConnState {
    ConnState { state, protocol, username: username.map(String::from) }
}

fn run(conn: ConnState, request: Request, sender: Option<&str>) -> (ConnState, Vec<ServerAction>) {
    respond(
        String::from("p"),
        conn,
        request,
        20,
        "Hello",
        String::from("id"),
        sender.map(String::from),
    )
}

#[test]
fn status_of_known_and_unknown_protocols() {
    let (_, actions) = run(conn(1, Some(47), None), Request::Status, None);
    assert_eq!(actions.len(), 1);
    match &actions[0] {
        ServerAction::SendStatus { version_name, protocol, max_players, description } => {
            assert_eq!(version_name, "1.8-1.19");
            assert_eq!(*protocol, 47);
            assert_eq!(*max_players, 20);
            assert_eq!(description.text, "Hello");
            assert_eq!(description.color.as_deref(), Some("gold"));
            assert!(description.bold);
        }
        _ => panic!("expected the status"),
    }
    let (_, actions) = run(conn(1, Some(5), None), Request::Status, None);
    assert!(matches!(&actions[0], ServerAction::SendStatus { protocol: 0, .. }));
}

#[test]
fn ping_is_answered_with_its_payload() {
    let (state, actions) = run(conn(1, Some(47), None), Request::Ping { payload: 42 }, None);
    assert_eq!(state.state, 1);
    assert_eq!(actions.len(), 1);
    match &actions[0] {
        ServerAction::Send(p) => {
            assert_eq!(p.pid, "p");
            assert!(p.state.is_none());
            assert_eq!(p.data, vec![9, 1, 0, 0, 0, 0, 0, 0, 0, 42]);
        }
        _ => panic!("expected the pong"),
    }
}

#[test]
fn login_sends_success_then_join_game_in_play() {
    let (state, actions) =
        run(conn(2, Some(47), None), Request::LoginStart { username: String::from("n") }, None);
    assert_eq!(state.state, 3);
    assert_eq!(state.username.as_deref(), Some("n"));
    assert_eq!(actions.len(), 2);
    match &actions[0] {
        ServerAction::Send(p) => {
            assert_eq!(p.data, vec![6, 2, 2, b'i', b'd', 1, b'n']);
            let s = p.state.as_ref().unwrap();
            assert_eq!(s.state, 2);
            assert_eq!(s.protocol, Some(47));
            assert_eq!(s.username.as_deref(), Some("n"));
        }
        _ => panic!("expected the login success"),
    }
    match &actions[1] {
        ServerAction::Send(p) => {
            assert_eq!(p.data[1], 1);
            let s = p.state.as_ref().unwrap();
            assert_eq!(s.state, 3);
            assert_eq!(s.username.as_deref(), Some("n"));
        }
        _ => panic!("expected the join game packet"),
    }
}

#[test]
fn settings_of_a_known_version_put_the_client_in_the_game() {
    let (_, actions) = run(
        conn(3, Some(47), Some("n")),
        Request::ClientSettings { locale: String::from("en_US") },
        None,
    );
    assert_eq!(actions.len(), 4);
    assert!(matches!(&actions[0], ServerAction::SendPositionAndLook));
    match &actions[1] {
        ServerAction::AddClient { version, locale, username } => {
            assert_eq!(version.clone().protocol(), 47);
            assert_eq!(version.clone().name(), "1.8.9");
            assert_eq!(locale, "en_US");
            assert_eq!(username, "n");
        }
        _ => panic!("expected the client to be added"),
    }
    assert!(matches!(&actions[2], ServerAction::Log(l) if l == "n joined the game."));
    match &actions[3] {
        ServerAction::Broadcast(c) => {
            assert_eq!(c.text, "n joined the game.");
            assert_eq!(c.color.as_deref(), Some("yellow"));
        }
        _ => panic!("expected the broadcast"),
    }
}

#[test]
fn settings_of_an_unknown_version_disconnect() {
    let (_, actions) = run(
        conn(3, Some(4), None),
        Request::ClientSettings { locale: String::from("fr_FR") },
        None,
    );
    assert_eq!(actions.len(), 1);
    match &actions[0] {
        ServerAction::Disconnect(c) => {
            assert_eq!(c.text, "Version non supportée.");
            assert_eq!(c.color.as_deref(), Some("red"));
        }
        _ => panic!("expected a disconnect"),
    }
    let (_, actions) = run(
        conn(3, Some(4), None),
        Request::ClientSettings { locale: String::from("en_GB") },
        None,
    );
    assert!(matches!(&actions[0], ServerAction::Disconnect(c) if c.text == "Unsupported version."));
}

#[test]
fn chat_message_is_logged_then_broadcast() {
    let (_, actions) = run(
        conn(3, Some(47), Some("n")),
        Request::ChatMessage { message: String::from("hi") },
        Some("n"),
    );
    assert_eq!(actions.len(), 2);
    assert!(matches!(&actions[0], ServerAction::Log(l) if l == "n: hi"));
    assert!(matches!(&actions[1], ServerAction::Broadcast(c) if c.text == "n: hi"
        && c.color.as_deref() == Some("gray")));
}

#[test]
fn ignored_and_unknown_states() {
    let (_, actions) = run(conn(3, None, None), Request::Ignored, None);
    assert!(actions.is_empty());
    let (state, actions) = run(conn(7, None, None), Request::UnknownState { state: 1207 }, None);
    assert_eq!(state.state, 7);
    assert_eq!(actions.len(), 1);
    assert!(matches!(&actions[0], ServerAction::Log(l) if l == "Unknown state: 1207"));
    let (_, actions) = run(conn(0, None, None), Request::UnknownState { state: 0 }, None);
    assert!(matches!(&actions[0], ServerAction::Log(l) if l == "Unknown state: 0"));
}
