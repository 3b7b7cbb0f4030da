use crust::common::packet::join_game::JoinGamePacketBuilder;
use crust::util::packet::ConnState;

fn login_state() -> ConnState {
    ConnState { state: 2, protocol: Some(47), username: Some(String::from("Steve")) }
}

#[test]
fn default_join_game() {
    let p = JoinGamePacketBuilder::new().finish(String::from("p"), &login_state());
    assert_eq!(p.pid, "p");
    assert_eq!(
        p.data,
        vec![
            18, 1, 0, 0, 0, 0, 0, 0, 0, 100, 7, b'd', b'e', b'f', b'a', b'u', b'l', b't', 0
        ]
    );
}

#[test]
fn join_game_switches_to_play() {
    let state = login_state();
    let p = JoinGamePacketBuilder::new().finish(String::from("p"), &state);
    let s = p.state.expect("a join game packet carries the connection state");
    assert_eq!(s.state, 3);
    assert_eq!(s.protocol, Some(47));
    assert_eq!(s.username.as_deref(), Some("Steve"));
    // The state given is left as it was.
    assert_eq!(state.state, 2);
}

#[test]
fn join_game_entity_id_in_play() {
    let state = ConnState { state: 0, protocol: None, username: None };
    let p = JoinGamePacketBuilder::new().entity_id(0x01020304).finish(String::from("p"), &state);
    assert_eq!(
        p.data,
        vec![
            18, 1, 1, 2, 3, 4, 0, 0, 0, 100, 7, b'd', b'e', b'f', b'a', b'u', b'l', b't', 0
        ]
    );
    let s = p.state.unwrap();
    assert_eq!(s.state, 3);
    assert_eq!(s.protocol, None);
    assert_eq!(s.username, None);
}

#[test]
fn join_game_fields() {
    let p = JoinGamePacketBuilder::new()
        .entity_id(0x01020304)
        .gamemode(1)
        .gamemode(6)
        .hardcore()
        .dimension(1)
        .difficulty(2)
        .max_players(20)
        .level_type(String::from("flat"))
        .reduced_debug_info(true)
        .finish(String::from("p"), &login_state());
    assert_eq!(p.state.unwrap().state, 3);
    // Game mode: 1, then 6 & 3 = 2 added, then the hardcore bit: 7.
    assert_eq!(
        p.data,
        vec![15, 1, 1, 2, 3, 4, 7, 1, 2, 20, 4, b'f', b'l', b'a', b't', 1]
    );
}
