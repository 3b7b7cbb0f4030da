use crust::common::config::{Config, Status};

#[test]
fn config_clone_keeps_status() {
    let config = Config { status: Status { motd: String::from("Hello"), max_players: 20 } };
    let copy = config.clone();
    assert_eq!(copy.status.motd, "Hello");
    assert_eq!(copy.status.max_players, 20);
    let status = config.status.clone();
    assert_eq!(status.motd, "Hello");
    assert_eq!(status.max_players, 20);
}
