use crust::server::clients::{ClientRecord, Clients};
use crust::util::version::from_protocol;

fn record(locale: &str, username: &str) -> ClientRecord {
    ClientRecord {
        version: from_protocol(47).unwrap(),
        locale: String::from(locale),
        username: String::from(username),
    }
}

#[test]
fn insert_then_read() {
    let mut clients = Clients::new();
    let a = String::from("a");
    let b = String::from("b");
    assert!(!clients.contains_key(&a));
    clients.insert(a.clone(), record("en_US", "alice"));
    assert!(clients.contains_key(&a));
    assert!(!clients.contains_key(&b));
    assert_eq!(clients.property(&a, "username"), Some(String::from("alice")));
    assert_eq!(clients.property(&a, "locale"), Some(String::from("en_US")));
    assert_eq!(clients.property(&a, "color"), Some(String::new()));
    assert_eq!(clients.property(&b, "username"), None);
}

#[test]
fn insert_replaces() {
    let mut clients = Clients::new();
    let a = String::from("a");
    clients.insert(a.clone(), record("en_US", "alice"));
    clients.insert(String::from("b"), record("fr_FR", "bob"));
    clients.insert(a.clone(), record("de_DE", "alice2"));
    assert_eq!(clients.property(&a, "username"), Some(String::from("alice2")));
    assert_eq!(clients.property(&String::from("b"), "locale"), Some(String::from("fr_FR")));
    let mut ids = clients.process_ids();
    ids.sort();
    assert_eq!(ids, vec![String::from("a"), String::from("b")]);
}
