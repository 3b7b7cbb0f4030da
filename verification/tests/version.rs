use crust::util::version::from_protocol;

#[test]
fn known_protocols() {
    let v = from_protocol(47).unwrap();
    assert_eq!(v.clone().protocol(), 47);
    assert_eq!(v.name(), "1.8.9");
    assert_eq!(from_protocol(754).unwrap().name(), "1.16.5");
    assert_eq!(from_protocol(757).unwrap().name(), "1.18.1");
    assert_eq!(from_protocol(759).unwrap().name(), "1.19");
    assert_eq!(from_protocol(107).unwrap().name(), "1.9");
}

#[test]
fn unknown_protocols() {
    assert!(from_protocol(0).is_none());
    assert!(from_protocol(48).is_none());
    assert!(from_protocol(760).is_none());
    assert!(from_protocol(u16::MAX).is_none());
}

fn parts(name: &str) -> Vec<u32> {
    name.split('.').map(|n| n.parse().unwrap()).collect()
}

#[test]
fn releases_are_in_version_order() {
    let mut known: Vec<(u16, String)> = Vec::new();
    for p in 0..=u16::MAX {
        if let Some(v) = from_protocol(p) {
            known.push((p, v.name()));
        }
    }
    assert_eq!(known.len(), 32);
    assert_eq!(known[0], (47, String::from("1.8.9")));
    assert_eq!(known[31], (759, String::from("1.19")));
    for w in known.windows(2) {
        assert!(parts(&w[0].1) < parts(&w[1].1));
        assert_ne!(w[0].1, w[1].1);
    }
}

#[test]
fn clone_keeps_protocol_and_name() {
    let v = from_protocol(340).unwrap();
    let c = v.clone();
    assert_eq!(c.protocol(), 340);
    assert_eq!(v.name(), "1.12.2");
}
