use dbus_proxy::proxy::{GetPropertyOutcome, Proxy};
use dbus_proxy::value::Value;
use dbus_proxy::Error;

fn cached_proxy() -> Proxy {
    let mut p = Proxy::new(true, "org.example.Svc", "/org/example/Obj", "org.example.Iface")
        .unwrap();
    let seed = vec![
        ("A".to_string(), Value::U64(1)),
        ("B".to_string(), Value::Str("x".to_string())),
    ];
    p.cache_properties(Some(&seed));
    p
}

#[test]
fn property_cache_seeding() {
    let p = cached_proxy();
    assert!(p.has_cached_properties());
    assert_eq!(p.cached_property("A"), Some(Value::U64(1)));
    assert_eq!(p.cached_property("B"), Some(Value::Str("x".to_string())));
    assert_eq!(p.cached_property("C"), None);
}

#[test]
fn cache_invalidation_wakes_streams() {
    let mut p = cached_proxy();
    let stream = p.receive_property_stream("A");
    assert_eq!(stream.current(&p), Some(Value::U64(1)));
    let calls = p.handle_properties_changed("org.example.Iface", &vec![], &vec!["A".to_string()]);
    assert_eq!(p.cached_property("A"), None);
    assert_eq!(stream.current(&p), None);
    assert!(calls.is_empty());
}

#[test]
fn cache_consistency_last_write_wins() {
    let mut p = cached_proxy();
    p.handle_properties_changed(
        "org.example.Iface",
        &vec![("A".to_string(), Value::U64(2))],
        &vec![],
    );
    p.handle_properties_changed(
        "org.example.Iface",
        &vec![("A".to_string(), Value::U64(3)), ("C".to_string(), Value::Bool(true))],
        &vec!["B".to_string()],
    );
    assert_eq!(p.cached_property("A"), Some(Value::U64(3)));
    assert_eq!(p.cached_property("B"), None);
    assert_eq!(p.cached_property("C"), Some(Value::Bool(true)));
    p.handle_properties_changed("org.example.Iface", &vec![], &vec!["A".to_string()]);
    assert_eq!(p.cached_property("A"), None);
}

#[test]
fn other_interface_is_dropped() {
    let mut p = cached_proxy();
    let calls = p.handle_properties_changed(
        "org.example.Other",
        &vec![("A".to_string(), Value::U64(9))],
        &vec![],
    );
    assert!(calls.is_empty());
    assert_eq!(p.cached_property("A"), Some(Value::U64(1)));
}

#[test]
fn callback_exhaustiveness() {
    let mut p = cached_proxy();
    let id1 = p.connect_property_changed("A").unwrap();
    let id2 = p.connect_property_changed("A").unwrap();
    let _other = p.connect_property_changed("B").unwrap();
    let calls = p.handle_properties_changed(
        "org.example.Iface",
        &vec![("A".to_string(), Value::U64(7))],
        &vec![],
    );
    assert_eq!(calls.len(), 2);
    assert!(calls.iter().all(|c| c.name == "A" && c.value == Some(Value::U64(7))));
    let inval = p.handle_properties_changed("org.example.Iface", &vec![], &vec!["A".to_string()]);
    assert_eq!(inval.len(), 2);
    assert!(inval.iter().all(|c| c.name == "A" && c.value == None));
    assert!(p.disconnect_property_changed(id1));
    assert!(p.disconnect_property_changed(id2));
    let after = p.handle_properties_changed(
        "org.example.Iface",
        &vec![("A".to_string(), Value::U64(8))],
        &vec![],
    );
    assert!(after.is_empty());
}

#[test]
fn disconnect_property_changed_idempotence() {
    let mut p = cached_proxy();
    let id = p.connect_property_changed("A").unwrap();
    assert!(p.disconnect_property_changed(id));
    assert!(!p.disconnect_property_changed(id));
}

#[test]
fn connect_property_changed_needs_cache() {
    let mut p = Proxy::new(true, "org.example.Svc", "/org/example/Obj", "org.example.Iface")
        .unwrap();
    assert_eq!(p.connect_property_changed("A").unwrap_err(), Error::Unsupported);
}

#[test]
fn get_property_uses_the_cache() {
    let mut p = cached_proxy();
    assert_eq!(p.get_property("A", None), GetPropertyOutcome::Cached(Value::U64(1)));
    assert_eq!(p.get_property("C", None), GetPropertyOutcome::NeedFetch);
    assert_eq!(
        p.get_property("C", Some(Value::U64(5))),
        GetPropertyOutcome::Fetched(Value::U64(5))
    );
    assert_eq!(p.get_property("C", None), GetPropertyOutcome::Cached(Value::U64(5)));
}

#[test]
fn get_property_without_cache_never_stores() {
    let mut p = Proxy::new(true, "org.example.Svc", "/org/example/Obj", "org.example.Iface")
        .unwrap();
    assert_eq!(p.get_property("A", None), GetPropertyOutcome::NeedFetch);
    assert_eq!(
        p.get_property("A", Some(Value::U64(4))),
        GetPropertyOutcome::Fetched(Value::U64(4))
    );
    assert_eq!(p.cached_property("A"), None);
    assert_eq!(p.get_property("A", None), GetPropertyOutcome::NeedFetch);
}

#[test]
fn seeding_overwrites_raced_values() {
    let mut p = Proxy::new(true, "org.example.Svc", "/org/example/Obj", "org.example.Iface")
        .unwrap();
    p.cache_properties(None);
    p.handle_properties_changed(
        "org.example.Iface",
        &vec![("A".to_string(), Value::U64(9))],
        &vec![],
    );
    let seed = vec![("A".to_string(), Value::U64(1))];
    p.cache_properties(Some(&seed));
    assert_eq!(p.cached_property("A"), Some(Value::U64(1)));
}
