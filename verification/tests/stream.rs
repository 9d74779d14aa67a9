use dbus_proxy::message::Message;
use dbus_proxy::names::MemberName;
use dbus_proxy::proxy::Proxy;
use dbus_proxy::value::Value;

fn well_known_proxy() -> Proxy {
    Proxy::new(true, "org.example.Foo.Test", "/org/example/Obj", "org.example.Iface").unwrap()
}

fn service_signal(member: &str, sender: &str) -> Message {
    Message::signal(
        100,
        Some(sender.to_string()),
        "/org/example/Obj".to_string(),
        "org.example.Iface".to_string(),
        member.to_string(),
        vec![Value::Str("org.example.Foo.Test".to_string())],
    )
}

fn owner_changed(name: &str, old: &str, new: &str) -> Message {
    Message::signal(
        101,
        Some("org.freedesktop.DBus".to_string()),
        "/org/freedesktop/DBus".to_string(),
        "org.freedesktop.DBus".to_string(),
        "NameOwnerChanged".to_string(),
        vec![
            Value::Str(name.to_string()),
            Value::Str(old.to_string()),
            Value::Str(new.to_string()),
        ],
    )
}

#[test]
fn signal_stream() {
    // A stream on a well-known destination resolves the owner from the
    // GetNameOwner reply, then yields exactly the matching signals.
    let mut p = well_known_proxy();
    let member = MemberName::parse("NameOwnerChanged").unwrap();
    let (mut stream, actions) = p.receive_signal(&member, 7);
    assert_eq!(actions.len(), 3);
    assert_eq!(
        stream.match_expr(),
        "type='signal',sender='org.example.Foo.Test',path='/org/example/Obj',interface='org.example.Iface',member='NameOwnerChanged'"
    );
    assert!(stream.owner_pending());
    assert_eq!(stream.current_owner(), None);

    // A signal arriving before the reply does not match (owner unknown).
    assert!(!stream.filter(&service_signal("NameOwnerChanged", ":1.42")));

    // The GetNameOwner reply resolves the owner and is not yielded.
    let reply = Message::method_return(50, None, 7, vec![Value::Str(":1.42".to_string())]);
    assert!(!stream.filter(&reply));
    assert!(!stream.owner_pending());
    assert_eq!(stream.current_owner(), Some(":1.42"));

    // Now the matching signal is yielded.
    let m = service_signal("NameOwnerChanged", ":1.42");
    assert!(stream.filter(&m));

    // Signal filter correctness: wrong path, interface, member or sender
    // never yields.
    let mut wrong_path = service_signal("NameOwnerChanged", ":1.42");
    wrong_path.path = Some("/other".to_string());
    assert!(!stream.filter(&wrong_path));
    let mut wrong_iface = service_signal("NameOwnerChanged", ":1.42");
    wrong_iface.interface = Some("org.example.Other".to_string());
    assert!(!stream.filter(&wrong_iface));
    assert!(!stream.filter(&service_signal("SomethingElse", ":1.42")));
    assert!(!stream.filter(&service_signal("NameOwnerChanged", ":1.43")));
}

#[test]
fn owner_changes_move_the_filter() {
    let mut p = well_known_proxy();
    let member = MemberName::parse("StateChanged").unwrap();
    let (mut stream, _actions) = p.receive_signal(&member, 9);
    let reply = Message::method_return(51, None, 9, vec![Value::Str(":1.1".to_string())]);
    assert!(!stream.filter(&reply));
    assert!(stream.filter(&service_signal("StateChanged", ":1.1")));

    // The destination changes hands: the bus driver says so.
    assert!(!stream.filter(&owner_changed("org.example.Foo.Test", ":1.1", ":1.2")));
    assert_eq!(stream.current_owner(), Some(":1.2"));
    assert!(!stream.filter(&service_signal("StateChanged", ":1.1")));
    assert!(stream.filter(&service_signal("StateChanged", ":1.2")));

    // The name is dropped: nothing matches any more.
    assert!(!stream.filter(&owner_changed("org.example.Foo.Test", ":1.2", "")));
    assert_eq!(stream.current_owner(), None);
    assert!(!stream.filter(&service_signal("StateChanged", ":1.2")));

    // An owner change for another name is ignored.
    assert!(!stream.filter(&owner_changed("org.example.Bar", ":1.2", ":1.3")));
    assert_eq!(stream.current_owner(), None);
}

#[test]
fn unique_destination_needs_no_query() {
    let mut p = Proxy::new(true, ":1.9", "/org/example/Obj", "org.example.Iface").unwrap();
    let member = MemberName::parse("NameAcquired").unwrap();
    let (mut stream, actions) = p.receive_signal(&member, 3);
    // No owner tracker and no GetNameOwner: just the stream's match rule.
    assert_eq!(actions.len(), 1);
    assert!(!stream.owner_pending());
    assert_eq!(stream.current_owner(), Some(":1.9"));
    // The signal fires twice; both are yielded with the name in the body.
    let first = service_signal_from_unique("NameAcquired", ":1.9");
    let second = service_signal_from_unique("NameAcquired", ":1.9");
    assert!(stream.filter(&first));
    assert!(stream.filter(&second));
    assert_eq!(first.body, vec![Value::Str("org.example.Foo.Test".to_string())]);
}

fn service_signal_from_unique(member: &str, sender: &str) -> Message {
    Message::signal(
        102,
        Some(sender.to_string()),
        "/org/example/Obj".to_string(),
        "org.example.Iface".to_string(),
        member.to_string(),
        vec![Value::Str("org.example.Foo.Test".to_string())],
    )
}

#[test]
fn receive_all_signals_has_no_member_filter() {
    let mut p = Proxy::new(true, ":1.9", "/org/example/Obj", "org.example.Iface").unwrap();
    let (mut stream, _actions) = p.receive_all_signals(4);
    assert_eq!(
        stream.match_expr(),
        "type='signal',sender=':1.9',path='/org/example/Obj',interface='org.example.Iface'"
    );
    assert!(stream.filter(&service_signal_from_unique("Anything", ":1.9")));
    assert!(stream.filter(&service_signal_from_unique("Other", ":1.9")));
}

#[test]
fn non_signals_are_dropped() {
    let mut p = Proxy::new(true, ":1.9", "/org/example/Obj", "org.example.Iface").unwrap();
    let member = MemberName::parse("Ping").unwrap();
    let (mut stream, _actions) = p.receive_signal(&member, 5);
    let stray_return = Message::method_return(60, Some(":1.9".to_string()), 999, vec![]);
    assert!(!stream.filter(&stray_return));
}

#[test]
fn malformed_owner_reply_spends_the_query() {
    let mut p = well_known_proxy();
    let member = MemberName::parse("Ping").unwrap();
    let (mut stream, _actions) = p.receive_signal(&member, 8);
    // The reply body is not a unique name: the message is dropped and the
    // query is spent, but no owner is resolved.
    let bad = Message::method_return(52, None, 8, vec![Value::U64(5)]);
    assert!(!stream.filter(&bad));
    assert!(!stream.owner_pending());
    assert_eq!(stream.current_owner(), None);
}

#[test]
fn stream_teardown_removes_its_rule() {
    let mut p = well_known_proxy();
    let member = MemberName::parse("Ping").unwrap();
    let (stream, _actions) = p.receive_signal(&member, 8);
    let expr = stream.match_expr().to_string();
    let action = stream.teardown();
    assert_eq!(action, dbus_proxy::actions::Action::QueueRemoveMatch(expr));
}
