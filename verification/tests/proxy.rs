use dbus_proxy::actions::Action;
use dbus_proxy::message::{Message, MessageKind};
use dbus_proxy::names::MemberName;
use dbus_proxy::proxy::Proxy;
use dbus_proxy::value::Value;
use dbus_proxy::Error;

fn proxy() -> Proxy {
    Proxy::new(true, "org.example.Foo.Test", "/org/example/Obj", "org.example.Iface").unwrap()
}

#[test]
fn proxy_new_validates_every_name() {
    assert!(Proxy::new(true, ":1.42", "/", "org.example.Iface").is_ok());
    assert_eq!(
        Proxy::new(true, "bad name", "/", "org.example.Iface").unwrap_err(),
        Error::TypeConversion
    );
    assert_eq!(
        Proxy::new(true, ":1.42", "no/slash", "org.example.Iface").unwrap_err(),
        Error::TypeConversion
    );
    assert_eq!(Proxy::new(true, ":1.42", "/", "nodots").unwrap_err(), Error::TypeConversion);
    let p = Proxy::new_owned(
        false,
        "org.example.Foo".to_string(),
        "/org/example".to_string(),
        "org.example.Iface".to_string(),
    )
    .unwrap();
    assert_eq!(p.destination().as_str(), "org.example.Foo");
    assert_eq!(p.path().as_str(), "/org/example");
    assert_eq!(p.interface().as_str(), "org.example.Iface");
}

#[test]
fn signal_connect() {
    // Two handlers registered for the same member get distinct IDs and
    // both stand in the registry; disconnecting is idempotent.
    let mut p = proxy();
    let member = MemberName::parse("NameAcquired").unwrap();
    let (id1, actions1) = p.connect_signal(&member);
    let (id2, actions2) = p.connect_signal(&member);
    assert_ne!(id1, id2);
    // The first registration also installs the owner tracker.
    assert_eq!(actions1.len(), 2);
    assert_eq!(actions2.len(), 1);

    assert!(p.disconnect_signal(id1).0);
    assert!(!p.disconnect_signal(id1).0);
    assert!(p.disconnect_signal(id2).0);
    assert!(!p.disconnect_signal(id2).0);
}

#[test]
fn match_rule_text() {
    let mut p = proxy();
    let member = MemberName::parse("Ping").unwrap();
    let (_id, actions) = p.connect_signal(&member);
    assert_eq!(
        actions[0],
        Action::AddMatch(
            "type='signal',sender='org.freedesktop.DBus',path='/org/freedesktop/DBus',interface='org.freedesktop.DBus',member='NameOwnerChanged',arg0='org.example.Foo.Test'".to_string()
        )
    );
    assert_eq!(
        actions[1],
        Action::AddMatch(
            "type='signal',sender='org.example.Foo.Test',path='/org/example/Obj',interface='org.example.Iface',member='Ping'".to_string()
        )
    );
}

#[test]
fn no_owner_tracking_off_bus_or_for_unique_names() {
    let mut off_bus = Proxy::new(false, "org.example.Foo", "/p/q", "org.example.Iface").unwrap();
    assert!(off_bus.destination_unique_name().is_none());
    let mut unique = Proxy::new(true, ":1.4", "/p/q", "org.example.Iface").unwrap();
    assert!(unique.destination_unique_name().is_none());
    let mut wk = proxy();
    assert!(wk.destination_unique_name().is_some());
    // Write-once: a second call installs nothing.
    assert!(wk.destination_unique_name().is_none());
}

#[test]
fn match_rule_parity_over_a_lifetime() {
    // Every rule added is removed exactly once, by disconnect, stream
    // drop or proxy drop.
    let mut added: Vec<String> = Vec::new();
    let mut removed: Vec<String> = Vec::new();
    let track = |actions: &[Action], added: &mut Vec<String>, removed: &mut Vec<String>| {
        for a in actions {
            match a {
                Action::AddMatch(e) => added.push(e.clone()),
                Action::RemoveMatch(e) => removed.push(e.clone()),
                Action::QueueRemoveMatch(e) => removed.push(e.clone()),
                Action::QueueRemoveSignalHandler(_) => {}
                Action::SendMessage(_) => {}
            }
        }
    };

    let mut p = proxy();
    let member = MemberName::parse("Ping").unwrap();
    let (id, a1) = p.connect_signal(&member);
    track(&a1, &mut added, &mut removed);
    let (stream, a2) = p.receive_signal(&member, 11);
    track(&a2, &mut added, &mut removed);

    // The stream drops: its rule is queued for removal.
    track(&[stream.teardown()], &mut added, &mut removed);
    // The handler is disconnected: the connection removes its rule.
    let (found, a3) = p.disconnect_signal(id);
    assert!(found);
    track(&a3, &mut added, &mut removed);
    // The proxy drops: the remaining handler removals (none) and the
    // owner tracker's rule are queued; each queued handler removal drops
    // that handler's rule on the connection side.
    track(&p.teardown(), &mut added, &mut removed);

    added.sort();
    removed.sort();
    assert_eq!(added, removed);
    assert_eq!(added.len(), 3);
}

#[test]
fn teardown_queues_handler_removals() {
    let mut p = proxy();
    let member = MemberName::parse("Ping").unwrap();
    let (_id1, _) = p.connect_signal(&member);
    let (_id2, _) = p.connect_signal(&member);
    let acts = p.teardown();
    let handler_removals = acts
        .iter()
        .filter(|a| matches!(a, Action::QueueRemoveSignalHandler(_)))
        .count();
    let match_removals = acts
        .iter()
        .filter(|a| matches!(a, Action::QueueRemoveMatch(_)))
        .count();
    assert_eq!(handler_removals, 2);
    assert_eq!(match_removals, 1);
}

#[test]
fn call_requests_carry_the_address() {
    let p = proxy();
    let member = MemberName::parse("Frobnicate").unwrap();
    let m = p.call_method_request(&member, 21, vec![Value::U32(5)]);
    assert_eq!(m.kind, MessageKind::MethodCall);
    assert_eq!(m.serial, 21);
    assert_eq!(m.destination.as_deref(), Some("org.example.Foo.Test"));
    assert_eq!(m.path.as_deref(), Some("/org/example/Obj"));
    assert_eq!(m.interface.as_deref(), Some("org.example.Iface"));
    assert_eq!(m.member.as_deref(), Some("Frobnicate"));
    assert!(!m.no_reply_expected);
    assert_eq!(m.body, vec![Value::U32(5)]);

    let n = p.call_noreply_request(&member, 22, vec![]);
    assert!(n.no_reply_expected);
}

#[test]
fn property_requests_use_the_properties_interface() {
    let p = proxy();
    let g = p.get_property_request("Volume", 31);
    assert_eq!(g.interface.as_deref(), Some("org.freedesktop.DBus.Properties"));
    assert_eq!(g.member.as_deref(), Some("Get"));
    assert_eq!(
        g.body,
        vec![
            Value::Str("org.example.Iface".to_string()),
            Value::Str("Volume".to_string()),
        ]
    );

    let s = p.set_property_request("Volume", Value::U32(9), 32);
    assert_eq!(s.member.as_deref(), Some("Set"));
    assert_eq!(
        s.body,
        vec![
            Value::Str("org.example.Iface".to_string()),
            Value::Str("Volume".to_string()),
            Value::U32(9),
        ]
    );

    let ga = p.get_all_request(33);
    assert_eq!(ga.member.as_deref(), Some("GetAll"));
    assert_eq!(ga.body, vec![Value::Str("org.example.Iface".to_string())]);

    let i = p.introspect_request(34);
    assert_eq!(i.interface.as_deref(), Some("org.freedesktop.DBus.Introspectable"));
    assert_eq!(i.member.as_deref(), Some("Introspect"));
    assert!(i.body.is_empty());
}

#[test]
fn replies_are_interpreted_by_kind() {
    let ok = Message::method_return(70, None, 21, vec![Value::U64(3)]);
    assert_eq!(Proxy::call_reply(ok.clone()), Ok(vec![Value::U64(3)]));
    assert_eq!(Proxy::get_property_reply(ok), Ok(Value::U64(3)));

    let mut err_reply = Message::method_return(71, None, 21, vec![]);
    err_reply.kind = MessageKind::Error;
    assert_eq!(Proxy::call_reply(err_reply.clone()), Err(Error::Method));
    assert_eq!(Proxy::get_property_reply(err_reply), Err(Error::Method));

    let two = Message::method_return(72, None, 21, vec![Value::U64(1), Value::U64(2)]);
    assert_eq!(Proxy::get_property_reply(two), Err(Error::InvalidReply));

    let xml = Message::method_return(73, None, 21, vec![Value::Str("<node/>".to_string())]);
    assert_eq!(Proxy::introspect_reply(xml), Ok("<node/>".to_string()));
    let not_str = Message::method_return(74, None, 21, vec![Value::U64(0)]);
    assert_eq!(Proxy::introspect_reply(not_str), Err(Error::InvalidReply));
}

#[test]
fn properties_proxy_cannot_recurse() {
    let p = proxy();
    let inner = p.properties_proxy().unwrap();
    assert_eq!(inner.interface().as_str(), "org.freedesktop.DBus.Properties");
    assert_eq!(inner.destination().as_str(), "org.example.Foo.Test");
    assert_eq!(inner.path().as_str(), "/org/example/Obj");
    assert!(!inner.has_cached_properties());
}

#[test]
fn value_conversions_reject_other_shapes() {
    assert_eq!(Value::U32(4).as_u32(), Ok(4));
    assert_eq!(Value::U64(4).as_u32(), Err(Error::InvalidReply));
    assert_eq!(Value::Bool(true).as_bool(), Ok(true));
    assert_eq!(Value::Str("x".to_string()).as_str(), Ok("x"));
    assert_eq!(Value::Str("x".to_string()).as_u64(), Err(Error::InvalidReply));
}
