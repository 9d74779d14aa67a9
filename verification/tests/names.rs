use dbus_proxy::names::{BusName, InterfaceName, MemberName, ObjectPath, UniqueName, WellKnownName};
use dbus_proxy::Error;

#[test]
fn unique_name_validation() {
    assert!(UniqueName::parse(":1.42").is_ok());
    assert!(UniqueName::parse(":abc.d-e.0").is_ok());
    assert_eq!(UniqueName::parse("org.example.Foo").unwrap_err(), Error::TypeConversion);
    assert_eq!(UniqueName::parse(":1").unwrap_err(), Error::TypeConversion);
    assert_eq!(UniqueName::parse(":1..2").unwrap_err(), Error::TypeConversion);
    assert_eq!(UniqueName::parse(":1.2.").unwrap_err(), Error::TypeConversion);
    assert_eq!(UniqueName::parse("").unwrap_err(), Error::TypeConversion);
}

#[test]
fn well_known_name_validation() {
    assert!(WellKnownName::parse("org.example.Foo").is_ok());
    assert!(WellKnownName::parse("org.example.Foo-Bar_2").is_ok());
    assert_eq!(WellKnownName::parse("org").unwrap_err(), Error::TypeConversion);
    assert_eq!(WellKnownName::parse("org..example").unwrap_err(), Error::TypeConversion);
    assert_eq!(WellKnownName::parse("org.2example").unwrap_err(), Error::TypeConversion);
    assert_eq!(WellKnownName::parse(".org.example").unwrap_err(), Error::TypeConversion);
    assert_eq!(WellKnownName::parse("org.example.").unwrap_err(), Error::TypeConversion);
    assert_eq!(WellKnownName::parse(":1.42").unwrap_err(), Error::TypeConversion);
}

#[test]
fn bus_name_picks_the_variant() {
    assert!(BusName::parse(":1.42").unwrap().is_unique());
    assert!(!BusName::parse("org.example.Foo").unwrap().is_unique());
    assert_eq!(BusName::parse("no-dots").unwrap_err(), Error::TypeConversion);
    assert_eq!(BusName::parse(":::").unwrap_err(), Error::TypeConversion);
}

#[test]
fn object_path_validation() {
    assert!(ObjectPath::parse("/").is_ok());
    assert!(ObjectPath::parse("/org/example/Foo").is_ok());
    assert!(ObjectPath::parse("/a_b/c0").is_ok());
    assert_eq!(ObjectPath::parse("").unwrap_err(), Error::TypeConversion);
    assert_eq!(ObjectPath::parse("org/example").unwrap_err(), Error::TypeConversion);
    assert_eq!(ObjectPath::parse("/org//example").unwrap_err(), Error::TypeConversion);
    assert_eq!(ObjectPath::parse("/org/example/").unwrap_err(), Error::TypeConversion);
    assert_eq!(ObjectPath::parse("/org/exa-mple").unwrap_err(), Error::TypeConversion);
}

#[test]
fn interface_name_validation() {
    assert!(InterfaceName::parse("org.freedesktop.DBus.Properties").is_ok());
    assert_eq!(InterfaceName::parse("Properties").unwrap_err(), Error::TypeConversion);
    assert_eq!(InterfaceName::parse("org.free-desktop.DBus").unwrap_err(), Error::TypeConversion);
    assert_eq!(InterfaceName::parse("org.3d.Iface").unwrap_err(), Error::TypeConversion);
}

#[test]
fn member_name_validation() {
    assert!(MemberName::parse("NameOwnerChanged").is_ok());
    assert!(MemberName::parse("Get_2").is_ok());
    assert_eq!(MemberName::parse("").unwrap_err(), Error::TypeConversion);
    assert_eq!(MemberName::parse("2Fast").unwrap_err(), Error::TypeConversion);
    assert_eq!(MemberName::parse("Name.Owner").unwrap_err(), Error::TypeConversion);
    let long = "a".repeat(256);
    assert_eq!(MemberName::parse(&long).unwrap_err(), Error::TypeConversion);
}

#[test]
fn parsed_names_keep_their_text() {
    assert_eq!(BusName::parse("org.example.Foo").unwrap().as_str(), "org.example.Foo");
    assert_eq!(ObjectPath::parse("/org/example").unwrap().as_str(), "/org/example");
    assert_eq!(InterfaceName::parse("org.example.Iface").unwrap().as_str(), "org.example.Iface");
    assert_eq!(MemberName::parse("Ping").unwrap().as_str(), "Ping");
}
