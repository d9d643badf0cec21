use sony_headphones_tray::profile::Profile;
use sony_headphones_tray::signal::{connection_change, BluezSignal, PropertiesChanged, Reaction};
use sony_headphones_tray::tray::SonyTray;
use std::collections::HashMap;
use zbus::zvariant::{Endian, Fd, OwnedFd, Value};
use zbus::Message;

const PATH: &str = "/org/bluez/hci0/dev_88_C9_E8_60_6F_D9";

fn tray(connected: bool) -> SonyTray {
    SonyTray::new(
        "88:C9:E8:60:6f:D9".to_string(),
        Profile::NoiseCancelling,
        vec![],
        0,
        connected,
        true,
    )
}

fn signal_on(path: &str, interface: &str, changed: &[(&str, Value<'static>)], endian: Endian) -> BluezSignal {
    let mut map: HashMap<&str, Value<'static>> = HashMap::new();
    for (name, value) in changed {
        map.insert(name, value.try_clone().unwrap());
    }
    let none: Vec<&str> = Vec::new();
    let msg = Message::signal(path, "org.freedesktop.DBus.Properties", "PropertiesChanged")
        .unwrap()
        .endian(endian)
        .build(&(interface, map, none))
        .unwrap();
    read_message(&msg)
}

fn read_message(msg: &Message) -> BluezSignal {
    let body = msg.body();
    BluezSignal {
        path: msg.header().path().map(|p| p.as_str().to_string()),
        big_endian: matches!(body.data().context().endian(), Endian::Big),
        signature: body.signature().to_string(),
        body: body.data().bytes().to_vec(),
        fds: body.data().fds().iter().map(|fd| OwnedFd::from(fd.try_to_owned().unwrap())).collect(),
    }
}

fn signal(connected: bool) -> BluezSignal {
    signal_on(
        PATH,
        "org.bluez.Device1",
        &[("Connected", Value::from(connected)), ("RSSI", Value::from(-40i16))],
        Endian::Little,
    )
}

#[test]
fn a_connection_applies_the_profile() {
    let mut t = tray(false);
    match t.handle_bluez_signal(&signal(true)) {
        Reaction::Connected(Some(job)) => {
            assert_eq!(job.mac, "88:C9:E8:60:6f:D9");
            assert_eq!(job.profile, Profile::NoiseCancelling);
        }
        other => panic!("{other:?}"),
    }
    assert!(t.state.connected);
    assert_eq!(t.state.msg, "Conectado, aplicando Cancelación de ruido…");
    assert!(matches!(t.handle_bluez_signal(&signal(true)), Reaction::Ignored));
    assert_eq!(t.state.msg, "Conectado, aplicando Cancelación de ruido…");
}

#[test]
fn a_connection_is_only_noted_if_nothing_is_to_be_applied() {
    let mut t = tray(false);
    t.state.auto_apply = false;
    assert!(matches!(t.handle_bluez_signal(&signal(true)), Reaction::Connected(None)));
    assert!(t.state.connected);
    assert_eq!(t.state.msg, "Dispositivo conectado");
}

#[test]
fn a_lost_connection_is_notified() {
    let mut t = tray(true);
    match t.handle_bluez_signal(&signal(false)) {
        Reaction::Disconnected(body) => assert_eq!(body, "Auriculares desconectados"),
        other => panic!("{other:?}"),
    }
    assert!(!t.state.connected);
    assert_eq!(t.state.msg, "Dispositivo desconectado");
    assert!(matches!(t.handle_bluez_signal(&signal(false)), Reaction::Ignored));
}

#[test]
fn the_byte_order_of_a_message_is_respected() {
    let mut t = tray(false);
    let s = signal_on(PATH, "org.bluez.Device1", &[("Connected", Value::from(true))], Endian::Big);
    assert!(s.big_endian);
    assert!(matches!(t.handle_bluez_signal(&s), Reaction::Connected(Some(_))));
    let mut wrong = signal(true);
    wrong.big_endian = true;
    assert!(matches!(tray(false).handle_bluez_signal(&wrong), Reaction::Ignored));
}

#[test]
fn everything_else_is_ignored() {
    let yes = [("Connected", Value::from(true))];
    let other_device = signal_on(
        "/org/bluez/hci0/dev_00_00_00_00_00_00",
        "org.bluez.Device1",
        &yes,
        Endian::Little,
    );
    let adapter = signal_on("/org/bluez/hci0", "org.bluez.Device1", &yes, Endian::Little);
    let interface = signal_on(PATH, "org.bluez.Battery1", &yes, Endian::Little);
    let missing =
        signal_on(PATH, "org.bluez.Device1", &[("Paired", Value::from(true))], Endian::Little);
    let not_bool =
        signal_on(PATH, "org.bluez.Device1", &[("Connected", Value::from(1u32))], Endian::Little);
    let mut no_path = signal(true);
    no_path.path = None;
    let mut truncated = signal(true);
    truncated.body.truncate(10);
    let mut empty = signal(true);
    empty.body.clear();
    let mut signature = signal(true);
    signature.signature = "s".to_string();
    let mut nonsense = signal(true);
    nonsense.signature = "?".to_string();
    for s in [
        other_device, adapter, interface, missing, not_bool, no_path, truncated, empty, signature,
        nonsense,
    ] {
        let mut t = tray(false);
        assert!(matches!(t.handle_bluez_signal(&s), Reaction::Ignored));
        assert!(!t.state.connected);
        assert_eq!(t.state.msg, "Listo (88:C9:E8:60:6f:D9)");
    }
}

#[test]
fn a_file_descriptor_beside_the_connection_is_read() {
    let stdin = std::io::stdin();
    let fd = Fd::from(&stdin).try_to_owned().unwrap();
    let mut s = signal_on(
        PATH,
        "org.bluez.Device1",
        &[("Handle", Value::from(fd)), ("Connected", Value::from(true))],
        Endian::Little,
    );
    assert_eq!(s.fds.len(), 1);
    assert!(matches!(tray(false).handle_bluez_signal(&s), Reaction::Connected(Some(_))));
    s.fds.clear();
    assert!(matches!(tray(false).handle_bluez_signal(&s), Reaction::Ignored));
}

#[test]
fn a_file_descriptor_that_nothing_refers_to_changes_nothing() {
    let stdin = std::io::stdin();
    let mut s = signal(true);
    assert!(s.fds.is_empty());
    s.fds.push(OwnedFd::from(Fd::from(&stdin).try_to_owned().unwrap()));
    assert!(matches!(tray(false).handle_bluez_signal(&s), Reaction::Connected(Some(_))));
}

#[test]
fn changed_properties_are_told_with_their_object() {
    let read = |connected: bool| {
        Some(PropertiesChanged {
            interface: "org.bluez.Device1".to_string(),
            changed: vec![("Connected".to_string(), Some(connected))],
        })
    };
    let own = Some("/org/bluez/hci0/dev_88_c9_E8_60_6F_d9".to_string());
    let other = Some("/org/bluez/hci0/dev_88_c9_E8_60_6F_d8".to_string());
    let mut t = tray(false);
    assert!(matches!(t.properties_changed(&None, &read(true)), Reaction::Ignored));
    assert!(matches!(t.properties_changed(&own, &None), Reaction::Ignored));
    assert!(matches!(t.properties_changed(&other, &read(true)), Reaction::Ignored));
    assert!(matches!(t.properties_changed(&own, &read(false)), Reaction::Ignored));
    assert!(matches!(t.properties_changed(&own, &read(true)), Reaction::Connected(Some(_))));
    assert!(matches!(t.properties_changed(&own, &read(false)), Reaction::Disconnected(_)));
}

#[test]
fn both_forms_of_a_signature_are_read() {
    let mut s = signal(true);
    s.signature = "sa{sv}as".to_string();
    assert!(matches!(tray(false).handle_bluez_signal(&s), Reaction::Connected(Some(_))));
    s.signature = "(sa{sv}as)".to_string();
    assert!(matches!(tray(false).handle_bluez_signal(&s), Reaction::Connected(Some(_))));
}

#[test]
fn the_connection_stands_among_the_changed_properties() {
    let read = |interface: &str, changed: &[(&str, Option<bool>)]| PropertiesChanged {
        interface: interface.to_string(),
        changed: changed.iter().map(|(n, v)| (n.to_string(), *v)).collect(),
    };
    let device = "org.bluez.Device1";
    assert_eq!(
        connection_change(&read(device, &[("Paired", Some(false)), ("Connected", Some(true))])),
        Some(true)
    );
    assert_eq!(
        connection_change(&read(device, &[("Connected", Some(true)), ("Paired", Some(false))])),
        Some(true)
    );
    assert_eq!(connection_change(&read(device, &[("Connected", None)])), None);
    assert_eq!(connection_change(&read(device, &[])), None);
    assert_eq!(connection_change(&read("x", &[("Connected", Some(true))])), None);
}

#[test]
fn addresses_are_compared_in_lower_case() {
    let mut t = tray(false);
    assert!(matches!(t.connection_changed("a", "b", true), Reaction::Ignored));
    assert!(matches!(t.connection_changed("a", "a", false), Reaction::Ignored));
    assert!(matches!(t.connection_changed("a", "a", true), Reaction::Connected(Some(_))));
    assert!(matches!(t.connection_changed("a", "a", false), Reaction::Disconnected(_)));
}
