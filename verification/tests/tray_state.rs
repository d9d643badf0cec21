use sony_headphones_tray::monitor::{Monitor, MonitorEvent, MonitorPhase};
use sony_headphones_tray::profile::Profile;
use sony_headphones_tray::session::SendAction;
use sony_headphones_tray::startup::{detect_device, device_search, mac_from_args, Detection};
use sony_headphones_tray::tray::{SonyTray, State};

const SECOND: u128 = 1_000_000_000;
const LIST: &[u8] = b"Device AA:01 Sony A\nDevice AA:02 WH-1000XM4\n";

fn pair(mac: &str, name: &str) -> (String, String) {
    (mac.to_string(), name.to_string())
}

fn tray(mac: &str, connected: bool) -> SonyTray {
    SonyTray::new(mac.to_string(), Profile::NoiseCancelling, vec![], 0, connected, true)
}

#[test]
fn the_first_message_tells_the_situation() {
    assert_eq!(tray("", true).state.msg, "Sin MAC: elige dispositivo en el menú");
    assert_eq!(tray(" ", false).state.msg, "Sin MAC: elige dispositivo en el menú");
    assert_eq!(tray("AA:01", true).state.msg, "Conectado");
    assert_eq!(tray("AA:01", false).state.msg, "Listo (AA:01)");
    assert_eq!(tray("AA:01", false).state.devices_fetched_at, Some(0));
}

#[test]
fn a_refresh_lists_the_devices_or_says_there_are_none() {
    let mut t = tray("AA:01", false);
    t.refresh_devices(Some(LIST), 7);
    assert_eq!(t.state.devices, vec![pair("AA:01", "Sony A"), pair("AA:02", "WH-1000XM4")]);
    assert_eq!(t.state.devices_fetched_at, Some(7));
    assert_eq!(t.state.msg, "Listo (AA:01)");
    t.refresh_devices(None, 8);
    assert!(t.state.devices.is_empty());
    assert_eq!(t.state.msg, "No se encontró ningún auricular Sony pareado");
    let mut quiet = tray("AA:01", false);
    quiet.store_devices(None, 9);
    assert_eq!(quiet.state.msg, "Listo (AA:01)");
    assert_eq!(quiet.state.devices_fetched_at, Some(9));
}

#[test]
fn a_list_is_fresh_for_six_seconds() {
    let mut t = tray("AA:01", false);
    t.store_devices(Some(LIST), 10 * SECOND);
    assert!(t.menu_about_to_show(10 * SECOND).is_none());
    assert!(t.menu_about_to_show(16 * SECOND - 1).is_none());
    assert!(t.menu_about_to_show(0).is_none());
    let run = t.menu_about_to_show(16 * SECOND).unwrap();
    assert_eq!(run.program, "bluetoothctl");
    assert_eq!(run.args, vec!["devices"]);
    t.state.devices_fetched_at = None;
    assert!(t.menu_about_to_show(0).is_some());
}

#[test]
fn a_chosen_profile_is_kept_and_sent() {
    let mut t = tray("88:C9:E8:60:6F:D9", false);
    let change = t.set_profile("/d", Profile::AmbientSound);
    assert_eq!(t.state.profile, Profile::AmbientSound);
    assert_eq!(t.state.msg, "Enviando Sonido ambiente…");
    assert_eq!(change.save.path, "/d/profile");
    assert_eq!(change.save.contents, "ambient-sound\n");
    let send = change.send.unwrap();
    assert_eq!(send.mac, "88:C9:E8:60:6F:D9");
    assert_eq!(send.profile, Profile::AmbientSound);
    assert!(matches!(send.action(), SendAction::Search(_)));
    assert_eq!(t.profile_sent(Profile::AmbientSound, Ok(())), "Sonido ambiente ✓");
    assert_eq!(t.state.msg, "Sonido ambiente ✓");
    assert_eq!(t.profile_sent(Profile::NoAnc, Err("x".to_string())), "Error: x");
    assert_eq!(t.state.msg, "Error: x");
}

#[test]
fn a_profile_without_a_device_is_only_kept() {
    let mut t = tray(" ", false);
    let change = t.select_profile("/d", 9);
    assert_eq!(t.state.profile, Profile::NoAnc);
    assert_eq!(t.state.msg, "Configura la MAC del dispositivo");
    assert_eq!(change.save.contents, "disable\n");
    assert!(change.send.is_none());
}

#[test]
fn the_current_profile_is_sent_again() {
    let mut t = tray("AA:01", false);
    t.select_profile("/d", 1);
    let change = t.resend_profile("/d");
    assert_eq!(t.state.profile, Profile::WindNoiseCancelling);
    assert_eq!(change.send.unwrap().profile, Profile::WindNoiseCancelling);
}

#[test]
fn a_chosen_device_is_kept() {
    let mut t = tray("", false);
    t.refresh_devices(Some(LIST), 0);
    let save = t.select_device("/d", 1).unwrap();
    assert_eq!(t.state.mac, "AA:02");
    assert_eq!(t.state.msg, "MAC guardada: AA:02");
    assert_eq!(save.path, "/d/mac");
    assert_eq!(save.contents, "AA:02\n");
    assert!(t.select_device("/d", 2).is_none());
    assert_eq!(t.state.mac, "AA:02");
    assert_eq!(t.state.msg, "MAC guardada: AA:02");
}

#[test]
fn the_profile_is_applied_only_if_wanted_and_possible() {
    assert!(tray("", true).apply_profile_on_connect().is_none());
    assert!(tray("AA:01", false).apply_profile_on_connect().is_none());
    let mut off = tray("AA:01", true);
    off.state.auto_apply = false;
    assert!(off.apply_profile_on_connect().is_none());
    assert_eq!(off.state.msg, "Conectado");
    let mut t = tray("AA:01", true);
    let job = t.apply_profile_on_connect().unwrap();
    assert_eq!(job.mac, "AA:01");
    assert_eq!(job.profile, Profile::NoiseCancelling);
    assert_eq!(t.state.msg, "Conectado, aplicando Cancelación de ruido…");
    assert_eq!(
        t.profile_applied(job.profile, Ok(())),
        "Cancelación de ruido aplicado al conectar ✓"
    );
    assert_eq!(
        t.profile_applied(job.profile, Err("x".to_string())),
        "Conectado, pero no se pudo aplicar el perfil: x"
    );
    assert_eq!(t.state.msg, "Conectado, pero no se pudo aplicar el perfil: x");
}

#[test]
fn the_automatic_application_is_chosen_by_position() {
    let mut t = tray("AA:01", true);
    let (file, job) = t.select_auto_apply("/d", 1);
    assert!(!t.state.auto_apply);
    assert_eq!(file.contents, "0\n");
    assert!(job.is_none());
    let (file, job) = t.select_auto_apply("/d", 0);
    assert!(t.state.auto_apply);
    assert_eq!(file.path, "/d/autoapply");
    assert_eq!(file.contents, "1\n");
    assert_eq!(job.unwrap().mac, "AA:01");
}

#[test]
fn the_configuration_is_shown() {
    let mut t = tray(" ", false);
    let text = "MAC no configurada: ponla en /d/mac o elige el dispositivo en el menú";
    assert_eq!(t.show_config("/d", &vec![]), text);
    assert_eq!(t.state.msg, text);
    let mut t = tray("AA:01", false);
    assert_eq!(
        t.show_config("/d", &vec![pair("AA:01", "Sony A")]),
        "Dispositivo actual: Sony A\nMAC: AA:01"
    );
    assert_eq!(t.show_config("/d", &vec![]), "Dispositivo actual: AA:01\nMAC: AA:01");
}

#[test]
fn devices_are_listed_only_where_they_are_needed() {
    let run = tray("AA:01", false).config_about_to_show().unwrap();
    assert_eq!(run.program, "bluetoothctl");
    assert_eq!(run.args, vec!["devices"]);
    assert!(tray(" ", false).config_about_to_show().is_none());
    let run = device_search(" ").unwrap();
    assert_eq!(run.program, "bluetoothctl");
    assert_eq!(run.args, vec!["devices"]);
    assert!(device_search("AA:01").is_none());
}

#[test]
fn the_profile_is_applied_at_the_start_if_connected() {
    assert!(tray("AA:01", true).apply_at_start().is_some());
    assert!(tray("AA:01", false).apply_at_start().is_none());
    let mut blank = tray(" ", true);
    assert!(blank.apply_at_start().is_none());
    assert!(blank.apply_profile_on_connect().is_some());
}

#[test]
fn the_option_comes_before_the_configuration() {
    let args = |list: &[&str]| list.iter().map(|a| a.to_string()).collect::<Vec<String>>();
    assert_eq!(mac_from_args("AA".to_string(), &args(&["x", "--mac", "BB", "--mac", "CC"])), "BB");
    assert_eq!(mac_from_args("AA".to_string(), &args(&["--mac"])), "AA");
    assert_eq!(mac_from_args("AA".to_string(), &args(&["--mac=BB"])), "AA");
    assert_eq!(mac_from_args("AA".to_string(), &args(&["--mac", "--mac"])), "--mac");
    assert_eq!(mac_from_args("AA".to_string(), &args(&[])), "AA");
}

#[test]
fn the_only_paired_device_is_taken() {
    let one = vec![pair("AA:01", "Sony A")];
    let two = vec![pair("AA:01", "Sony A"), pair("AA:02", "Sony B")];
    assert!(matches!(detect_device("BB:01", &one, "/d"), Detection::Configured));
    match detect_device(" ", &one, "/d") {
        Detection::Adopted(mac, notice) => {
            assert_eq!(mac, "AA:01");
            assert_eq!(notice, "Dispositivo detectado automáticamente: Sony A (AA:01)");
        }
        other => panic!("{other:?}"),
    }
    match detect_device("", &vec![], "/d") {
        Detection::Warning(text) => assert_eq!(
            text,
            "Aviso: no hay MAC configurada ni auricular Sony pareado detectado.\n  Empareja los auriculares o pon la MAC en /d /mac\n  También puedes elegirla desde el menú de la bandeja"
        ),
        other => panic!("{other:?}"),
    }
    match detect_device("", &two, "/d") {
        Detection::Warning(text) => assert_eq!(
            text,
            "Se encontraron varios dispositivos Sony: elige el dispositivo desde el menú de la bandeja."
        ),
        other => panic!("{other:?}"),
    }
}

#[test]
fn the_monitor_warns_once() {
    let mut m = Monitor::new(false);
    let step = m.advance(MonitorEvent::Joined(Err("sin bus".to_string())));
    assert_eq!(step.lines, vec!["Monitor de conexión BlueZ no disponible: sin bus"]);
    assert_eq!(m.phase, MonitorPhase::Resting);
    assert!(m.advance(MonitorEvent::Rested(false)).lines.is_empty());
    assert_eq!(m.phase, MonitorPhase::Joining);
    assert!(m.advance(MonitorEvent::Joined(Err("otra vez".to_string()))).lines.is_empty());
    m.advance(MonitorEvent::Rested(false));
    m.advance(MonitorEvent::Joined(Ok(())));
    assert_eq!(m.phase, MonitorPhase::Listening);
    let step = m.advance(MonitorEvent::Broken(false, "roto".to_string()));
    assert_eq!(step.lines, vec!["Error al leer señal BlueZ: roto"]);
    assert_eq!(m.phase, MonitorPhase::Resting);
}

#[test]
fn the_monitor_reports_a_broken_message_and_warns() {
    let mut m = Monitor::new(false);
    m.advance(MonitorEvent::Joined(Ok(())));
    assert!(m.advance(MonitorEvent::Message(false)).handle);
    assert!(m.advance(MonitorEvent::Message(false)).handle);
    let step = m.advance(MonitorEvent::Broken(false, "roto".to_string()));
    assert_eq!(
        step.lines,
        vec!["Error al leer señal BlueZ: roto", "Monitor de conexión BlueZ no disponible: roto"]
    );
    assert!(!step.handle);
}

#[test]
fn the_monitor_stops_with_the_program() {
    assert_eq!(Monitor::new(true).phase, MonitorPhase::Stopped);
    let mut m = Monitor::new(false);
    m.advance(MonitorEvent::Joined(Ok(())));
    assert!(!m.advance(MonitorEvent::Message(true)).handle);
    assert_eq!(m.phase, MonitorPhase::Resting);
    m.advance(MonitorEvent::Rested(true));
    assert_eq!(m.phase, MonitorPhase::Stopped);
    assert!(!m.advance(MonitorEvent::Message(false)).handle);
    m.advance(MonitorEvent::Rested(false));
    assert_eq!(m.phase, MonitorPhase::Stopped);
    let mut m = Monitor::new(false);
    m.advance(MonitorEvent::Joined(Ok(())));
    assert!(m.advance(MonitorEvent::Broken(true, "x".to_string())).lines.is_empty());
    let mut m = Monitor::new(false);
    m.advance(MonitorEvent::Joined(Ok(())));
    m.advance(MonitorEvent::NoMore);
    assert_eq!(m.phase, MonitorPhase::Resting);
    assert!(!m.warned);
}

#[test]
fn a_state_is_made_of_plain_values() {
    let state = State {
        mac: "AA:01".to_string(),
        profile: Profile::NoAnc,
        msg: "hola".to_string(),
        devices: vec![],
        devices_fetched_at: None,
        connected: true,
        auto_apply: true,
    };
    let mut t = SonyTray { state };
    assert_eq!(t.apply_profile_on_connect().unwrap().profile, Profile::NoAnc);
}
