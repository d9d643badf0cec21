use sony_headphones_tray::command::{
    about_text, device_description, device_list, notify, notify_again, open_url, service_search,
    show_about, Invocation,
};
use sony_headphones_tray::profile::{build_packet, Profile};
use sony_headphones_tray::session::{
    Retry, RetryAction, SendAction, SendEvent, Transmission,
};

const MAC: &str = "88:C9:E8:60:6F:D9";

fn assert_runs(run: &Invocation, program: &str, args: &[&str]) {
    assert_eq!(run.program, program);
    assert_eq!(run.args, args.to_vec());
}

fn finished(t: &Transmission) -> Result<(), String> {
    match t.action() {
        SendAction::Finish(outcome) => outcome,
        other => panic!("not finished: {other:?}"),
    }
}

fn connecting() -> Transmission {
    let mut t = Transmission::new(MAC, Profile::AmbientSound);
    match t.action() {
        SendAction::Search(run) => assert_runs(
            &run,
            "sdptool",
            &["search", "--uuid", "96cc203e-5068-46ad-b32d-e316f5e069ba", MAC],
        ),
        other => panic!("{other:?}"),
    }
    t.advance(SendEvent::Searched(Some(b"Channel: 14\n".to_vec())));
    assert!(matches!(t.action(), SendAction::OpenSocket));
    t.advance(SendEvent::Opened(Ok(())));
    match t.action() {
        SendAction::Connect(target) => {
            assert_eq!(target.address, [0xd9, 0x6f, 0x60, 0xe8, 0xc9, 0x88]);
            assert_eq!(target.channel, 14);
        }
        other => panic!("{other:?}"),
    }
    t
}

#[test]
fn a_profile_is_sent() {
    let mut t = connecting();
    t.advance(SendEvent::Connected(true));
    match t.action() {
        SendAction::Send(packet) => assert_eq!(packet, build_packet(Profile::AmbientSound)),
        other => panic!("{other:?}"),
    }
    t.advance(SendEvent::Sent(true));
    assert!(matches!(t.action(), SendAction::CloseSocket));
    t.advance(SendEvent::Closed("ignored".to_string()));
    assert_eq!(finished(&t), Ok(()));
    t.advance(SendEvent::Sent(false));
    assert_eq!(finished(&t), Ok(()));
}

#[test]
fn a_device_out_of_reach_is_reported_after_closing() {
    let mut t = connecting();
    t.advance(SendEvent::Connected(false));
    assert!(matches!(t.action(), SendAction::CloseSocket));
    t.advance(SendEvent::Closed("Host is down".to_string()));
    assert_eq!(
        finished(&t),
        Err("No se pudo conectar (88:C9:E8:60:6F:D9:14): Host is down".to_string())
    );
}

#[test]
fn a_packet_that_is_not_sent_is_reported_after_closing() {
    let mut t = connecting();
    t.advance(SendEvent::Connected(true));
    t.advance(SendEvent::Sent(false));
    assert!(matches!(t.action(), SendAction::CloseSocket));
    t.advance(SendEvent::Closed("Broken pipe".to_string()));
    assert_eq!(finished(&t), Err("Fallo al enviar: Broken pipe".to_string()));
}

#[test]
fn a_socket_that_cannot_be_opened_is_reported() {
    let mut t = Transmission::new(MAC, Profile::NoAnc);
    t.advance(SendEvent::Searched(None));
    t.advance(SendEvent::Opened(Err("EPERM".to_string())));
    assert_eq!(
        finished(&t),
        Err("No se pudo crear socket: EPERM, ¿probarás con Bluetooth activo?".to_string())
    );
}

#[test]
fn a_wrong_address_is_reported_before_a_socket_is_opened() {
    let mut t = Transmission::new("nada", Profile::NoAnc);
    t.advance(SendEvent::Searched(None));
    assert_eq!(finished(&t), Err("MAC inválida: nada".to_string()));
}

#[test]
fn events_out_of_turn_change_nothing() {
    let mut t = Transmission::new(MAC, Profile::NoAnc);
    t.advance(SendEvent::Sent(true));
    t.advance(SendEvent::Opened(Ok(())));
    t.advance(SendEvent::Closed(String::new()));
    assert!(matches!(t.action(), SendAction::Search(_)));
}

fn delay(r: &Retry) -> u64 {
    match r.action() {
        RetryAction::SendAfter(secs) => secs,
        other => panic!("{other:?}"),
    }
}

fn ended(r: &Retry) -> Result<(), String> {
    match r.action() {
        RetryAction::Finish(outcome) => outcome,
        other => panic!("{other:?}"),
    }
}

#[test]
fn three_failures_are_the_end() {
    let mut r = Retry::new();
    assert_eq!(delay(&r), 0);
    r.record(Err("uno".to_string()));
    assert_eq!(delay(&r), 2);
    r.record(Err("dos".to_string()));
    assert_eq!(delay(&r), 2);
    r.record(Err("tres".to_string()));
    assert_eq!(ended(&r), Err("tres".to_string()));
    r.record(Ok(()));
    assert_eq!(ended(&r), Err("tres".to_string()));
}

#[test]
fn the_first_success_is_the_end() {
    let mut r = Retry::new();
    r.record(Err("uno".to_string()));
    r.record(Err("dos".to_string()));
    r.record(Ok(()));
    assert_eq!(ended(&r), Ok(()));
    r.record(Err("tarde".to_string()));
    assert_eq!(ended(&r), Ok(()));
}

#[test]
fn programs_get_their_arguments() {
    assert_runs(
        &service_search("AA:01"),
        "sdptool",
        &["search", "--uuid", "96cc203e-5068-46ad-b32d-e316f5e069ba", "AA:01"],
    );
    assert_runs(&device_list(), "bluetoothctl", &["devices"]);
    assert_runs(&device_description("AA:01").unwrap(), "bluetoothctl", &["info", "AA:01"]);
    assert!(device_description(" ").is_none());
    assert_runs(&open_url("https://a.b"), "xdg-open", &["https://a.b"]);
}

#[test]
fn a_notification_that_fails_is_shown_otherwise() {
    assert_runs(&notify("t", "b"), "notify-send", &["t", "b"]);
    assert!(notify_again("t", "b", Some(true)).is_none());
    for failed in [Some(false), None] {
        assert_runs(
            &notify_again("t", "b", failed).unwrap(),
            "kdialog",
            &["--title", "t", "--passivepopup", "b", "3500"],
        );
    }
}

#[test]
fn the_window_about_the_program_shows_its_version() {
    let body = about_text("1.2.3");
    assert_eq!(
        body,
        "Sony Headphones Tray v1.2.3\n\
         \n\
         Control del modo de sonido de auriculares Sony\ndesde la bandeja de KDE.\n\
         \n\
         Compatibles (mismo protocolo RFCOMM):\n\
         WH-1000XM2/XM3/XM4 · WF-1000XM3 · WH-XB900N · WI-1000X\n\
         \n\
         Autor: TheOneProgrammer\n\
         Web: https://theoneprogrammer.com\n\
         \n\
         Código desarrollado y revisado con asistencia de IA (opencode).\n\
         Protocolo original: ClusterM / sony-headphones-control."
    );
    assert_runs(
        &show_about("1.2.3"),
        "kdialog",
        &["--title", "Acerca de Sony Headphones Tray", "--msgbox", &body],
    );
}
