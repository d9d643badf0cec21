use sony_headphones_tray::devices::{
    description_says_connected, device_label, find_service_channel, is_connected,
    is_supported_model, list_sony_devices, parse_device_line, parse_sony_devices, service_channel,
};

fn pair(mac: &str, name: &str) -> (String, String) {
    (mac.to_string(), name.to_string())
}

#[test]
fn parses_sony_devices_from_bluetoothctl() {
    let output = "Device C4:EF:DA:1F:33:58 CK67\n\
                  Device 88:C9:E8:60:6F:D9 WH-1000XM4\n\
                  Device 90:7F:61:39:22:42 Lenovo Active Pen2\n\
                  Device A0:1B:2C:3D:4F:60 WH-1000XM2\n\
                  Device B0:1B:2C:3D:4F:70 WH-XB900N\n\
                  Device C0:1B:2C:3D:4F:80 WI-1000X\n\
                  Device D0:1B:2C:3D:4F:90 WF-1000XM3\n";
    let found = parse_sony_devices(output);
    assert_eq!(
        found,
        vec![
            ("88:C9:E8:60:6F:D9".to_string(), "WH-1000XM4".to_string()),
            ("A0:1B:2C:3D:4F:60".to_string(), "WH-1000XM2".to_string()),
            ("B0:1B:2C:3D:4F:70".to_string(), "WH-XB900N".to_string()),
            ("C0:1B:2C:3D:4F:80".to_string(), "WI-1000X".to_string()),
            ("D0:1B:2C:3D:4F:90".to_string(), "WF-1000XM3".to_string()),
        ]
    );
    assert!(parse_sony_devices("").is_empty());
}

#[test]
fn names_are_matched_in_any_case_and_rejoined() {
    let output = "  Device  AA:01   Mis   SONY  cascos\r\n\
                  device AA:02 WH-1000XM4\n\
                  Device\n\
                  Device AA:03\n\
                  [NEW] Device AA:04 WH-1000XM4\n\
                  Device AA:05 wH-1000xM3\n\
                  Device AA:06 \u{212a} xM4";
    assert_eq!(
        parse_sony_devices(output),
        vec![
            pair("AA:01", "Mis SONY cascos"),
            pair("AA:05", "wH-1000xM3"),
            pair("AA:06", "\u{212a} xM4"),
        ]
    );
}

#[test]
fn supported_models_are_recognized() {
    for name in ["wh-1000xm2", "wh-1000xm3", "wh-1000xm4", "wf-1000xm3", "wh-xb900n", "wi-1000x"] {
        assert!(is_supported_model(name));
    }
    assert!(is_supported_model("sony"));
    assert!(!is_supported_model("WH-1000XM4"));
    assert!(!is_supported_model("wh-xb700"));
    assert!(!is_supported_model(""));
}

#[test]
fn a_line_of_the_list_has_an_address_and_a_name() {
    assert_eq!(parse_device_line("Device AA:03"), Some(pair("AA:03", "")));
    assert_eq!(parse_device_line("Device AA:03 a  b"), Some(pair("AA:03", "a b")));
    assert_eq!(parse_device_line("Device"), None);
    assert_eq!(parse_device_line("Devices AA:03 x"), None);
    assert_eq!(parse_device_line(""), None);
}

#[test]
fn a_continued_list_adds_its_devices() {
    let second = "Device AA:03 Sony B\nDevice AA:01 Sony A";
    for first in [
        "Device AA:01 Sony A\nDevice AA:02 other\n",
        "Device AA:02 other\nDevice AA:01 Sony A",
        "Device AA:02 Ñandú\nDevice AA:01 SONY A\r",
    ] {
        let mut both = parse_sony_devices(first);
        both.extend(parse_sony_devices(second));
        assert_eq!(parse_sony_devices(&format!("{first}\n{second}")), both);
        assert_eq!(both.len(), 3);
    }
    assert_eq!(parse_sony_devices(&format!("\n{second}")), parse_sony_devices(second));
}

#[test]
fn a_list_is_read_from_bytes() {
    assert_eq!(
        list_sony_devices(Some("Device AA:01 Sony Ñ".as_bytes())),
        vec![pair("AA:01", "Sony Ñ")]
    );
    assert_eq!(
        list_sony_devices(Some(b"Device AA:01 Sony \xff\n")),
        vec![pair("AA:01", "Sony \u{fffd}")]
    );
    assert_eq!(list_sony_devices(None), vec![]);
}

#[test]
fn devices_are_called_by_name_or_address() {
    let devices = vec![pair("AA:01", "uno"), pair("AA:02", "dos"), pair("AA:02", "tres")];
    assert_eq!(device_label("AA:01", &devices), "uno");
    assert_eq!(device_label("AA:02", &devices), "dos");
    assert_eq!(device_label("aa:01", &devices), "aa:01");
    assert_eq!(device_label("AA:01", &vec![]), "AA:01");
}

#[test]
fn descriptions_say_whether_a_device_is_connected() {
    assert!(description_says_connected("Device AA:01\n\tName: x\n\tConnected: yes\n"));
    assert!(description_says_connected("\tConnected: no, yes  \r\n"));
    assert!(!description_says_connected("\tConnected: no\n"));
    assert!(!description_says_connected("\tPaired: yes\n"));
    assert!(!description_says_connected("\tWasConnected: yes\n"));
    assert!(!description_says_connected(""));
}

#[test]
fn a_device_without_address_is_not_connected() {
    assert!(is_connected("AA:01", Some(b"Connected: yes")));
    assert!(!is_connected("AA:01", Some(b"Connected: no")));
    assert!(!is_connected("AA:01", None));
    assert!(!is_connected(" \t", Some(b"Connected: yes")));
    assert!(!is_connected("", Some(b"Connected: yes")));
}

#[test]
fn the_first_readable_channel_counts() {
    assert_eq!(service_channel("Service\n  Channel: 12\n  Channel: 7\n"), 12);
    assert_eq!(service_channel("Channel: x\nChannel: 300\nChannel:+5\n"), 5);
    assert_eq!(service_channel("Channel 4\nMy Channel: 4\n"), 9);
    assert_eq!(service_channel(""), 9);
    assert_eq!(service_channel("Channel: 8\r\nChannel: 7"), 8);
    assert_eq!(service_channel("Service\nChannel: 7"), 7);
    assert_eq!(find_service_channel(Some(b"\tChannel: 15\xff\n Channel: 3")), 3);
    assert_eq!(find_service_channel(None), 9);
}
