use sony_headphones_tray::address::{address_in_path, assemble_address, path_to_mac, str2ba};

#[test]
fn str2ba_reverses_bytes() {
    assert_eq!(
        str2ba("aa:bb:cc:dd:ee:ff").unwrap(),
        [0xff, 0xee, 0xdd, 0xcc, 0xbb, 0xaa]
    );
    assert!(str2ba("no-es-mac").is_err());
}

#[test]
fn path_to_mac_reverses_bluez_path() {
    assert_eq!(
        path_to_mac("/org/bluez/hci0/dev_88_C9_E8_60_6F_D9").as_deref(),
        Some("88:c9:e8:60:6f:d9")
    );
    assert_eq!(path_to_mac("/org/bluez/hci0"), None);
    assert_eq!(path_to_mac("/org/bluez/hci0/foo_88_C9"), None);
}

#[test]
fn every_notation_of_an_address_is_read() {
    let bytes: [u8; 6] = [0x00, 0x09, 0x1a, 0xa1, 0x7f, 0xff];
    let mut reversed = bytes;
    reversed.reverse();
    let lower: Vec<String> = bytes.iter().map(|b| format!("{b:02x}")).collect();
    let upper: Vec<String> = bytes.iter().map(|b| format!("{b:02X}")).collect();
    assert_eq!(str2ba(&lower.join(":")), Ok(reversed));
    assert_eq!(str2ba(&upper.join(":")), Ok(reversed));
    assert_eq!(str2ba(&format!(" \t{}\n", lower.join(":"))), Ok(reversed));
    assert_eq!(str2ba("0:9:1a:+a1:07f:000ff"), Ok(reversed));
}

#[test]
fn a_wrong_number_of_parts_is_reported_with_the_address() {
    for addr in ["no-es-mac", "", "aa:bb:cc:dd:ee", "aa:bb:cc:dd:ee:ff:00", " 1:2 "] {
        assert_eq!(str2ba(addr), Err(format!("MAC inválida: {addr}")));
    }
}

#[test]
fn the_first_wrong_part_is_reported() {
    let overflow = u8::from_str_radix("100", 16).unwrap_err();
    let invalid = u8::from_str_radix("zz", 16).unwrap_err();
    let empty = u8::from_str_radix("", 16).unwrap_err();
    assert_eq!(str2ba("aa:100:zz:dd:ee:ff"), Err(format!("MAC inválida: {overflow}")));
    assert_eq!(str2ba("aa:zz:100:dd:ee:ff"), Err(format!("MAC inválida: {invalid}")));
    assert_eq!(str2ba("aa:bb:cc:dd:ee:"), Err(format!("MAC inválida: {empty}")));
    assert_eq!(str2ba("aa:bb: cc:dd:ee:ff"), Err(format!("MAC inválida: {invalid}")));
    assert_eq!(str2ba("aa:bb:-1:dd:ee:ff"), Err(format!("MAC inválida: {invalid}")));
}

#[test]
fn parts_are_assembled_in_reverse() {
    let good: Vec<Result<u8, String>> = (1..=6u8).map(Ok).collect();
    assert_eq!(assemble_address(&good), Ok([6, 5, 4, 3, 2, 1]));
    let mut bad: Vec<Result<u8, String>> = (1..=6u8).map(Ok).collect();
    bad[2] = Err("uno".to_string());
    bad[4] = Err("dos".to_string());
    assert_eq!(assemble_address(&bad), Err("MAC inválida: uno".to_string()));
}

#[test]
fn the_last_segment_of_a_path_counts() {
    assert_eq!(address_in_path("dev_AA_bb"), Some("AA:bb".to_string()));
    assert_eq!(address_in_path("/dev_AA/dev_BB"), Some("BB".to_string()));
    assert_eq!(address_in_path("/dev_AA/"), None);
    assert_eq!(address_in_path("/x/dev_"), Some("".to_string()));
    assert_eq!(address_in_path(""), None);
}

#[test]
fn paths_are_put_in_lower_case() {
    assert_eq!(path_to_mac("/dev_ÀÉ_Σ"), Some("ÀÉ:Σ".to_lowercase()));
    let mac = "88:C9:E8:60:6F:D9";
    let path = format!("/org/bluez/hci1/dev_{}", mac.replace(':', "_"));
    assert_eq!(path_to_mac(&path), Some(mac.to_lowercase()));
}
