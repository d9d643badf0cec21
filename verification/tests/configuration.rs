use sony_headphones_tray::config::{
    config_dir, former_config_dir, join_path, load_auto_apply, load_mac, load_profile,
    migrate_config, save_auto_apply, save_mac, save_profile,
};
use sony_headphones_tray::profile::Profile;
use std::path::PathBuf;

#[test]
fn paths_are_joined_as_by_the_standard_library() {
    for base in ["", "/", ".", "/home/u", "/home/u/", "a//"] {
        for name in ["", "mac", "/mac", "a/b", ".config"] {
            let expected = PathBuf::from(base).join(name);
            assert_eq!(join_path(base, name), expected.to_str().unwrap());
        }
    }
}

#[test]
fn the_directory_follows_the_environment() {
    assert_eq!(config_dir(Some("/x"), Some("/home/u")), "/x/sony-xm4-tray");
    assert_eq!(config_dir(Some(""), Some("/home/u")), "/home/u/.config/sony-xm4-tray");
    assert_eq!(config_dir(None, Some("/home/u")), "/home/u/.config/sony-xm4-tray");
    assert_eq!(config_dir(None, None), "./.config/sony-xm4-tray");
    assert_eq!(config_dir(None, Some("")), ".config/sony-xm4-tray");
    assert_eq!(former_config_dir(Some("/home/u")), "/home/u/.config/sony-xm4-tray");
    assert_eq!(former_config_dir(None), "./.config/sony-xm4-tray");
}

#[test]
fn the_former_directory_is_taken_over_once() {
    assert_eq!(config_dir(None, Some("/h")), former_config_dir(Some("/h")));
    assert!(migrate_config(None, Some("/h"), true, true).is_none());
    assert!(migrate_config(None, Some("/h"), true, false).is_none());
    assert!(migrate_config(None, Some("/h"), false, false).is_none());
    let migration = migrate_config(Some("/x"), Some("/h"), false, true).unwrap();
    assert_eq!(migration.dir, "/x/sony-xm4-tray");
    assert_eq!(
        migration.copies,
        vec![
            (
                "/h/.config/sony-xm4-tray/mac".to_string(),
                "/x/sony-xm4-tray/mac".to_string()
            ),
            (
                "/h/.config/sony-xm4-tray/profile".to_string(),
                "/x/sony-xm4-tray/profile".to_string()
            ),
        ]
    );
    assert_eq!(migration.notice, "Config migrada de /h/.config/sony-xm4-tray");
}

#[test]
fn the_environment_comes_before_the_file() {
    assert_eq!(load_mac(Some(" AA:01\n"), Some("BB:02\n")), "AA:01");
    assert_eq!(load_mac(Some("  "), Some("BB:02\n")), "BB:02");
    assert_eq!(load_mac(None, Some("\tBB:02 \n")), "BB:02");
    assert_eq!(load_mac(None, None), "");
    assert_eq!(load_mac(Some(""), None), "");
}

#[test]
fn a_saved_profile_is_loaded() {
    for p in Profile::ALL {
        let file = save_profile("/d", p);
        assert_eq!(file.dir, "/d");
        assert_eq!(file.path, "/d/profile");
        assert_eq!(file.contents, format!("{}\n", p.key()));
        assert_eq!(load_profile(Some(&file.contents)), p);
    }
}

#[test]
fn noise_cancelling_is_the_default_profile() {
    assert_eq!(load_profile(None), Profile::NoiseCancelling);
    assert_eq!(load_profile(Some("")), Profile::NoiseCancelling);
    assert_eq!(load_profile(Some("Disable")), Profile::NoiseCancelling);
    assert_eq!(load_profile(Some("  disable\r\n")), Profile::NoAnc);
}

#[test]
fn a_saved_address_is_loaded() {
    let file = save_mac("/d/", "88:C9:E8:60:6F:D9");
    assert_eq!(file.path, "/d/mac");
    assert_eq!(file.contents, "88:C9:E8:60:6F:D9\n");
    assert_eq!(load_mac(None, Some(&file.contents)), "88:C9:E8:60:6F:D9");
    assert_eq!(load_mac(None, Some(&save_mac("/d", " x ").contents)), "x");
}

#[test]
fn the_automatic_application_is_saved_and_on_by_default() {
    for on in [true, false] {
        let file = save_auto_apply("/d", on);
        assert_eq!(file.path, "/d/autoapply");
        assert_eq!(file.contents, if on { "1\n" } else { "0\n" });
        assert_eq!(load_auto_apply(Some(&file.contents)), on);
    }
    assert!(load_auto_apply(None));
    assert!(!load_auto_apply(Some("")));
    assert!(!load_auto_apply(Some("true")));
    assert!(load_auto_apply(Some(" 1 ")));
}
