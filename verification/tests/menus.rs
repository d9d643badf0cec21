use sony_headphones_tray::menu::{Choice, Command, Entry, MenuItem};
use sony_headphones_tray::profile::Profile;
use sony_headphones_tray::tray::SonyTray;

fn pair(mac: &str, name: &str) -> (String, String) {
    (mac.to_string(), name.to_string())
}

fn entry_text(e: &Entry) -> String {
    match e {
        Entry::Info(label) => format!("info {label}"),
        Entry::Item(label, icon, command) => format!("item {label} {icon:?} {command:?}"),
        Entry::Separator => "separator".to_string(),
        Entry::Options(selected, labels, choice) => {
            format!("options {selected} {labels:?} {choice:?}")
        }
    }
}

fn outline(items: &[MenuItem]) -> Vec<String> {
    let mut lines: Vec<String> = Vec::new();
    for item in items {
        match item {
            MenuItem::Entry(e) => lines.push(entry_text(e)),
            MenuItem::SubMenu(label, icon, entries) => {
                lines.push(format!("menu {label} {icon}"));
                lines.extend(entries.iter().map(|e| format!("- {}", entry_text(e))));
            }
        }
    }
    lines
}

#[test]
fn the_menu_of_a_configured_tray() {
    let tray = SonyTray::new(
        "AA:02".to_string(),
        Profile::AmbientSound,
        vec![pair("AA:01", "Sony A"), pair("AA:02", " ")],
        0,
        true,
        true,
    );
    assert_eq!(
        outline(&tray.menu("0.1.0")),
        vec![
            "info Perfil actual: Sonido ambiente",
            "info Estado: Conectado",
            "separator",
            "options 2 [\"Cancelación de ruido\", \"Reducción de viento\", \"Sonido ambiente\", \"Sin cancelación (OFF)\"] Profile",
            "menu Elegir dispositivo (Bluetooth) bluetooth-active",
            "- options 1 [\"Sony A (AA:01)\", \"AA:02\"] Device",
            "- separator",
            "- item Actualizar lista (bluetoothctl) Some(\"view-refresh\") RefreshDevices",
            "separator",
            "info Conectado",
            "item Reenviar perfil actual None ResendProfile",
            "menu Aplicar perfil al conectar: Activo media-playlist-repeat",
            "- options 0 [\"Activado\", \"Desactivado\"] AutoApply",
            "item Ver MAC / configuración None ShowConfig",
            "menu Acerca de (v0.1.0) help-about",
            "- item Sobre la app Some(\"help-about\") ShowAbout",
            "- separator",
            "- info Autor: TheOneProgrammer",
            "- item Visitar theoneprogrammer.com Some(\"internet-web-browser\") OpenAuthorPage",
            "- item Proyecto base: sony-headphones-control Some(\"internet-web-browser\") OpenProtocolPage",
            "separator",
            "item Salir None Quit",
        ]
    );
}

#[test]
fn the_menu_of_a_tray_without_a_device() {
    let tray = SonyTray::new(" ".to_string(), Profile::NoAnc, vec![], 0, false, false);
    let lines = outline(&tray.menu("2"));
    assert_eq!(tray.menu("2").len(), 12);
    assert_eq!(lines[0], "info Perfil actual: Sin cancelación (OFF)");
    assert_eq!(lines[1], "separator");
    assert_eq!(lines[4], "- info No se encontró ningún auricular Sony pareado");
    assert_eq!(lines[8], "info Sin MAC: elige dispositivo en el menú");
    assert_eq!(lines[10], "menu Aplicar perfil al conectar: Inactivo media-playlist-repeat");
    assert_eq!(lines[11], "- options 1 [\"Activado\", \"Desactivado\"] AutoApply");
}

#[test]
fn the_menu_shows_what_was_chosen() {
    let mut tray = SonyTray::new(
        "BB:01".to_string(),
        Profile::NoAnc,
        vec![pair("AA:01", "A"), pair("AA:02", "B"), pair("AA:02", "C")],
        0,
        false,
        true,
    );
    let position = |tray: &SonyTray, wanted: Choice| -> usize {
        for item in tray.menu("1") {
            let entries = match item {
                MenuItem::Entry(e) => vec![e],
                MenuItem::SubMenu(_, _, entries) => entries,
            };
            for e in entries {
                if let Entry::Options(selected, _, choice) = e {
                    if choice == wanted {
                        return selected;
                    }
                }
            }
        }
        panic!("no such options");
    };
    assert_eq!(position(&tray, Choice::Device), usize::MAX);
    for i in 0..4usize {
        tray.select_profile("/d", i);
        assert_eq!(position(&tray, Choice::Profile), i);
    }
    tray.select_device("/d", 0);
    assert_eq!(position(&tray, Choice::Device), 0);
    tray.select_device("/d", 2);
    assert_eq!(position(&tray, Choice::Device), 1);
    assert_eq!(outline(&tray.menu("1"))[1], "info Estado: Desconectado");
}

#[test]
fn the_last_item_quits() {
    let tray = SonyTray::new(String::new(), Profile::NoAnc, vec![], 0, false, true);
    match tray.menu("1").pop() {
        Some(MenuItem::Entry(Entry::Item(label, None, Command::Quit))) => {
            assert_eq!(label, "Salir")
        }
        other => panic!("{other:?}"),
    }
}

#[test]
fn the_tool_tip_sums_up() {
    let tray = SonyTray::new("AA:01".to_string(), Profile::NoAnc, vec![], 0, false, true);
    let tip = tray.tool_tip();
    assert_eq!(tip.title, "Sony Headphones");
    assert_eq!(tip.description, "Perfil: Sin cancelación (OFF)\nDesconectado\nListo (AA:01)");
    assert_eq!(tray.id(), "sony-headphones-tray");
    assert_eq!(tray.title(), "Sony Headphones");
    assert_eq!(tray.icon_name(), "audio-headphones-bluetooth");
    let tray = SonyTray::new("AA:01".to_string(), Profile::NoAnc, vec![], 0, true, true);
    assert_eq!(
        tray.tool_tip().description,
        "Perfil: Sin cancelación (OFF)\nConectado\nConectado"
    );
}
