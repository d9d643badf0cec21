//! What the tray shows: its name, its tool tip and its menu.

use vstd::prelude::*;

use crate::profile;
use crate::profile::Profile;
use crate::text;
use crate::tray::SonyTray;
use crate::tray::TrayModel;

verus! {

/// What an item of the menu does.
#[derive(Clone, Copy, Debug, PartialEq, Eq, Structural)]
pub enum Command {
    RefreshDevices,
    ResendProfile,
    ShowConfig,
    ShowAbout,
    OpenAuthorPage,
    OpenProtocolPage,
    Quit,
}

/// What a group of options in the menu chooses.
#[derive(Clone, Copy, Debug, PartialEq, Eq, Structural)]
pub enum Choice {
    Device,
    Profile,
    AutoApply,
}

/// An entry of a menu: a text that cannot be chosen; an item with its icon, if
/// it has one, that does something; a line between entries; a group of
/// options, of which the one at a position is chosen, or none where there is
/// no such position.
#[derive(Debug)]
pub enum Entry {
    Info(String),
    Item(String, Option<String>, Command),
    Separator,
    Options(usize, Vec<String>, Choice),
}

/// An element of the menu: an entry, or a menu of its own with a label, an
/// icon and entries.
#[derive(Debug)]
pub enum MenuItem {
    Entry(Entry),
    SubMenu(String, String, Vec<Entry>),
}

/// The tool tip of the tray.
#[derive(Debug)]
pub struct ToolTip {
    pub title: String,
    pub description: String,
}

/// An entry of a menu, as a model.
pub enum EntryModel {
    Info(Seq<char>),
    Item(Seq<char>, Option<Seq<char>>, Command),
    Separator,
    Options(usize, Seq<Seq<char>>, Choice),
}

/// An element of the menu, as a model.
pub enum MenuItemModel {
    Entry(EntryModel),
    SubMenu(Seq<char>, Seq<char>, Seq<EntryModel>),
}

impl View for Entry {
    type V = EntryModel;

    open spec fn view(&self) -> EntryModel {
        match self {
            Entry::Info(label) => EntryModel::Info(label@),
            Entry::Item(label, Some(icon), command) => EntryModel::Item(
                label@,
                Some(icon@),
                *command,
            ),
            Entry::Item(label, None, command) => EntryModel::Item(label@, None, *command),
            Entry::Separator => EntryModel::Separator,
            Entry::Options(selected, labels, choice) => EntryModel::Options(
                *selected,
                text::string_views(labels@),
                *choice,
            ),
        }
    }
}

/// The entries of a menu.
pub open spec fn entry_views(entries: Seq<Entry>) -> Seq<EntryModel> {
    entries.map_values(|e: Entry| e@)
}

impl View for MenuItem {
    type V = MenuItemModel;

    open spec fn view(&self) -> MenuItemModel {
        match self {
            MenuItem::Entry(entry) => MenuItemModel::Entry(entry@),
            MenuItem::SubMenu(label, icon, entries) => MenuItemModel::SubMenu(
                label@,
                icon@,
                entry_views(entries@),
            ),
        }
    }
}

/// The elements of the menu.
pub open spec fn item_views(items: Seq<MenuItem>) -> Seq<MenuItemModel> {
    items.map_values(|item: MenuItem| item@)
}

/// How a device is offered in the menu.
pub open spec fn device_option(device: (Seq<char>, Seq<char>)) -> Seq<char> {
    if text::is_blank(device.1) {
        device.0
    } else {
        device.1 + " ("@ + device.0 + ")"@
    }
}

/// The position of the first device with an address, counted from `from`, or
/// the largest number if there is none.
pub open spec fn device_position(
    mac: Seq<char>,
    devices: Seq<(Seq<char>, Seq<char>)>,
    from: int,
) -> int
    decreases devices.len() - from,
{
    if from >= devices.len() {
        usize::MAX as int
    } else if devices[from].0 == mac {
        from
    } else {
        device_position(mac, devices, from + 1)
    }
}

/// The labels of the profiles, in their order.
pub open spec fn profile_labels() -> Seq<Seq<char>> {
    profile::profile_order().map_values(|p: Profile| profile::label_of(p))
}

/// The menu of the devices.
pub open spec fn device_menu_of(t: TrayModel) -> Seq<EntryModel> {
    seq![
        if t.devices.len() == 0 {
            EntryModel::Info("No se encontró ningún auricular Sony pareado"@)
        } else {
            EntryModel::Options(
                device_position(t.mac, t.devices, 0) as usize,
                t.devices.map_values(|d: (Seq<char>, Seq<char>)| device_option(d)),
                Choice::Device,
            )
        },
        EntryModel::Separator,
        EntryModel::Item(
            "Actualizar lista (bluetoothctl)"@,
            Some("view-refresh"@),
            Command::RefreshDevices,
        ),
    ]
}

/// The menu of the automatic application.
pub open spec fn auto_apply_menu_of(t: TrayModel) -> Seq<EntryModel> {
    seq![
        EntryModel::Options(
            if t.auto_apply {
                0
            } else {
                1
            },
            seq!["Activado"@, "Desactivado"@],
            Choice::AutoApply,
        ),
    ]
}

/// The menu about the program.
pub open spec fn about_menu_of() -> Seq<EntryModel> {
    seq![
        EntryModel::Item("Sobre la app"@, Some("help-about"@), Command::ShowAbout),
        EntryModel::Separator,
        EntryModel::Info("Autor: TheOneProgrammer"@),
        EntryModel::Item(
            "Visitar theoneprogrammer.com"@,
            Some("internet-web-browser"@),
            Command::OpenAuthorPage,
        ),
        EntryModel::Item(
            "Proyecto base: sony-headphones-control"@,
            Some("internet-web-browser"@),
            Command::OpenProtocolPage,
        ),
    ]
}

/// What the menu says of the connection; nothing without a device.
pub open spec fn connection_entry(t: TrayModel) -> Seq<MenuItemModel> {
    if text::is_blank(t.mac) {
        Seq::empty()
    } else if t.connected {
        seq![MenuItemModel::Entry(EntryModel::Info("Estado: Conectado"@))]
    } else {
        seq![MenuItemModel::Entry(EntryModel::Info("Estado: Desconectado"@))]
    }
}

/// The menu below what it says of the connection.
pub open spec fn menu_body(t: TrayModel, version: Seq<char>) -> Seq<MenuItemModel> {
    seq![
        MenuItemModel::Entry(EntryModel::Separator),
        MenuItemModel::Entry(
            EntryModel::Options(
                profile::index_of(t.profile) as usize,
                profile_labels(),
                Choice::Profile,
            ),
        ),
        MenuItemModel::SubMenu(
            "Elegir dispositivo (Bluetooth)"@,
            "bluetooth-active"@,
            device_menu_of(t),
        ),
        MenuItemModel::Entry(EntryModel::Separator),
        MenuItemModel::Entry(EntryModel::Info(t.msg)),
        MenuItemModel::Entry(
            EntryModel::Item("Reenviar perfil actual"@, None, Command::ResendProfile),
        ),
        MenuItemModel::SubMenu(
            if t.auto_apply {
                "Aplicar perfil al conectar: Activo"@
            } else {
                "Aplicar perfil al conectar: Inactivo"@
            },
            "media-playlist-repeat"@,
            auto_apply_menu_of(t),
        ),
        MenuItemModel::Entry(
            EntryModel::Item("Ver MAC / configuración"@, None, Command::ShowConfig),
        ),
        MenuItemModel::SubMenu(
            "Acerca de (v"@ + version + ")"@,
            "help-about"@,
            about_menu_of(),
        ),
        MenuItemModel::Entry(EntryModel::Separator),
        MenuItemModel::Entry(EntryModel::Item("Salir"@, None, Command::Quit)),
    ]
}

/// The menu of the tray.
pub open spec fn menu_of(t: TrayModel, version: Seq<char>) -> Seq<MenuItemModel> {
    seq![
        MenuItemModel::Entry(
            EntryModel::Info("Perfil actual: "@ + profile::label_of(t.profile)),
        ),
    ] + connection_entry(t) + menu_body(t, version)
}

/// What the tool tip says.
pub open spec fn tool_tip_of(t: TrayModel) -> Seq<char> {
    "Perfil: "@ + profile::label_of(t.profile) + "\n"@ + (if t.connected {
        "Conectado"@
    } else {
        "Desconectado"@
    }) + "\n"@ + t.msg
}

fn info(label: &str) -> (entry: Entry)
    ensures
        entry@ == EntryModel::Info(label@),
{
    Entry::Info(label.to_string())
}

fn item(label: &str, icon: Option<&str>, command: Command) -> (entry: Entry)
    ensures
        entry@ == EntryModel::Item(
            label@,
            match icon {
                Some(i) => Some(i@),
                None => None,
            },
            command,
        ),
{
    match icon {
        Some(i) => Entry::Item(label.to_string(), Some(i.to_string()), command),
        None => Entry::Item(label.to_string(), None, command),
    }
}

impl SonyTray {
    /// The name under which the tray registers.
    pub fn id(&self) -> (id: String)
        ensures
            id@ == "sony-headphones-tray"@,
    {
        "sony-headphones-tray".to_string()
    }

    /// The title of the tray.
    pub fn title(&self) -> (title: String)
        ensures
            title@ == "Sony Headphones"@,
    {
        "Sony Headphones".to_string()
    }

    /// The icon of the tray.
    pub fn icon_name(&self) -> (name: String)
        ensures
            name@ == "audio-headphones-bluetooth"@,
    {
        "audio-headphones-bluetooth".to_string()
    }

    /// The tool tip of the tray.
    pub fn tool_tip(&self) -> (tip: ToolTip)
        ensures
            tip.title@ == "Sony Headphones"@,
            tip.description@ == tool_tip_of(self@),
    {
        let connection = if self.state.connected {
            "Conectado"
        } else {
            "Desconectado"
        };
        let description = "Perfil: ".to_string().concat(self.state.profile.label()).concat(
            "\n",
        ).concat(connection).concat("\n").concat(self.state.msg.as_str());
        ToolTip { title: "Sony Headphones".to_string(), description }
    }

    /// The options of the device menu, and the position of the device.
    fn device_options(&self) -> (options: (usize, Vec<String>))
        ensures
            options.0 == device_position(self@.mac, self@.devices, 0),
            text::string_views(options.1@) == self@.devices.map_values(
                |d: (Seq<char>, Seq<char>)| device_option(d),
            ),
    {
        let ghost all = self@.devices;
        let ghost wanted = all.map_values(|d: (Seq<char>, Seq<char>)| device_option(d));
        let mut labels: Vec<String> = Vec::new();
        let mut selected: usize = usize::MAX;
        let mut found: bool = false;
        let mut i: usize = 0;
        while i < self.state.devices.len()
            invariant
                all == self@.devices,
                wanted == all.map_values(|d: (Seq<char>, Seq<char>)| device_option(d)),
                i <= self.state.devices.len(),
                text::string_views(labels@) == wanted.take(i as int),
                found ==> selected == device_position(self@.mac, all, 0),
                !found ==> selected == usize::MAX && device_position(self@.mac, all, 0)
                    == device_position(self@.mac, all, i as int),
            decreases self.state.devices.len() - i,
        {
            let ghost done = labels@;
            let (mac, name) = (&self.state.devices[i].0, &self.state.devices[i].1);
            proof {
                assert(all[i as int] == (mac@, name@));
            }
            if !found && text::same(mac.as_str(), self.state.mac.as_str()) {
                found = true;
                selected = i;
            }
            let label = if text::blank(name.as_str()) {
                mac.clone()
            } else {
                name.clone().concat(" (").concat(mac.as_str()).concat(")")
            };
            proof {
                assert(label@ == wanted[i as int]);
            }
            labels.push(label);
            proof {
                assert(text::string_views(labels@) =~= text::string_views(done).push(label@));
                assert(wanted.take(i + 1) =~= wanted.take(i as int).push(wanted[i as int]));
            }
            i = i + 1;
        }
        proof {
            assert(wanted.take(i as int) =~= wanted);
        }
        (selected, labels)
    }

    /// The menu of the devices.
    fn device_menu(&self) -> (entries: Vec<Entry>)
        ensures
            entry_views(entries@) == device_menu_of(self@),
    {
        let first = if self.state.devices.len() == 0 {
            info("No se encontró ningún auricular Sony pareado")
        } else {
            let (selected, labels) = self.device_options();
            Entry::Options(selected, labels, Choice::Device)
        };
        let mut entries: Vec<Entry> = Vec::new();
        entries.push(first);
        entries.push(Entry::Separator);
        entries.push(
            item(
                "Actualizar lista (bluetoothctl)",
                Some("view-refresh"),
                Command::RefreshDevices,
            ),
        );
        entries
    }

    /// The options of the profiles.
    fn profile_options(&self) -> (entry: Entry)
        ensures
            entry@ == EntryModel::Options(
                profile::index_of(self@.profile) as usize,
                profile_labels(),
                Choice::Profile,
            ),
    {
        let all = Profile::ALL;
        let mut labels: Vec<String> = Vec::new();
        let mut i: usize = 0;
        while i < all.len()
            invariant
                all@ == profile::profile_order(),
                i <= all.len(),
                text::string_views(labels@) == profile_labels().take(i as int),
            decreases all.len() - i,
        {
            let ghost done = labels@;
            let label = all[i].label().to_string();
            labels.push(label);
            proof {
                assert(text::string_views(labels@) =~= text::string_views(done).push(label@));
                assert(profile_labels().take(i + 1) =~= profile_labels().take(i as int).push(
                    profile_labels()[i as int],
                ));
            }
            i = i + 1;
        }
        proof {
            assert(profile_labels().take(i as int) =~= profile_labels());
        }
        Entry::Options(self.state.profile.index(), labels, Choice::Profile)
    }

    /// The menu of the automatic application.
    fn auto_apply_menu(&self) -> (entries: Vec<Entry>)
        ensures
            entry_views(entries@) == auto_apply_menu_of(self@),
    {
        let mut labels: Vec<String> = Vec::new();
        labels.push("Activado".to_string());
        labels.push("Desactivado".to_string());
        proof {
            assert(text::string_views(labels@) =~= seq!["Activado"@, "Desactivado"@]);
        }
        let selected: usize = if self.state.auto_apply {
            0
        } else {
            1
        };
        let mut entries: Vec<Entry> = Vec::new();
        entries.push(Entry::Options(selected, labels, Choice::AutoApply));
        entries
    }

    /// The menu about the program.
    fn about_menu(&self) -> (entries: Vec<Entry>)
        ensures
            entry_views(entries@) == about_menu_of(),
    {
        let mut entries: Vec<Entry> = Vec::new();
        entries.push(item("Sobre la app", Some("help-about"), Command::ShowAbout));
        entries.push(Entry::Separator);
        entries.push(info("Autor: TheOneProgrammer"));
        entries.push(
            item(
                "Visitar theoneprogrammer.com",
                Some("internet-web-browser"),
                Command::OpenAuthorPage,
            ),
        );
        entries.push(
            item(
                "Proyecto base: sony-headphones-control",
                Some("internet-web-browser"),
                Command::OpenProtocolPage,
            ),
        );
        entries
    }

    /// The menu of the tray, for a program of the given version.
    pub fn menu(&self, version: &str) -> (items: Vec<MenuItem>)
        ensures
            item_views(items@) == menu_of(self@, version@),
    {
        let mut items: Vec<MenuItem> = Vec::new();
        let current = "Perfil actual: ".to_string().concat(self.state.profile.label());
        items.push(MenuItem::Entry(Entry::Info(current)));
        items.push(MenuItem::Entry(Entry::Separator));
        items.push(MenuItem::Entry(self.profile_options()));
        items.push(
            MenuItem::SubMenu(
                "Elegir dispositivo (Bluetooth)".to_string(),
                "bluetooth-active".to_string(),
                self.device_menu(),
            ),
        );
        items.push(MenuItem::Entry(Entry::Separator));
        items.push(MenuItem::Entry(info(self.state.msg.as_str())));
        items.push(
            MenuItem::Entry(item("Reenviar perfil actual", None, Command::ResendProfile)),
        );
        let auto_label = if self.state.auto_apply {
            "Aplicar perfil al conectar: Activo"
        } else {
            "Aplicar perfil al conectar: Inactivo"
        };
        items.push(
            MenuItem::SubMenu(
                auto_label.to_string(),
                "media-playlist-repeat".to_string(),
                self.auto_apply_menu(),
            ),
        );
        items.push(MenuItem::Entry(item("Ver MAC / configuración", None, Command::ShowConfig)));
        let about_label = "Acerca de (v".to_string().concat(version).concat(")");
        items.push(MenuItem::SubMenu(about_label, "help-about".to_string(), self.about_menu()));
        items.push(MenuItem::Entry(Entry::Separator));
        items.push(MenuItem::Entry(item("Salir", None, Command::Quit)));
        let ghost head = seq![
            MenuItemModel::Entry(
                EntryModel::Info("Perfil actual: "@ + profile::label_of(self@.profile)),
            ),
        ];
        proof {
            assert(item_views(items@) =~= head + menu_body(self@, version@));
        }
        if !text::blank(self.state.mac.as_str()) {
            let ghost before = items@;
            let connection = if self.state.connected {
                info("Estado: Conectado")
            } else {
                info("Estado: Desconectado")
            };
            items.insert(1, MenuItem::Entry(connection));
            proof {
                assert(item_views(items@) =~= item_views(before).insert(1, items@[1]@));
                assert(item_views(items@) =~= menu_of(self@, version@));
            }
        } else {
            proof {
                assert(head + connection_entry(self@) =~= head);
            }
        }
        items
    }
}

/// The option of a profile has its label, and once the profile at a position is
/// chosen, the menu shows that position.
pub proof fn law_menu_shows_profile(t: TrayModel, version: Seq<char>, i: int)
    requires
        0 <= i < profile::profile_order().len(),
    ensures
        ({
            let p = profile::profile_order()[i];
            let menu = menu_of(t.choosing(p), version);
            &&& profile_labels()[i] == profile::label_of(p)
            &&& menu[0] == MenuItemModel::Entry(
                EntryModel::Info("Perfil actual: "@ + profile::label_of(p)),
            )
            &&& menu[2 + connection_entry(t).len() as int] == MenuItemModel::Entry(
                EntryModel::Options(i as usize, profile_labels(), Choice::Profile),
            )
        }),
{
    profile::law_index_inverse(profile::profile_order()[i], i);
}

/// The option of a device has its label, and once the device at a position is
/// chosen, the menu shows the first position with its address: that position,
/// unless the address is listed twice.
pub proof fn law_menu_shows_device(t: TrayModel, i: int)
    requires
        0 <= i < t.devices.len(),
        t.devices.len() <= usize::MAX,
    ensures
        ({
            let at = device_position(t.selecting(i).mac, t.devices, 0);
            &&& 0 <= at <= i
            &&& t.devices[at].0 == t.devices[i].0
            &&& device_menu_of(t.selecting(i))[0] == EntryModel::Options(
                at as usize,
                t.devices.map_values(|d: (Seq<char>, Seq<char>)| device_option(d)),
                Choice::Device,
            )
        }),
{
    lemma_device_position(t.devices[i].0, t.devices, 0, i);
}

proof fn lemma_device_position(
    mac: Seq<char>,
    devices: Seq<(Seq<char>, Seq<char>)>,
    from: int,
    at: int,
)
    requires
        0 <= from <= at < devices.len(),
        devices[at].0 == mac,
    ensures
        from <= device_position(mac, devices, from) <= at,
        devices[device_position(mac, devices, from)].0 == mac,
    decreases at - from,
{
    if devices[from].0 != mac {
        lemma_device_position(mac, devices, from + 1, at);
    }
}

/// The menu speaks of the connection exactly if a device is configured.
pub proof fn law_menu_length(t: TrayModel, version: Seq<char>)
    ensures
        menu_of(t, version).len() == if text::is_blank(t.mac) {
            12nat
        } else {
            13
        },
{
}

/// The tool tip names the current profile first, then the connection, then the
/// last message.
pub proof fn law_tool_tip(t: TrayModel, p: Profile)
    ensures
        ("Perfil: "@ + profile::label_of(t.profile) + "\n"@).is_prefix_of(tool_tip_of(t)),
        ("Perfil: "@ + profile::label_of(p) + "\n"@).is_prefix_of(tool_tip_of(t.choosing(p))),
        t.connected ==> ("\n"@ + "Conectado"@ + "\n"@ + t.msg).is_suffix_of(tool_tip_of(t)),
        !t.connected ==> ("\n"@ + "Desconectado"@ + "\n"@ + t.msg).is_suffix_of(tool_tip_of(t)),
        tool_tip_of(t).len() == "Perfil: "@.len() + profile::label_of(t.profile).len() + 1 + (
        if t.connected {
            9nat
        } else {
            12
        }) + 1 + t.msg.len(),
{
    lemma_tool_tip_start(t);
    lemma_tool_tip_start(t.choosing(p));
    reveal_strlit("\n");
    reveal_strlit("Conectado");
    reveal_strlit("Desconectado");
    let tip = tool_tip_of(t);
    let end = "\n"@ + (if t.connected {
        "Conectado"@
    } else {
        "Desconectado"@
    }) + "\n"@ + t.msg;
    assert(tip.subrange(tip.len() - end.len(), tip.len() as int) =~= end);
}

proof fn lemma_tool_tip_start(t: TrayModel)
    ensures
        ("Perfil: "@ + profile::label_of(t.profile) + "\n"@).is_prefix_of(tool_tip_of(t)),
{
    let start = "Perfil: "@ + profile::label_of(t.profile) + "\n"@;
    assert(tool_tip_of(t).subrange(0, start.len() as int) =~= start);
}

/// The tool tips of two trays with different profiles are different.
pub proof fn law_tool_tips_differ(t: TrayModel, other: TrayModel)
    requires
        t.profile != other.profile,
    ensures
        tool_tip_of(t) != tool_tip_of(other),
{
    reveal_strlit("\n");
    lemma_tool_tip_start(t);
    lemma_tool_tip_start(other);
    profile::law_labels_distinct(t.profile, other.profile);
    profile::law_labels_distinct(other.profile, t.profile);
    let a = profile::label_of(t.profile);
    let b = profile::label_of(other.profile);
    let n = "Perfil: "@.len() as int;
    let start = "Perfil: "@ + a + "\n"@;
    let other_start = "Perfil: "@ + b + "\n"@;
    if tool_tip_of(t) == tool_tip_of(other) {
        let tip = tool_tip_of(t);
        assert(tip.subrange(0, start.len() as int) == start);
        assert(tip.subrange(0, other_start.len() as int) == other_start);
        assert forall|i: int| 0 <= i < a.len() implies tip[n + i] == a[i] by {
            assert(tip.subrange(0, start.len() as int)[n + i] == start[n + i]);
        }
        assert forall|i: int| 0 <= i < b.len() implies tip[n + i] == b[i] by {
            assert(tip.subrange(0, other_start.len() as int)[n + i] == other_start[n + i]);
        }
        assert(start[n + a.len()] == '\n');
        assert(other_start[n + b.len()] == '\n');
        assert(tip.subrange(0, start.len() as int)[n + a.len()] == '\n');
        assert(tip.subrange(0, other_start.len() as int)[n + b.len()] == '\n');
        if a.len() < b.len() {
            assert(b[a.len() as int] == '\n');
        } else if b.len() < a.len() {
            assert(a[b.len() as int] == '\n');
        } else {
            assert(a =~= b);
        }
    }
}

/// What the menu shows: the current profile; the connection, if there is a
/// device; the profiles to choose from; the devices; the last message; that the
/// profile can be sent again; whether it is applied on connecting; the
/// configuration; the version of the program; and the way out.
pub proof fn law_menu_shows_state(t: TrayModel, version: Seq<char>)
    ensures
        ({
            let menu = menu_of(t, version);
            let k: int = if text::is_blank(t.mac) {
                0
            } else {
                1
            };
            &&& menu.len() == 12 + k
            &&& menu[0] == MenuItemModel::Entry(
                EntryModel::Info("Perfil actual: "@ + profile::label_of(t.profile)),
            )
            &&& !text::is_blank(t.mac) ==> menu[1] == MenuItemModel::Entry(
                EntryModel::Info(
                    "Estado: "@ + if t.connected {
                        "Conectado"@
                    } else {
                        "Desconectado"@
                    },
                ),
            )
            &&& menu[k + 1] == MenuItemModel::Entry(EntryModel::Separator)
            &&& menu[k + 2] == MenuItemModel::Entry(
                EntryModel::Options(
                    profile::index_of(t.profile) as usize,
                    profile_labels(),
                    Choice::Profile,
                ),
            )
            &&& menu[k + 3] == MenuItemModel::SubMenu(
                "Elegir dispositivo (Bluetooth)"@,
                "bluetooth-active"@,
                device_menu_of(t),
            )
            &&& menu[k + 4] == MenuItemModel::Entry(EntryModel::Separator)
            &&& menu[k + 5] == MenuItemModel::Entry(EntryModel::Info(t.msg))
            &&& menu[k + 6] == MenuItemModel::Entry(
                EntryModel::Item("Reenviar perfil actual"@, None, Command::ResendProfile),
            )
            &&& menu[k + 7] == MenuItemModel::SubMenu(
                "Aplicar perfil al conectar: "@ + if t.auto_apply {
                    "Activo"@
                } else {
                    "Inactivo"@
                },
                "media-playlist-repeat"@,
                auto_apply_menu_of(t),
            )
            &&& menu[k + 8] == MenuItemModel::Entry(
                EntryModel::Item("Ver MAC / configuración"@, None, Command::ShowConfig),
            )
            &&& menu[k + 9] == MenuItemModel::SubMenu(
                "Acerca de (v"@ + version + ")"@,
                "help-about"@,
                about_menu_of(),
            )
            &&& menu[k + 10] == MenuItemModel::Entry(EntryModel::Separator)
            &&& menu[k + 11] == MenuItemModel::Entry(
                EntryModel::Item("Salir"@, None, Command::Quit),
            )
        }),
{
    reveal_strlit("Estado: ");
    reveal_strlit("Conectado");
    reveal_strlit("Desconectado");
    reveal_strlit("Estado: Conectado");
    reveal_strlit("Estado: Desconectado");
    reveal_strlit("Aplicar perfil al conectar: ");
    reveal_strlit("Activo");
    reveal_strlit("Inactivo");
    reveal_strlit("Aplicar perfil al conectar: Activo");
    reveal_strlit("Aplicar perfil al conectar: Inactivo");
    assert("Estado: "@ + "Conectado"@ =~= "Estado: Conectado"@);
    assert("Estado: "@ + "Desconectado"@ =~= "Estado: Desconectado"@);
    assert("Aplicar perfil al conectar: "@ + "Activo"@ =~= "Aplicar perfil al conectar: Activo"@);
    assert("Aplicar perfil al conectar: "@ + "Inactivo"@
        =~= "Aplicar perfil al conectar: Inactivo"@);
}

/// What the menus below the menu show: each device by its name and its address,
/// or by its address alone, and that the list can be refreshed; whether the
/// profile is applied on connecting; the author and the web pages.
pub proof fn law_submenus_show_state(t: TrayModel, i: int)
    ensures
        device_menu_of(t).len() == 3,
        device_menu_of(t)[1] is Separator,
        device_menu_of(t)[2] == EntryModel::Item(
            "Actualizar lista (bluetoothctl)"@,
            Some("view-refresh"@),
            Command::RefreshDevices,
        ),
        t.devices.len() == 0 ==> device_menu_of(t)[0] == EntryModel::Info(
            "No se encontró ningún auricular Sony pareado"@,
        ),
        t.devices.len() > 0 ==> ({
            &&& device_menu_of(t)[0] matches EntryModel::Options(_, labels, choice)
            &&& choice == Choice::Device
            &&& labels.len() == t.devices.len()
            &&& 0 <= i < t.devices.len() && text::is_blank(t.devices[i].1) ==> labels[i]
                == t.devices[i].0
            &&& 0 <= i < t.devices.len() && !text::is_blank(t.devices[i].1) ==> labels[i]
                == t.devices[i].1 + " ("@ + t.devices[i].0 + ")"@
        }),
        auto_apply_menu_of(t) == seq![
            EntryModel::Options(
                if t.auto_apply {
                    0usize
                } else {
                    1
                },
                seq!["Activado"@, "Desactivado"@],
                Choice::AutoApply,
            ),
        ],
        about_menu_of().len() == 5,
        about_menu_of()[0] == EntryModel::Item(
            "Sobre la app"@,
            Some("help-about"@),
            Command::ShowAbout,
        ),
        about_menu_of()[1] is Separator,
        about_menu_of()[2] == EntryModel::Info("Autor: TheOneProgrammer"@),
        about_menu_of()[3] == EntryModel::Item(
            "Visitar theoneprogrammer.com"@,
            Some("internet-web-browser"@),
            Command::OpenAuthorPage,
        ),
        about_menu_of()[4] == EntryModel::Item(
            "Proyecto base: sony-headphones-control"@,
            Some("internet-web-browser"@),
            Command::OpenProtocolPage,
        ),
        profile_labels().len() == 4,
        0 <= i < 4 ==> profile_labels()[i] == profile::label_of(profile::profile_order()[i]),
{
}

/// The menu marks the device of the tray where it is listed first, and none
/// where it is not listed.
pub proof fn law_menu_marks_device(t: TrayModel, i: int)
    requires
        t.devices.len() > 0,
        t.devices.len() <= usize::MAX,
    ensures
        ({
            &&& device_menu_of(t)[0] matches EntryModel::Options(selected, _, _)
            &&& 0 <= i < t.devices.len() && t.devices[i].0 == t.mac && (forall|j: int|
                0 <= j < i ==> (#[trigger] t.devices[j]).0 != t.mac) ==> selected == i
            &&& (forall|j: int| 0 <= j < t.devices.len() ==> (#[trigger] t.devices[j]).0 != t.mac)
                ==> selected == usize::MAX
        }),
{
    if 0 <= i < t.devices.len() && t.devices[i].0 == t.mac && (forall|j: int|
        0 <= j < i ==> (#[trigger] t.devices[j]).0 != t.mac) {
        lemma_device_position(t.mac, t.devices, 0, i);
        let at = device_position(t.mac, t.devices, 0);
        if at < i {
            assert(t.devices[at].0 != t.mac);
        }
    }
    if forall|j: int| 0 <= j < t.devices.len() ==> (#[trigger] t.devices[j]).0 != t.mac {
        lemma_device_unlisted(t.mac, t.devices, 0);
    }
}

proof fn lemma_device_unlisted(mac: Seq<char>, devices: Seq<(Seq<char>, Seq<char>)>, from: int)
    requires
        0 <= from <= devices.len(),
        forall|j: int| 0 <= j < devices.len() ==> (#[trigger] devices[j]).0 != mac,
    ensures
        device_position(mac, devices, from) == usize::MAX,
    decreases devices.len() - from,
{
    if from < devices.len() {
        assert(devices[from].0 != mac);
        lemma_device_unlisted(mac, devices, from + 1);
    }
}

/// Entries and menus are seen as they are, in their order.
pub proof fn law_menu_views(
    e: Entry,
    item: MenuItem,
    entries: Seq<Entry>,
    items: Seq<MenuItem>,
    i: int,
)
    ensures
        e matches Entry::Info(label) ==> e@ == EntryModel::Info(label@),
        e matches Entry::Item(label, Some(icon), command) ==> e@ == EntryModel::Item(
            label@,
            Some(icon@),
            command,
        ),
        e matches Entry::Item(label, None, command) ==> e@ == EntryModel::Item(
            label@,
            None,
            command,
        ),
        e is Separator ==> e@ is Separator,
        e matches Entry::Options(selected, labels, choice) ==> e@ == EntryModel::Options(
            selected,
            text::string_views(labels@),
            choice,
        ),
        item matches MenuItem::Entry(entry) ==> item@ == MenuItemModel::Entry(entry@),
        item matches MenuItem::SubMenu(label, icon, list) ==> item@ == MenuItemModel::SubMenu(
            label@,
            icon@,
            entry_views(list@),
        ),
        entry_views(entries).len() == entries.len(),
        0 <= i < entries.len() ==> entry_views(entries)[i] == entries[i]@,
        item_views(items).len() == items.len(),
        0 <= i < items.len() ==> item_views(items)[i] == items[i]@,
{
}

} // verus!
