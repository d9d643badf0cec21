//! The state of the tray and what changes it.

use vstd::prelude::*;

use crate::command;
use crate::command::Invocation;
use crate::config;
use crate::config::ConfigFile;
use crate::devices;
use crate::profile;
use crate::profile::Profile;
use crate::session;
use crate::session::Transmission;
use crate::text;

verus! {

/// For how many seconds the list of devices is taken as fresh.
pub const FRESH_SECS: u128 = 5;

/// How many nanoseconds are in a second.
pub const NANOS_PER_SEC: u128 = 1_000_000_000;

/// What the tray knows: the address of the device, the profile, the last
/// message, the devices in the menu and when they were listed, in nanoseconds
/// of a clock that never goes back, whether the device is connected, and
/// whether the profile is applied on connecting.
#[derive(Debug)]
pub struct State {
    pub mac: String,
    pub profile: Profile,
    pub msg: String,
    pub devices: Vec<(String, String)>,
    pub devices_fetched_at: Option<u128>,
    pub connected: bool,
    pub auto_apply: bool,
}

/// The tray.
#[derive(Debug)]
pub struct SonyTray {
    pub state: State,
}

/// What the tray knows, as a model.
#[verifier::ext_equal]
pub struct TrayModel {
    pub mac: Seq<char>,
    pub profile: Profile,
    pub msg: Seq<char>,
    pub devices: Seq<(Seq<char>, Seq<char>)>,
    pub devices_fetched_at: Option<u128>,
    pub connected: bool,
    pub auto_apply: bool,
}

impl View for State {
    type V = TrayModel;

    open spec fn view(&self) -> TrayModel {
        TrayModel {
            mac: self.mac@,
            profile: self.profile,
            msg: self.msg@,
            devices: devices::device_views(self.devices@),
            devices_fetched_at: self.devices_fetched_at,
            connected: self.connected,
            auto_apply: self.auto_apply,
        }
    }
}

impl View for SonyTray {
    type V = TrayModel;

    open spec fn view(&self) -> TrayModel {
        self.state@
    }
}

/// A profile to send to a device until it succeeds or is given up.
#[derive(Debug)]
pub struct Job {
    pub mac: String,
    pub profile: Profile,
}

impl View for Job {
    type V = (Seq<char>, Profile);

    open spec fn view(&self) -> (Seq<char>, Profile) {
        (self.mac@, self.profile)
    }
}

/// A job that may be missing.
pub open spec fn job_view(job: Option<Job>) -> Option<(Seq<char>, Profile)> {
    match job {
        Some(j) => Some(j@),
        None => None,
    }
}

/// What a change of profile calls for: the file that keeps it, and its
/// transmission if there is a device.
#[derive(Debug)]
pub struct ProfileChange {
    pub save: ConfigFile,
    pub send: Option<Transmission>,
}

/// What is said where the list of devices is empty.
pub open spec fn no_devices_text() -> Seq<char> {
    "No se encontró ningún auricular Sony pareado"@
}

/// How the sending of a chosen profile is reported.
pub open spec fn sent_text(p: Profile, outcome: Result<(), Seq<char>>) -> Seq<char> {
    match outcome {
        Ok(_) => profile::label_of(p) + " ✓"@,
        Err(e) => "Error: "@ + e,
    }
}

/// How the sending of the profile on connecting is reported.
pub open spec fn applied_text(p: Profile, outcome: Result<(), Seq<char>>) -> Seq<char> {
    match outcome {
        Ok(_) => profile::label_of(p) + " aplicado al conectar ✓"@,
        Err(e) => "Conectado, pero no se pudo aplicar el perfil: "@ + e,
    }
}

impl TrayModel {
    /// The tray as the program starts.
    pub open spec fn start(
        mac: Seq<char>,
        profile: Profile,
        devices: Seq<(Seq<char>, Seq<char>)>,
        now: u128,
        connected: bool,
        auto_apply: bool,
    ) -> TrayModel {
        TrayModel {
            mac,
            profile,
            msg: if text::is_blank(mac) {
                "Sin MAC: elige dispositivo en el menú"@
            } else if connected {
                "Conectado"@
            } else {
                "Listo ("@ + mac + ")"@
            },
            devices,
            devices_fetched_at: Some(now),
            connected,
            auto_apply,
        }
    }

    /// The tray with another message.
    pub open spec fn saying(self, msg: Seq<char>) -> TrayModel {
        TrayModel { msg, ..self }
    }

    /// The tray with a list of devices.
    pub open spec fn listing(self, devices: Seq<(Seq<char>, Seq<char>)>, now: u128) -> TrayModel {
        TrayModel { devices, devices_fetched_at: Some(now), ..self }
    }

    /// The tray with a list of devices that was asked for: it says so where
    /// the list is empty.
    pub open spec fn refreshed(self, devices: Seq<(Seq<char>, Seq<char>)>, now: u128) -> TrayModel {
        if devices.len() == 0 {
            self.listing(devices, now).saying(no_devices_text())
        } else {
            self.listing(devices, now)
        }
    }

    /// Whether the list of devices is too old to be shown.
    pub open spec fn stale(self, now: u128) -> bool {
        match self.devices_fetched_at {
            Some(t) => now >= t && (now - t) as u128 / NANOS_PER_SEC > FRESH_SECS,
            None => true,
        }
    }

    /// The tray after a profile was chosen.
    pub open spec fn choosing(self, p: Profile) -> TrayModel {
        TrayModel {
            profile: p,
            msg: if text::is_blank(self.mac) {
                "Configura la MAC del dispositivo"@
            } else {
                "Enviando "@ + profile::label_of(p) + "…"@
            },
            ..self
        }
    }

    /// The tray after a device of its list was chosen.
    pub open spec fn selecting(self, index: int) -> TrayModel {
        if 0 <= index < self.devices.len() {
            let mac = self.devices[index].0;
            TrayModel { mac, msg: "MAC guardada: "@ + mac, ..self }
        } else {
            self
        }
    }

    /// Whether the profile is to be applied now, the device being connected.
    pub open spec fn applies(self) -> bool {
        self.mac.len() > 0 && self.auto_apply && self.connected
    }

    /// The tray as the application of the profile begins, if it does.
    pub open spec fn applying(self) -> TrayModel {
        if self.applies() {
            self.saying("Conectado, aplicando "@ + profile::label_of(self.profile) + "…"@)
        } else {
            self
        }
    }

    /// What is sent as the application of the profile begins.
    pub open spec fn job(self) -> Option<(Seq<char>, Profile)> {
        if self.applies() {
            Some((self.mac, self.profile))
        } else {
            None
        }
    }

    /// What the tray says of its device.
    pub open spec fn config_text(
        self,
        dir: Seq<char>,
        listed: Seq<(Seq<char>, Seq<char>)>,
    ) -> Seq<char> {
        if text::is_blank(self.mac) {
            "MAC no configurada: ponla en "@ + config::path_of(dir, "mac"@)
                + " o elige el dispositivo en el menú"@
        } else {
            "Dispositivo actual: "@ + devices::label_for(self.mac, listed) + "\nMAC: "@ + self.mac
        }
    }
}

impl SonyTray {
    /// The tray as the program starts.
    pub fn new(
        mac: String,
        profile: Profile,
        devices: Vec<(String, String)>,
        now: u128,
        connected: bool,
        auto_apply: bool,
    ) -> (tray: SonyTray)
        ensures
            tray@ == TrayModel::start(
                mac@,
                profile,
                devices::device_views(devices@),
                now,
                connected,
                auto_apply,
            ),
    {
        let msg = if text::blank(mac.as_str()) {
            "Sin MAC: elige dispositivo en el menú".to_string()
        } else if connected {
            "Conectado".to_string()
        } else {
            "Listo (".to_string().concat(mac.as_str()).concat(")")
        };
        SonyTray {
            state: State {
                mac,
                profile,
                msg,
                devices,
                devices_fetched_at: Some(now),
                connected,
                auto_apply,
            },
        }
    }

    /// Takes over a list of devices that was asked for.
    pub fn show_devices(&mut self, devices: Vec<(String, String)>, now: u128)
        ensures
            final(self)@ == old(self)@.refreshed(devices::device_views(devices@), now),
    {
        self.state.devices = devices;
        self.state.devices_fetched_at = Some(now);
        if self.state.devices.len() == 0 {
            self.state.msg = "No se encontró ningún auricular Sony pareado".to_string();
        }
    }

    /// Takes over what the device list printed, if it could be had, after it
    /// was asked for.
    pub fn refresh_devices(&mut self, stdout: Option<&[u8]>, now: u128)
        ensures
            final(self)@ == old(self)@.refreshed(
                devices::listed_devices(devices::printed(stdout)),
                now,
            ),
    {
        let devices = devices::list_sony_devices(stdout);
        self.show_devices(devices, now);
    }

    /// What to run before the menu is shown: the device list, if the last one
    /// is more than five full seconds old.
    pub fn menu_about_to_show(&self, now: u128) -> (run: Option<Invocation>)
        ensures
            run is Some <==> self@.stale(now),
            run matches Some(r) ==> r@ == ("bluetoothctl"@, seq!["devices"@]),
    {
        let stale = match self.state.devices_fetched_at {
            Some(t) => now >= t && (now - t) / NANOS_PER_SEC > FRESH_SECS,
            None => true,
        };
        if stale {
            Some(command::device_list())
        } else {
            None
        }
    }

    /// Takes over what the device list printed, if it could be had, before the
    /// menu is shown.
    pub fn store_devices(&mut self, stdout: Option<&[u8]>, now: u128)
        ensures
            final(self)@ == old(self)@.listing(
                devices::listed_devices(devices::printed(stdout)),
                now,
            ),
    {
        self.state.devices = devices::list_sony_devices(stdout);
        self.state.devices_fetched_at = Some(now);
    }

    /// Chooses a profile.
    pub fn set_profile(&mut self, dir: &str, profile: Profile) -> (change: ProfileChange)
        ensures
            final(self)@ == old(self)@.choosing(profile),
            change.save@ == config::file_in(
                dir@,
                "profile"@,
                config::profile_contents(profile),
            ),
            change.send is Some <==> !text::is_blank(old(self)@.mac),
            change.send matches Some(t) ==> t@ == session::TransmissionModel::start(
                old(self)@.mac,
                profile,
            ),
    {
        self.state.profile = profile;
        let save = config::save_profile(dir, profile);
        if !text::blank(self.state.mac.as_str()) {
            self.state.msg = "Enviando ".to_string().concat(profile.label()).concat("…");
            let send = Transmission::new(self.state.mac.as_str(), profile);
            ProfileChange { save, send: Some(send) }
        } else {
            self.state.msg = "Configura la MAC del dispositivo".to_string();
            ProfileChange { save, send: None }
        }
    }

    /// Chooses the profile at a position of the menu.
    pub fn select_profile(&mut self, dir: &str, index: usize) -> (change: ProfileChange)
        ensures
            ({
                let p = profile::profile_order()[if index < 3 { index as int } else { 3 }];
                &&& final(self)@ == old(self)@.choosing(p)
                &&& change.save@ == config::file_in(dir@, "profile"@, config::profile_contents(p))
                &&& change.send is Some <==> !text::is_blank(old(self)@.mac)
                &&& change.send matches Some(t) ==> t@ == session::TransmissionModel::start(
                    old(self)@.mac,
                    p,
                )
            }),
    {
        self.set_profile(dir, Profile::from_index(index))
    }

    /// Sends the current profile again.
    pub fn resend_profile(&mut self, dir: &str) -> (change: ProfileChange)
        ensures
            final(self)@ == old(self)@.choosing(old(self)@.profile),
            change.save@ == config::file_in(
                dir@,
                "profile"@,
                config::profile_contents(old(self)@.profile),
            ),
            change.send is Some <==> !text::is_blank(old(self)@.mac),
            change.send matches Some(t) ==> t@ == session::TransmissionModel::start(
                old(self)@.mac,
                old(self)@.profile,
            ),
    {
        let profile = self.state.profile;
        self.set_profile(dir, profile)
    }

    /// Reports how the sending of a chosen profile ended, and gives the text of
    /// the notification.
    pub fn profile_sent(&mut self, profile: Profile, outcome: Result<(), String>) -> (status: String)
        ensures
            status@ == sent_text(profile, session::outcome_view(outcome)),
            final(self)@ == old(self)@.saying(status@),
    {
        let status = match outcome {
            Ok(_) => profile.label().to_string().concat(" ✓"),
            Err(e) => "Error: ".to_string().concat(e.as_str()),
        };
        self.state.msg = status.clone();
        status
    }

    /// Chooses the device at a position of the list, and gives the file that
    /// keeps its address. Nothing happens where the list is shorter.
    pub fn select_device(&mut self, dir: &str, index: usize) -> (save: Option<ConfigFile>)
        ensures
            final(self)@ == old(self)@.selecting(index as int),
            save is Some <==> index < old(self)@.devices.len(),
            save matches Some(file) ==> file@ == config::file_in(
                dir@,
                "mac"@,
                config::mac_contents(old(self)@.devices[index as int].0),
            ),
    {
        if index < self.state.devices.len() {
            let mac = self.state.devices[index].0.clone();
            let save = config::save_mac(dir, mac.as_str());
            self.state.msg = "MAC guardada: ".to_string().concat(mac.as_str());
            self.state.mac = mac;
            Some(save)
        } else {
            None
        }
    }

    /// Begins to apply the profile, the device being connected: if there is a
    /// device and the profile is to be applied.
    pub fn apply_profile_on_connect(&mut self) -> (job: Option<Job>)
        ensures
            final(self)@ == old(self)@.applying(),
            job_view(job) == old(self)@.job(),
    {
        if self.state.mac.as_str().is_empty() || !self.state.auto_apply || !self.state.connected {
            return None;
        }
        let profile = self.state.profile;
        self.state.msg = "Conectado, aplicando ".to_string().concat(profile.label()).concat("…");
        Some(Job { mac: self.state.mac.clone(), profile })
    }

    /// Reports how the sending of the profile on connecting ended, and gives
    /// the text of the notification.
    pub fn profile_applied(&mut self, profile: Profile, outcome: Result<(), String>) -> (status:
        String)
        ensures
            status@ == applied_text(profile, session::outcome_view(outcome)),
            final(self)@ == old(self)@.saying(status@),
    {
        let status = match outcome {
            Ok(_) => profile.label().to_string().concat(" aplicado al conectar ✓"),
            Err(e) => "Conectado, pero no se pudo aplicar el perfil: ".to_string().concat(
                e.as_str(),
            ),
        };
        self.state.msg = status.clone();
        status
    }

    /// Chooses whether the profile is applied on connecting, by the position in
    /// the menu; gives the file that keeps the choice, and what to send if the
    /// device is connected already.
    pub fn select_auto_apply(&mut self, dir: &str, index: usize) -> (change: (
        ConfigFile,
        Option<Job>,
    ))
        ensures
            change.0@ == config::file_in(
                dir@,
                "autoapply"@,
                config::auto_apply_contents(index == 0),
            ),
            ({
                let chosen = TrayModel { auto_apply: index == 0, ..old(self)@ };
                &&& final(self)@ == chosen.applying()
                &&& job_view(change.1) == chosen.job()
            }),
    {
        let auto = index == 0;
        self.state.auto_apply = auto;
        let save = config::save_auto_apply(dir, auto);
        if auto {
            let job = self.apply_profile_on_connect();
            (save, job)
        } else {
            (save, None)
        }
    }

    /// What to run before it is said which device is configured: the device
    /// list, if there is a device to be found in it.
    pub fn config_about_to_show(&self) -> (run: Option<Invocation>)
        ensures
            run is Some <==> !text::is_blank(self@.mac),
            run matches Some(r) ==> r@ == ("bluetoothctl"@, seq!["devices"@]),
    {
        if text::blank(self.state.mac.as_str()) {
            None
        } else {
            Some(command::device_list())
        }
    }

    /// Says which device is configured, given the devices that are listed now,
    /// and gives the text of the notification.
    pub fn show_config(&mut self, dir: &str, listed: &Vec<(String, String)>) -> (status: String)
        ensures
            status@ == old(self)@.config_text(dir@, devices::device_views(listed@)),
            final(self)@ == old(self)@.saying(status@),
    {
        let status = if text::blank(self.state.mac.as_str()) {
            let path = config::join_path(dir, "mac");
            "MAC no configurada: ponla en ".to_string().concat(path.as_str()).concat(
                " o elige el dispositivo en el menú",
            )
        } else {
            let label = devices::device_label(self.state.mac.as_str(), listed);
            "Dispositivo actual: ".to_string().concat(label.as_str()).concat("\nMAC: ").concat(
                self.state.mac.as_str(),
            )
        };
        self.state.msg = status.clone();
        status
    }
}

/// A list of devices is shown for less than six seconds, and not any longer.
pub proof fn law_freshness(
    t: TrayModel,
    devices: Seq<(Seq<char>, Seq<char>)>,
    fetched: u128,
    now: u128,
)
    ensures
        t.listing(devices, fetched).stale(now) <==> now >= fetched + 6 * NANOS_PER_SEC,
        t.refreshed(devices, fetched).stale(now) <==> now >= fetched + 6 * NANOS_PER_SEC,
{
}

/// The profile that is chosen is the profile that a later start loads, whether
/// or not it could be sent.
pub proof fn law_profile_survives(t: TrayModel, p: Profile)
    ensures
        config::loaded_profile(Some(config::profile_contents(p))) == t.choosing(p).profile,
{
    config::law_profile_kept(p);
}

/// The device that is chosen from a list is the device that a later start
/// loads, unless the environment sets one.
pub proof fn law_device_survives(
    t: TrayModel,
    output: Seq<char>,
    index: int,
    env: Option<Seq<char>>,
)
    requires
        t.devices == devices::devices_of(output),
        0 <= index < t.devices.len(),
        env matches Some(m) ==> text::is_blank(m),
    ensures
        config::loaded_mac(env, Some(config::mac_contents(t.devices[index].0))) == t.selecting(
            index,
        ).mac,
{
    devices::law_addresses_solid(output, index);
    config::law_mac_kept(t.devices[index].0, env);
}

/// Choosing a profile changes the profile and the message only, and choosing a
/// device the device and the message only.
pub proof fn law_choices_frame(t: TrayModel, p: Profile, index: int)
    ensures
        ({
            let chosen = t.choosing(p);
            t == TrayModel { profile: t.profile, msg: t.msg, ..chosen }
        }),
        ({
            let selected = t.selecting(index);
            t == TrayModel { mac: t.mac, msg: t.msg, ..selected }
        }),
{
}

/// Nothing is sent on its own while the device is not connected or the user
/// has switched that off.
pub proof fn law_applies_only_if_wanted(t: TrayModel)
    ensures
        t.job() is Some ==> t.connected && t.auto_apply && t.mac.len() > 0,
        !t.connected || !t.auto_apply ==> t.job() is None && t.applying() == t,
        t.applying().job() == t.job(),
{
}

/// The tray starts with what it is given, and its first message says whether
/// there is a device, and whether that is connected.
pub proof fn law_start(
    mac: Seq<char>,
    profile: Profile,
    devices: Seq<(Seq<char>, Seq<char>)>,
    now: u128,
    connected: bool,
    auto_apply: bool,
)
    ensures
        ({
            let t = TrayModel::start(mac, profile, devices, now, connected, auto_apply);
            &&& t.mac == mac
            &&& t.profile == profile
            &&& t.devices == devices
            &&& t.devices_fetched_at == Some(now)
            &&& t.connected == connected
            &&& t.auto_apply == auto_apply
            &&& text::is_blank(mac) ==> t.msg == "Sin MAC: elige dispositivo en el menú"@
            &&& !text::is_blank(mac) && connected ==> t.msg == "Conectado"@
            &&& !text::is_blank(mac) && !connected ==> t.msg == "Listo ("@ + mac + ")"@
        }),
{
}

/// A message changes what the tray says, and nothing else.
pub proof fn law_saying(t: TrayModel, msg: Seq<char>)
    ensures
        t.saying(msg).msg == msg,
        t.saying(msg).mac == t.mac,
        t.saying(msg).profile == t.profile,
        t.saying(msg).devices == t.devices,
        t.saying(msg).devices_fetched_at == t.devices_fetched_at,
        t.saying(msg).connected == t.connected,
        t.saying(msg).auto_apply == t.auto_apply,
{
}

/// A list of devices replaces the one before it. Where it was asked for and is
/// empty, the tray says so; else no message is lost, and nothing else changes.
pub proof fn law_devices_listed(
    t: TrayModel,
    devices: Seq<(Seq<char>, Seq<char>)>,
    now: u128,
)
    ensures
        t.listing(devices, now).devices == devices,
        t.refreshed(devices, now).devices == devices,
        t.listing(devices, now).devices_fetched_at == Some(now),
        t.refreshed(devices, now).devices_fetched_at == Some(now),
        t.listing(devices, now).msg == t.msg,
        devices.len() > 0 ==> t.refreshed(devices, now).msg == t.msg,
        devices.len() == 0 ==> t.refreshed(devices, now).msg
            == "No se encontró ningún auricular Sony pareado"@,
        t == (TrayModel {
            devices: t.devices,
            devices_fetched_at: t.devices_fetched_at,
            ..t.listing(devices, now)
        }),
        t == (TrayModel {
            devices: t.devices,
            devices_fetched_at: t.devices_fetched_at,
            msg: t.msg,
            ..t.refreshed(devices, now)
        }),
{
}

/// A list that was never fetched is too old to be shown.
pub proof fn law_never_fetched(t: TrayModel, now: u128)
    requires
        t.devices_fetched_at is None,
    ensures
        t.stale(now),
{
}

/// The profile that is chosen is the profile of the tray, and the tray says that
/// it is being sent, or that there is no device to send it to.
pub proof fn law_profile_chosen(t: TrayModel, p: Profile)
    ensures
        t.choosing(p).profile == p,
        text::is_blank(t.mac) ==> t.choosing(p).msg == "Configura la MAC del dispositivo"@,
        !text::is_blank(t.mac) ==> t.choosing(p).msg == "Enviando "@ + profile::label_of(p) + "…"@,
{
}

/// The device that is chosen is the device of the tray, and the tray says that
/// its address is kept. Choosing what is not listed does nothing.
pub proof fn law_device_chosen(t: TrayModel, index: int)
    ensures
        0 <= index < t.devices.len() ==> t.selecting(index).mac == t.devices[index].0
            && t.selecting(index).msg == "MAC guardada: "@ + t.devices[index].0,
        !(0 <= index < t.devices.len()) ==> t.selecting(index) == t,
{
}

/// If there is a device, it is connected and the profile is to be applied, then
/// it is applied, whatever the profile: what is sent is the current profile, to
/// the device of the tray, and the tray says so. Else nothing happens.
pub proof fn law_applies_whenever_wanted(t: TrayModel)
    ensures
        t.mac.len() > 0 && t.auto_apply && t.connected ==> t.job() == Some((t.mac, t.profile)),
        t.mac.len() > 0 && t.auto_apply && t.connected ==> t.applying() == (TrayModel {
            msg: "Conectado, aplicando "@ + profile::label_of(t.profile) + "…"@,
            ..t
        }),
        t.mac.len() == 0 || !t.auto_apply || !t.connected ==> t.job() is None && t.applying() == t,
{
}

/// A report names the profile where it was sent, and holds the whole error
/// where it was not; the two kinds of report are told apart.
pub proof fn law_reports(p: Profile, e: Seq<char>)
    ensures
        sent_text(p, Ok(())) == profile::label_of(p) + " ✓"@,
        applied_text(p, Ok(())) == profile::label_of(p) + " aplicado al conectar ✓"@,
        sent_text(p, Err(e)) == "Error: "@ + e,
        applied_text(p, Err(e)) == "Conectado, pero no se pudo aplicar el perfil: "@ + e,
{
}

/// What the tray says of its device: where to put its address if there is none,
/// else how it is called, and its address.
pub proof fn law_config_shown(
    t: TrayModel,
    dir: Seq<char>,
    listed: Seq<(Seq<char>, Seq<char>)>,
)
    ensures
        text::is_blank(t.mac) ==> t.config_text(dir, listed) == "MAC no configurada: ponla en "@
            + config::path_of(dir, "mac"@) + " o elige el dispositivo en el menú"@,
        !text::is_blank(t.mac) ==> t.config_text(dir, listed) == "Dispositivo actual: "@
            + devices::label_for(t.mac, listed) + "\nMAC: "@ + t.mac,
{
}

/// The tray and its jobs are seen as they are.
pub proof fn law_tray_views(t: SonyTray, state: State, job: Job)
    ensures
        t@ == t.state@,
        state@.mac == state.mac@,
        state@.profile == state.profile,
        state@.msg == state.msg@,
        state@.devices == devices::device_views(state.devices@),
        state@.devices_fetched_at == state.devices_fetched_at,
        state@.connected == state.connected,
        state@.auto_apply == state.auto_apply,
        job_view(Some(job)) == Some((job.mac@, job.profile)),
        job_view(None) is None,
{
}

} // verus!
