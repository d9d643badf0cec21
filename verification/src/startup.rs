//! What the program decides as it starts.

use vstd::prelude::*;

use crate::command;
use crate::command::Invocation;
use crate::devices;
use crate::text;
use crate::tray;
use crate::tray::Job;
use crate::tray::SonyTray;

verus! {

/// The position of the first argument that is `--mac`, counted from `from`.
pub open spec fn option_position(args: Seq<Seq<char>>, from: int) -> Option<int>
    decreases args.len() - from,
{
    if from >= args.len() {
        None
    } else if args[from] == "--mac"@ {
        Some(from)
    } else {
        option_position(args, from + 1)
    }
}

/// The address of the device: what follows the option `--mac`, or what is
/// configured where the option, or what should follow it, is missing.
pub open spec fn chosen_mac(configured: Seq<char>, args: Seq<Seq<char>>) -> Seq<char> {
    match option_position(args, 0) {
        Some(at) => if at + 1 < args.len() {
            args[at + 1]
        } else {
            configured
        },
        None => configured,
    }
}

/// What comes of looking for a device: there is one already; the only one that
/// is paired is taken, its address is to be saved, and a line says so; or there
/// is a warning.
#[derive(Debug)]
pub enum Detection {
    Configured,
    Adopted(String, String),
    Warning(String),
}

/// What comes of looking for a device, as a model.
pub enum DetectionModel {
    Configured,
    Adopted(Seq<char>, Seq<char>),
    Warning(Seq<char>),
}

impl View for Detection {
    type V = DetectionModel;

    open spec fn view(&self) -> DetectionModel {
        match self {
            Detection::Configured => DetectionModel::Configured,
            Detection::Adopted(mac, notice) => DetectionModel::Adopted(mac@, notice@),
            Detection::Warning(warning) => DetectionModel::Warning(warning@),
        }
    }
}

/// What comes of looking for a device among those that are paired.
pub open spec fn detection_of(
    mac: Seq<char>,
    found: Seq<(Seq<char>, Seq<char>)>,
    dir: Seq<char>,
) -> DetectionModel {
    if !text::is_blank(mac) {
        DetectionModel::Configured
    } else if found.len() == 1 {
        DetectionModel::Adopted(
            found[0].0,
            "Dispositivo detectado automáticamente: "@ + found[0].1 + " ("@ + found[0].0 + ")"@,
        )
    } else if found.len() == 0 {
        DetectionModel::Warning(
            "Aviso: no hay MAC configurada ni auricular Sony pareado detectado.\n  Empareja los auriculares o pon la MAC en "@
                + dir + " /mac\n  También puedes elegirla desde el menú de la bandeja"@,
        )
    } else {
        DetectionModel::Warning(
            "Se encontraron varios dispositivos Sony: elige el dispositivo desde el menú de la bandeja."@,
        )
    }
}

/// The address of the device, given what is configured and the arguments of
/// the program.
pub fn mac_from_args(configured: String, args: &Vec<String>) -> (mac: String)
    ensures
        mac@ == chosen_mac(configured@, text::string_views(args@)),
{
    let ghost all = text::string_views(args@);
    let mut i: usize = 0;
    while i < args.len()
        invariant
            all == text::string_views(args@),
            i <= args.len(),
            option_position(all, 0) == option_position(all, i as int),
        decreases args.len() - i,
    {
        proof {
            assert(all[i as int] == args@[i as int]@);
        }
        if text::same(args[i].as_str(), "--mac") {
            if i + 1 < args.len() {
                return args[i + 1].clone();
            }
            return configured;
        }
        i = i + 1;
    }
    configured
}

/// What to run to look for a device: the device list, unless there is a device
/// already.
pub fn device_search(mac: &str) -> (run: Option<Invocation>)
    ensures
        run is Some <==> text::is_blank(mac@),
        run matches Some(r) ==> r@ == ("bluetoothctl"@, seq!["devices"@]),
{
    if text::blank(mac) {
        Some(command::device_list())
    } else {
        None
    }
}

/// What comes of looking for a device among those that are paired, the
/// configuration being in the directory `dir`.
pub fn detect_device(mac: &str, found: &Vec<(String, String)>, dir: &str) -> (detection: Detection)
    ensures
        detection@ == detection_of(mac@, devices::device_views(found@), dir@),
{
    if !text::blank(mac) {
        return Detection::Configured;
    }
    if found.len() == 1 {
        let address = found[0].0.clone();
        let notice = "Dispositivo detectado automáticamente: ".to_string().concat(
            found[0].1.as_str(),
        ).concat(" (").concat(address.as_str()).concat(")");
        Detection::Adopted(address, notice)
    } else if found.len() == 0 {
        let first = "Aviso: no hay MAC configurada ni auricular Sony pareado detectado.\n  Empareja los auriculares o pon la MAC en ".to_string();
        Detection::Warning(
            first.concat(dir).concat(
                " /mac\n  También puedes elegirla desde el menú de la bandeja",
            ),
        )
    } else {
        Detection::Warning(
            "Se encontraron varios dispositivos Sony: elige el dispositivo desde el menú de la bandeja.".to_string(),
        )
    }
}

impl SonyTray {
    /// Applies the profile as the program starts, if its device is connected.
    pub fn apply_at_start(&mut self) -> (job: Option<Job>)
        ensures
            final(self)@ == if text::is_blank(old(self)@.mac) {
                old(self)@
            } else {
                old(self)@.applying()
            },
            tray::job_view(job) == if text::is_blank(old(self)@.mac) {
                None
            } else {
                old(self)@.job()
            },
    {
        if self.state.connected && !text::blank(self.state.mac.as_str()) {
            self.apply_profile_on_connect()
        } else {
            None
        }
    }
}

/// The option of the program comes before everything else that is configured.
pub proof fn law_option_first(
    configured: Seq<char>,
    before: Seq<Seq<char>>,
    mac: Seq<char>,
    after: Seq<Seq<char>>,
)
    requires
        forall|i: int| 0 <= i < before.len() ==> (#[trigger] before[i]) != "--mac"@,
    ensures
        chosen_mac(configured, before + seq!["--mac"@, mac] + after) == mac,
        chosen_mac(configured, before) == configured,
{
    let args = before + seq!["--mac"@, mac] + after;
    lemma_option_position(args, 0, before.len() as int);
    lemma_no_option(before, 0);
}

/// A device is taken without being asked for only if none is configured and it
/// is the only one that is paired.
pub proof fn law_adopts_only_device(
    mac: Seq<char>,
    found: Seq<(Seq<char>, Seq<char>)>,
    dir: Seq<char>,
)
    ensures
        detection_of(mac, found, dir) is Adopted <==> text::is_blank(mac) && found.len() == 1,
        detection_of(mac, found, dir) matches DetectionModel::Adopted(adopted, _) ==> adopted
            == found[0].0,
{
}

proof fn lemma_option_position(args: Seq<Seq<char>>, from: int, at: int)
    requires
        0 <= from <= at < args.len(),
        args[at] == "--mac"@,
        forall|i: int| from <= i < at ==> (#[trigger] args[i]) != "--mac"@,
    ensures
        option_position(args, from) == Some(at),
    decreases at - from,
{
    if from < at {
        assert(args[from] != "--mac"@);
        lemma_option_position(args, from + 1, at);
    }
}

proof fn lemma_no_option(args: Seq<Seq<char>>, from: int)
    requires
        0 <= from,
        forall|i: int| 0 <= i < args.len() ==> (#[trigger] args[i]) != "--mac"@,
    ensures
        option_position(args, from) is None,
    decreases args.len() - from,
{
    if from < args.len() {
        assert(args[from] != "--mac"@);
        lemma_no_option(args, from + 1);
    }
}

/// The option without anything behind it changes nothing.
pub proof fn law_option_without_value(configured: Seq<char>, before: Seq<Seq<char>>)
    requires
        forall|i: int| 0 <= i < before.len() ==> (#[trigger] before[i]) != "--mac"@,
    ensures
        chosen_mac(configured, before.push("--mac"@)) == configured,
{
    lemma_option_position(before.push("--mac"@), 0, before.len() as int);
}

/// What is said of looking for a device: the name and the address of the one
/// that is taken; where to put an address if none is paired; to choose one if
/// there are several.
pub proof fn law_detection_said(
    mac: Seq<char>,
    found: Seq<(Seq<char>, Seq<char>)>,
    dir: Seq<char>,
)
    ensures
        !text::is_blank(mac) ==> detection_of(mac, found, dir) is Configured,
        text::is_blank(mac) && found.len() == 1 ==> detection_of(mac, found, dir)
            == DetectionModel::Adopted(
            found[0].0,
            "Dispositivo detectado automáticamente: "@ + found[0].1 + " ("@ + found[0].0 + ")"@,
        ),
        text::is_blank(mac) && found.len() == 0 ==> detection_of(mac, found, dir)
            == DetectionModel::Warning(
            "Aviso: no hay MAC configurada ni auricular Sony pareado detectado.\n  Empareja los auriculares o pon la MAC en "@
                + dir + " /mac\n  También puedes elegirla desde el menú de la bandeja"@,
        ),
        text::is_blank(mac) && found.len() > 1 ==> detection_of(mac, found, dir)
            == DetectionModel::Warning(
            "Se encontraron varios dispositivos Sony: elige el dispositivo desde el menú de la bandeja."@,
        ),
{
}

/// What comes of looking for a device is seen as it is.
pub proof fn law_detection_view(d: Detection)
    ensures
        d is Configured ==> d@ is Configured,
        d matches Detection::Adopted(mac, notice) ==> d@ == DetectionModel::Adopted(mac@, notice@),
        d matches Detection::Warning(warning) ==> d@ == DetectionModel::Warning(warning@),
{
}

} // verus!
