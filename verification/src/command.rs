//! The programs that the tray runs, and with which arguments.

use vstd::prelude::*;

use crate::text;

verus! {

/// The identifier under which the headphones offer their control service.
pub const SERVICE_UUID: &'static str = "96cc203e-5068-46ad-b32d-e316f5e069ba";

/// The title of the notifications.
pub const NOTIFICATION_TITLE: &'static str = "Sony Headphones";

/// The web page of the author.
pub const AUTHOR_URL: &'static str = "https://theoneprogrammer.com";

/// The web page of the project that documents the protocol.
pub const PROTOCOL_URL: &'static str = "https://github.com/ClusterM/sony-headphones-control";

/// A program to run and its arguments.
#[derive(Debug)]
pub struct Invocation {
    pub program: String,
    pub args: Vec<String>,
}

impl View for Invocation {
    type V = (Seq<char>, Seq<Seq<char>>);

    open spec fn view(&self) -> (Seq<char>, Seq<Seq<char>>) {
        (self.program@, text::string_views(self.args@))
    }
}

/// What the window about the program says.
pub open spec fn about_of(version: Seq<char>) -> Seq<char> {
    "Sony Headphones Tray v"@ + version + ABOUT_BODY@
}

/// What the window about the program says below its first line.
pub const ABOUT_BODY: &'static str = "\n\nControl del modo de sonido de auriculares Sony\ndesde la bandeja de KDE.\n\nCompatibles (mismo protocolo RFCOMM):\nWH-1000XM2/XM3/XM4 · WF-1000XM3 · WH-XB900N · WI-1000X\n\nAutor: TheOneProgrammer\nWeb: https://theoneprogrammer.com\n\nCódigo desarrollado y revisado con asistencia de IA (opencode).\nProtocolo original: ClusterM / sony-headphones-control.";

fn invocation(program: &str, args: &[&str]) -> (run: Invocation)
    ensures
        run@ == (program@, text::views(args@)),
{
    let mut list: Vec<String> = Vec::new();
    let mut i: usize = 0;
    while i < args.len()
        invariant
            i <= args.len(),
            text::string_views(list@) == text::views(args@.take(i as int)),
        decreases args.len() - i,
    {
        let ghost done = list@;
        list.push(args[i].to_string());
        proof {
            assert(text::string_views(list@) =~= text::string_views(done).push(args@[i as int]@));
            assert(text::views(args@.take(i + 1)) =~= text::views(args@.take(i as int)).push(
                args@[i as int]@,
            ));
        }
        i = i + 1;
    }
    proof {
        assert(args@.take(i as int) =~= args@);
    }
    Invocation { program: program.to_string(), args: list }
}

/// The search for the control service of a device.
pub fn service_search(mac: &str) -> (run: Invocation)
    ensures
        run@ == ("sdptool"@, seq!["search"@, "--uuid"@, SERVICE_UUID@, mac@]),
{
    invocation("sdptool", &["search", "--uuid", SERVICE_UUID, mac])
}

/// The list of the paired devices.
pub fn device_list() -> (run: Invocation)
    ensures
        run@ == ("bluetoothctl"@, seq!["devices"@]),
{
    invocation("bluetoothctl", &["devices"])
}

/// The description of a device. There is none without an address.
pub fn device_description(mac: &str) -> (run: Option<Invocation>)
    ensures
        run is Some <==> !text::is_blank(mac@),
        run matches Some(r) ==> r@ == ("bluetoothctl"@, seq!["info"@, mac@]),
{
    if text::blank(mac) {
        None
    } else {
        Some(invocation("bluetoothctl", &["info", mac]))
    }
}

/// The program that shows a notification.
pub fn notify(title: &str, body: &str) -> (run: Invocation)
    ensures
        run@ == ("notify-send"@, seq![title@, body@]),
{
    invocation("notify-send", &[title, body])
}

/// The program that shows a notification where the first one did not succeed:
/// it could not be run, or it failed.
pub fn notify_again(title: &str, body: &str, succeeded: Option<bool>) -> (run: Option<Invocation>)
    ensures
        run is None <==> succeeded == Some(true),
        run matches Some(r) ==> r@ == (
            "kdialog"@,
            seq!["--title"@, title@, "--passivepopup"@, body@, "3500"@],
        ),
{
    match succeeded {
        Some(true) => None,
        _ => Some(invocation("kdialog", &["--title", title, "--passivepopup", body, "3500"])),
    }
}

/// What the window about the program says.
pub fn about_text(version: &str) -> (body: String)
    ensures
        body@ == about_of(version@),
{
    "Sony Headphones Tray v".to_string().concat(version).concat(ABOUT_BODY)
}

/// The program that shows the window about the program.
pub fn show_about(version: &str) -> (run: Invocation)
    ensures
        run@ == (
            "kdialog"@,
            seq!["--title"@, "Acerca de Sony Headphones Tray"@, "--msgbox"@, about_of(version@)],
        ),
{
    let body = about_text(version);
    invocation(
        "kdialog",
        &["--title", "Acerca de Sony Headphones Tray", "--msgbox", body.as_str()],
    )
}

/// The program that opens a web page.
pub fn open_url(url: &str) -> (run: Invocation)
    ensures
        run@ == ("xdg-open"@, seq![url@]),
{
    invocation("xdg-open", &[url])
}

/// The window about the program begins with its name and its version, on a line
/// of their own, so that different versions show different texts.
pub proof fn law_about_shows_version(version: Seq<char>, other: Seq<char>)
    ensures
        ("Sony Headphones Tray v"@ + version + "\n"@).is_prefix_of(about_of(version)),
        about_of(version) == about_of(other) ==> version == other,
        ABOUT_BODY@.is_suffix_of(about_of(version)),
        about_of(version).len() == "Sony Headphones Tray v"@.len() + version.len()
            + ABOUT_BODY@.len(),
{
    reveal_strlit(
        "\n\nControl del modo de sonido de auriculares Sony\ndesde la bandeja de KDE.\n\nCompatibles (mismo protocolo RFCOMM):\nWH-1000XM2/XM3/XM4 · WF-1000XM3 · WH-XB900N · WI-1000X\n\nAutor: TheOneProgrammer\nWeb: https://theoneprogrammer.com\n\nCódigo desarrollado y revisado con asistencia de IA (opencode).\nProtocolo original: ClusterM / sony-headphones-control.",
    );
    reveal_strlit("\n");
    let start = "Sony Headphones Tray v"@;
    let first = start + version + "\n"@;
    assert(about_of(version).subrange(0, first.len() as int) =~= first);
    assert(about_of(version).subrange(
        about_of(version).len() - ABOUT_BODY@.len(),
        about_of(version).len() as int,
    ) =~= ABOUT_BODY@);
    if about_of(version) == about_of(other) {
        let n = start.len() as int;
        assert(about_of(version).len() == n + version.len() + ABOUT_BODY@.len());
        assert(about_of(other).len() == n + other.len() + ABOUT_BODY@.len());
        assert(version =~= about_of(version).subrange(n, n + version.len()));
        assert(other =~= about_of(other).subrange(n, n + other.len()));
    }
}

/// A program to run is seen with its name and its arguments, in their order.
pub proof fn law_invocation_view(run: Invocation, i: int)
    requires
        0 <= i < run.args@.len(),
    ensures
        run@.0 == run.program@,
        run@.1.len() == run.args@.len(),
        run@.1[i] == run.args@[i]@,
{
}

/// What the programs are told: the service that is searched for, the title of
/// the notifications, and the web pages.
pub proof fn law_fixed_arguments()
    ensures
        SERVICE_UUID@ == "96cc203e-5068-46ad-b32d-e316f5e069ba"@,
        NOTIFICATION_TITLE@ == "Sony Headphones"@,
        AUTHOR_URL@ == "https://theoneprogrammer.com"@,
        PROTOCOL_URL@ == "https://github.com/ClusterM/sony-headphones-control"@,
{
}

} // verus!
