//! What the Bluetooth service signals, and how the tray reacts.

use std::collections::HashMap;
use vstd::prelude::*;
use zbus::zvariant::serialized::{Context, Data};
use zbus::zvariant::{Endian, OwnedFd, OwnedValue};

use crate::address;
use crate::platform;
use crate::profile;
use crate::text;
use crate::tray;
use crate::tray::Job;
use crate::tray::SonyTray;
use crate::tray::TrayModel;

verus! {

/// The interface whose properties describe a device.
pub const DEVICE_INTERFACE: &'static str = "org.bluez.Device1";

/// The property that says whether a device is connected.
pub const CONNECTED_PROPERTY: &'static str = "Connected";

/// A file descriptor that came with a message, `zbus::zvariant::OwnedFd`. It is
/// handed on and never looked into.
#[verifier::external_type_specification]
#[verifier::external_body]
pub struct ExOwnedFd(zbus::zvariant::OwnedFd);

/// A message that properties of an object have changed: the path of the
/// object, and the body as it came over the bus, with its byte order, its type
/// signature and the file descriptors that came with it.
#[derive(Debug)]
pub struct BluezSignal {
    pub path: Option<String>,
    pub big_endian: bool,
    pub signature: String,
    pub body: Vec<u8>,
    pub fds: Vec<OwnedFd>,
}

/// What the body of such a message says: the interface that the properties
/// belong to, and the changed properties by name, each with its value if that
/// is a truth value.
#[derive(Debug)]
pub struct PropertiesChanged {
    pub interface: String,
    pub changed: Vec<(String, Option<bool>)>,
}

/// What the body of a message about changed properties says, by its bytes,
/// its byte order, its signature and the number of file descriptors that came
/// with it, as `zbus` reads it; nothing where it cannot be read.
pub uninterp spec fn read_body(
    body: Seq<u8>,
    big_endian: bool,
    signature: Seq<char>,
    fds: nat,
) -> Option<(Seq<char>, Map<Seq<char>, Option<bool>>)>;

/// Whether a list of properties has the entries of a map, each once, in any
/// order.
pub open spec fn lists(
    changed: Seq<(String, Option<bool>)>,
    map: Map<Seq<char>, Option<bool>>,
) -> bool {
    &&& forall|i: int, j: int|
        0 <= i < j < changed.len() ==> (#[trigger] changed[i]).0@ != (#[trigger] changed[j]).0@
    &&& forall|i: int|
        0 <= i < changed.len() ==> map.contains_key((#[trigger] changed[i]).0@)
            && map[changed[i].0@] == changed[i].1
    &&& forall|name: Seq<char>| #[trigger]
        map.contains_key(name) ==> exists|i: int|
            0 <= i < changed.len() && (#[trigger] changed[i]).0@ == name
}

/// The reading of a message body that `zbus::message::Body::deserialize` does:
/// `Data::deserialize_for_dynamic_signature`, for an interface name, the
/// changed properties by name and a list of names, from the bytes of a body
/// that starts on an eight-byte boundary and the file descriptors that came
/// with it. What is read is a function of the bytes, their order, the
/// signature and the number of descriptors; each property comes once, in no
/// order that is stated, and its value is what `bool::try_from` makes of it.
/// What a given body holds is not stated. A body that can be read without
/// descriptors refers to none, and is always read. Of another it is not stated
/// that it is: a descriptor that the body refers to is duplicated, which the
/// system may refuse. Where addresses have 32 bits, adding up a declared length
/// near four gibibytes overflows; no valid message declares one.
#[verifier::external_body]
fn decode_body(body: &[u8], big_endian: bool, signature: &str, fds: &[OwnedFd]) -> (read: Option<
    PropertiesChanged,
>)
    ensures
        read matches Some(r) ==> ({
            let named = read_body(body@, big_endian, signature@, fds@.len());
            named is Some && r.interface@ == (named->0).0 && lists(r.changed@, (named->0).1)
        }),
        read_body(body@, big_endian, signature@, 0) is Some ==> read is Some,
{
    let endian = if big_endian { Endian::Big } else { Endian::Little };
    let data = Data::new_borrowed_fds(body, Context::new_dbus(endian, 0), fds);
    let read: Result<((String, HashMap<String, OwnedValue>, Vec<String>), usize), _> =
        data.deserialize_for_dynamic_signature(signature);
    let (interface, values, _) = read.ok()?.0;
    let changed = values.iter().map(|(n, v)| (n.clone(), bool::try_from(v).ok())).collect();
    Some(PropertiesChanged { interface, changed })
}

/// What a property of a map says, as far as it is a truth value.
pub open spec fn truth_of(map: Map<Seq<char>, Option<bool>>, name: Seq<char>) -> Option<bool> {
    if map.contains_key(name) {
        map[name]
    } else {
        None
    }
}

/// What a body says of the connection of a device, if it speaks of that.
pub open spec fn connection_in(
    read: Option<(Seq<char>, Map<Seq<char>, Option<bool>>)>,
) -> Option<bool> {
    match read {
        Some((interface, changed)) => if interface == DEVICE_INTERFACE@ {
            truth_of(changed, CONNECTED_PROPERTY@)
        } else {
            None
        },
        None => None,
    }
}

/// How the tray reacts to a signal: not at all; the device is connected now,
/// with what is to be sent to it; or it is no longer, with the text of the
/// notification.
#[derive(Debug)]
pub enum Reaction {
    Ignored,
    Connected(Option<Job>),
    Disconnected(String),
}

/// A reaction, as a model.
pub enum ReactionModel {
    Ignored,
    Connected(Option<(Seq<char>, profile::Profile)>),
    Disconnected(Seq<char>),
}

impl View for Reaction {
    type V = ReactionModel;

    open spec fn view(&self) -> ReactionModel {
        match self {
            Reaction::Ignored => ReactionModel::Ignored,
            Reaction::Connected(job) => ReactionModel::Connected(tray::job_view(*job)),
            Reaction::Disconnected(body) => ReactionModel::Disconnected(body@),
        }
    }
}

/// The tray with a connection that has just changed, before anything is sent.
pub open spec fn changed_to(t: TrayModel, connected: bool) -> TrayModel {
    TrayModel {
        connected,
        msg: if connected {
            "Dispositivo conectado"@
        } else {
            "Dispositivo desconectado"@
        },
        ..t
    }
}

/// The tray after it was told of the connection of a device, its own address
/// in lower case being `own`.
pub open spec fn told(
    t: TrayModel,
    device: Seq<char>,
    own: Seq<char>,
    connected: bool,
) -> TrayModel {
    if device != own || t.connected == connected {
        t
    } else {
        changed_to(t, connected).applying()
    }
}

/// How the tray reacts to being told of the connection of a device.
pub open spec fn reaction_to(
    t: TrayModel,
    device: Seq<char>,
    own: Seq<char>,
    connected: bool,
) -> ReactionModel {
    if device != own || t.connected == connected {
        ReactionModel::Ignored
    } else if connected {
        ReactionModel::Connected(changed_to(t, connected).job())
    } else {
        ReactionModel::Disconnected("Auriculares desconectados"@)
    }
}

/// What a signal says: of which device, and whether it is connected.
pub open spec fn news(path: Option<Seq<char>>, connection: Option<bool>) -> Option<
    (Seq<char>, bool),
> {
    match path {
        Some(p) => match (address::mac_of_path(p), connection) {
            (Some(device), Some(connected)) => Some((device, connected)),
            _ => None,
        },
        None => None,
    }
}

/// The tray after a signal.
pub open spec fn after_news(t: TrayModel, n: Option<(Seq<char>, bool)>) -> TrayModel {
    match n {
        Some((device, connected)) => told(t, device, platform::lowered(t.mac), connected),
        None => t,
    }
}

/// How the tray reacts to a signal.
pub open spec fn reaction_to_news(t: TrayModel, n: Option<(Seq<char>, bool)>) -> ReactionModel {
    match n {
        Some((device, connected)) => reaction_to(
            t,
            device,
            platform::lowered(t.mac),
            connected,
        ),
        None => ReactionModel::Ignored,
    }
}

/// A path that may be missing.
pub open spec fn path_view(path: Option<String>) -> Option<Seq<char>> {
    match path {
        Some(p) => Some(p@),
        None => None,
    }
}

/// What a signal says.
pub open spec fn news_of(s: BluezSignal) -> Option<(Seq<char>, bool)> {
    news(
        path_view(s.path),
        connection_in(read_body(s.body@, s.big_endian, s.signature@, s.fds@.len())),
    )
}

/// What the first property of a name in a list says, as far as it is a truth
/// value.
pub open spec fn truth_in(changed: Seq<(String, Option<bool>)>, name: Seq<char>) -> Option<bool>
    decreases changed.len(),
{
    if changed.len() == 0 {
        None
    } else if changed[0].0@ == name {
        changed[0].1
    } else {
        truth_in(changed.drop_first(), name)
    }
}

/// What a list of changed properties says of the connection of a device.
pub open spec fn connection_listed(read: PropertiesChanged) -> Option<bool> {
    if read.interface@ == DEVICE_INTERFACE@ {
        truth_in(read.changed@, CONNECTED_PROPERTY@)
    } else {
        None
    }
}

/// What a body says of the connection of a device, if it could be read.
pub open spec fn connection_read(read: Option<PropertiesChanged>) -> Option<bool> {
    match read {
        Some(r) => connection_listed(r),
        None => None,
    }
}

/// What a list of changed properties says of the connection of a device.
pub fn connection_change(read: &PropertiesChanged) -> (connected: Option<bool>)
    ensures
        connected == connection_listed(*read),
{
    if !text::same(read.interface.as_str(), DEVICE_INTERFACE) {
        return None;
    }
    let ghost all = read.changed@;
    let mut i: usize = 0;
    proof {
        assert(all.skip(0) =~= all);
    }
    while i < read.changed.len()
        invariant
            read.interface@ == DEVICE_INTERFACE@,
            all == read.changed@,
            i <= read.changed.len(),
            truth_in(all, CONNECTED_PROPERTY@) == truth_in(
                all.skip(i as int),
                CONNECTED_PROPERTY@,
            ),
        decreases read.changed.len() - i,
    {
        proof {
            assert(all.skip(i as int)[0] == all[i as int]);
            assert(all.skip(i as int).drop_first() =~= all.skip(i + 1));
        }
        if text::same(read.changed[i].0.as_str(), CONNECTED_PROPERTY) {
            return read.changed[i].1;
        }
        i = i + 1;
    }
    None
}

/// What a property says does not depend on the order in which the properties
/// are listed.
pub proof fn law_order_irrelevant(
    changed: Seq<(String, Option<bool>)>,
    map: Map<Seq<char>, Option<bool>>,
    name: Seq<char>,
)
    requires
        lists(changed, map),
    ensures
        truth_in(changed, name) == truth_of(map, name),
{
    if map.contains_key(name) {
        let i = choose|i: int| 0 <= i < changed.len() && (#[trigger] changed[i]).0@ == name;
        assert forall|j: int| 0 <= j < i implies (#[trigger] changed[j]).0@ != name by {
            assert(changed[j].0@ != changed[i].0@);
        }
        lemma_first_named(changed, name, i);
    } else {
        assert forall|j: int| 0 <= j < changed.len() implies (#[trigger] changed[j]).0@ != name by {
            assert(map.contains_key(changed[j].0@));
        }
        lemma_none_named(changed, name);
    }
}

proof fn lemma_first_named(changed: Seq<(String, Option<bool>)>, name: Seq<char>, i: int)
    requires
        0 <= i < changed.len(),
        changed[i].0@ == name,
        forall|j: int| 0 <= j < i ==> (#[trigger] changed[j]).0@ != name,
    ensures
        truth_in(changed, name) == changed[i].1,
    decreases changed.len(),
{
    if i > 0 {
        assert(changed[0].0@ != name);
        let rest = changed.drop_first();
        assert forall|j: int| 0 <= j < i - 1 implies (#[trigger] rest[j]).0@ != name by {
            assert(rest[j] == changed[j + 1]);
        }
        lemma_first_named(rest, name, i - 1);
    }
}

proof fn lemma_none_named(changed: Seq<(String, Option<bool>)>, name: Seq<char>)
    requires
        forall|j: int| 0 <= j < changed.len() ==> (#[trigger] changed[j]).0@ != name,
    ensures
        truth_in(changed, name) is None,
    decreases changed.len(),
{
    if changed.len() > 0 {
        assert(changed[0].0@ != name);
        let rest = changed.drop_first();
        assert forall|j: int| 0 <= j < rest.len() implies (#[trigger] rest[j]).0@ != name by {
            assert(rest[j] == changed[j + 1]);
        }
        lemma_none_named(rest, name);
    }
}

impl SonyTray {
    /// Takes note of the connection of a device, its address in lower case
    /// being `device` and that of the tray's own device being `own`.
    pub fn connection_changed(&mut self, device: &str, own: &str, connected: bool) -> (reaction:
        Reaction)
        ensures
            final(self)@ == told(old(self)@, device@, own@, connected),
            reaction@ == reaction_to(old(self)@, device@, own@, connected),
    {
        if !text::same(device, own) {
            return Reaction::Ignored;
        }
        if self.state.connected == connected {
            return Reaction::Ignored;
        }
        self.state.connected = connected;
        if connected {
            self.state.msg = "Dispositivo conectado".to_string();
            Reaction::Connected(self.apply_profile_on_connect())
        } else {
            self.state.msg = "Dispositivo desconectado".to_string();
            Reaction::Disconnected("Auriculares desconectados".to_string())
        }
    }

    /// Takes note of changed properties of an object: its path, and what the
    /// body of the message says, if it could be read.
    pub fn properties_changed(
        &mut self,
        path: &Option<String>,
        read: &Option<PropertiesChanged>,
    ) -> (reaction: Reaction)
        ensures
            final(self)@ == after_news(old(self)@, news(path_view(*path), connection_read(*read))),
            reaction@ == reaction_to_news(
                old(self)@,
                news(path_view(*path), connection_read(*read)),
            ),
    {
        let path = match path {
            Some(p) => p,
            None => {
                return Reaction::Ignored;
            },
        };
        let device = match address::path_to_mac(path.as_str()) {
            Some(d) => d,
            None => {
                return Reaction::Ignored;
            },
        };
        let read = match read {
            Some(r) => r,
            None => {
                return Reaction::Ignored;
            },
        };
        let connected = match connection_change(read) {
            Some(c) => c,
            None => {
                return Reaction::Ignored;
            },
        };
        let own = platform::to_lowercase(self.state.mac.as_str());
        self.connection_changed(device.as_str(), own.as_str(), connected)
    }

    /// Takes note of a signal of the Bluetooth service. Only one whose body
    /// refers to file descriptors may be ignored beyond that, where the system
    /// has no room for them.
    pub fn handle_bluez_signal(&mut self, signal: &BluezSignal) -> (reaction: Reaction)
        ensures
            ({
                ||| final(self)@ == after_news(old(self)@, news_of(*signal)) && reaction@
                    == reaction_to_news(old(self)@, news_of(*signal))
                ||| signal.fds@.len() > 0 && read_body(
                    signal.body@,
                    signal.big_endian,
                    signal.signature@,
                    0,
                ) is None && final(self)@ == old(self)@ && reaction@ is Ignored
            }),
    {
        let read = decode_body(
            signal.body.as_slice(),
            signal.big_endian,
            signal.signature.as_str(),
            signal.fds.as_slice(),
        );
        proof {
            let named = read_body(
                signal.body@,
                signal.big_endian,
                signal.signature@,
                signal.fds@.len(),
            );
            if read is Some {
                law_order_irrelevant((read->0).changed@, (named->0).1, CONNECTED_PROPERTY@);
                assert(connection_read(read) == connection_in(named));
            }
        }
        self.properties_changed(&signal.path, &read)
    }
}

/// A signal that speaks of a connection, under the path of the tray's own
/// device, reaches the tray.
pub proof fn law_own_device_noticed(t: TrayModel, root: Seq<char>, mac: Seq<char>, connected: bool)
    requires
        !mac.contains('/'),
        !mac.contains('_'),
        platform::lowered(mac) == platform::lowered(t.mac),
    ensures
        ({
            let path = root + "/dev_"@ + text::replaced(mac, ':', '_');
            let n = news(Some(path), Some(connected));
            &&& n == Some((platform::lowered(t.mac), connected))
            &&& after_news(t, n).connected == connected
            &&& reaction_to_news(t, n) is Ignored <==> t.connected == connected
        }),
{
    address::law_path_inverse(root, mac);
}

/// Two ASCII addresses that differ in upper and lower case only are the same
/// device, to a signal as to the tray; two that differ otherwise are not.
pub proof fn law_letter_case(t: TrayModel, root: Seq<char>, mac: Seq<char>, connected: bool)
    requires
        !mac.contains('/'),
        !mac.contains('_'),
        vstd::utf8::is_ascii_chars(mac),
        vstd::utf8::is_ascii_chars(t.mac),
        t.connected != connected,
    ensures
        ({
            let path = root + "/dev_"@ + text::replaced(mac, ':', '_');
            let n = news(Some(path), Some(connected));
            reaction_to_news(t, n) !is Ignored <==> platform::ascii_lowered(mac)
                == platform::ascii_lowered(t.mac)
        }),
{
    address::law_path_inverse(root, mac);
}

/// A signal about another device, or one that says nothing of a connection,
/// changes nothing.
pub proof fn law_other_devices_ignored(t: TrayModel, n: Option<(Seq<char>, bool)>)
    requires
        n matches Some((device, _)) ==> device != platform::lowered(t.mac),
    ensures
        after_news(t, n) == t,
        reaction_to_news(t, n) is Ignored,
{
}

/// A signal that is repeated changes nothing the second time.
pub proof fn law_signal_repeated(t: TrayModel, n: Option<(Seq<char>, bool)>)
    ensures
        after_news(after_news(t, n), n) == after_news(t, n),
        reaction_to_news(after_news(t, n), n) is Ignored,
{
}

/// A signal never changes the device, the profile, the list of devices or the
/// choice to apply the profile; after a signal about its device the tray knows
/// what it said.
pub proof fn law_signal_frame(t: TrayModel, n: Option<(Seq<char>, bool)>)
    ensures
        ({
            let after = after_news(t, n);
            &&& after.mac == t.mac
            &&& after.profile == t.profile
            &&& after.devices == t.devices
            &&& after.devices_fetched_at == t.devices_fetched_at
            &&& after.auto_apply == t.auto_apply
            &&& n matches Some((device, connected)) ==> device == platform::lowered(t.mac)
                ==> after.connected == connected
        }),
{
}

/// Something is sent on a signal only if the device has just been connected
/// and the profile is to be applied, and then it is the current profile, to
/// the tray's own device.
pub proof fn law_signal_sends(t: TrayModel, n: Option<(Seq<char>, bool)>)
    ensures
        reaction_to_news(t, n) matches ReactionModel::Connected(Some((mac, p))) ==> {
            &&& !t.connected
            &&& t.auto_apply
            &&& mac == t.mac
            &&& p == t.profile
            &&& n == Some((platform::lowered(t.mac), true))
        },
{
}

/// A body speaks of the connection of a device exactly if it is about the
/// interface of devices and gives the property `Connected` a truth value, which
/// is then what it says.
pub proof fn law_connection_read(
    interface: Seq<char>,
    changed: Map<Seq<char>, Option<bool>>,
    connected: bool,
)
    ensures
        connection_in(Some((interface, changed))) == Some(connected) <==> interface
            == "org.bluez.Device1"@ && changed.contains_key("Connected"@)
            && changed["Connected"@] == Some(connected),
        connection_in(None) is None,
{
}

/// A list of changed properties says of the connection what the first property
/// of that name says, and nothing without one, or about another interface.
pub proof fn law_connection_listed(read: PropertiesChanged, i: int)
    ensures
        read.interface@ != "org.bluez.Device1"@ ==> connection_listed(read) is None,
        read.interface@ == "org.bluez.Device1"@ && 0 <= i < read.changed@.len()
            && read.changed@[i].0@ == "Connected"@ && (forall|j: int|
            0 <= j < i ==> (#[trigger] read.changed@[j]).0@ != "Connected"@) ==> connection_listed(
            read,
        ) == read.changed@[i].1,
        (forall|j: int|
            0 <= j < read.changed@.len() ==> (#[trigger] read.changed@[j]).0@ != "Connected"@)
            ==> connection_listed(read) is None,
        connection_read(Some(read)) == connection_listed(read),
        connection_read(None) is None,
{
    if 0 <= i < read.changed@.len() && read.changed@[i].0@ == "Connected"@ && (forall|j: int|
        0 <= j < i ==> (#[trigger] read.changed@[j]).0@ != "Connected"@) {
        lemma_first_named(read.changed@, "Connected"@, i);
    }
    if forall|j: int|
        0 <= j < read.changed@.len() ==> (#[trigger] read.changed@[j]).0@ != "Connected"@ {
        lemma_none_named(read.changed@, "Connected"@);
    }
}

/// A signal is news exactly if its path names a device and its body speaks of a
/// connection; then it is news of that device and that connection.
pub proof fn law_news(path: Seq<char>, connection: Option<bool>, s: BluezSignal, p: String)
    ensures
        news(None, connection) is None,
        news(Some(path), None) is None,
        address::mac_of_path(path) is None ==> news(Some(path), connection) is None,
        address::mac_of_path(path) matches Some(device) ==> connection matches Some(connected)
            ==> news(Some(path), connection) == Some((device, connected)),
        s.path is None ==> news_of(s) is None,
        s.path == Some(p) ==> news_of(s) == news(
            Some(p@),
            connection_in(read_body(s.body@, s.big_endian, s.signature@, s.fds@.len())),
        ),
        path_view(Some(p)) == Some(p@),
        path_view(None) is None,
{
}

/// A device that loses its connection is noted as such, and the user is told. A
/// device that gains it is noted as such, and if the profile is to be applied,
/// it is, whatever the profile: it is sent to the tray's own device.
pub proof fn law_connection_noticed(t: TrayModel, own: Seq<char>)
    ensures
        t.connected ==> {
            &&& told(t, own, own, false) == (TrayModel {
                connected: false,
                msg: "Dispositivo desconectado"@,
                ..t
            })
            &&& reaction_to(t, own, own, false) == ReactionModel::Disconnected(
                "Auriculares desconectados"@,
            )
        },
        !t.connected && t.auto_apply && t.mac.len() > 0 ==> {
            &&& told(t, own, own, true) == (TrayModel {
                connected: true,
                msg: "Conectado, aplicando "@ + profile::label_of(t.profile) + "…"@,
                ..t
            })
            &&& reaction_to(t, own, own, true) == ReactionModel::Connected(
                Some((t.mac, t.profile)),
            )
        },
        !t.connected && (!t.auto_apply || t.mac.len() == 0) ==> {
            &&& told(t, own, own, true) == (TrayModel {
                connected: true,
                msg: "Dispositivo conectado"@,
                ..t
            })
            &&& reaction_to(t, own, own, true) == ReactionModel::Connected(None)
        },
{
}

/// What is told of any other device, or was known already, changes nothing.
pub proof fn law_told_in_vain(t: TrayModel, device: Seq<char>, own: Seq<char>, connected: bool)
    requires
        device != own || t.connected == connected,
    ensures
        told(t, device, own, connected) == t,
        reaction_to(t, device, own, connected) is Ignored,
{
}

/// News is taken as told of its device, the tray's own address being in lower
/// case; without news nothing changes.
pub proof fn law_news_told(t: TrayModel, device: Seq<char>, connected: bool)
    ensures
        after_news(t, Some((device, connected))) == told(
            t,
            device,
            platform::lowered(t.mac),
            connected,
        ),
        reaction_to_news(t, Some((device, connected))) == reaction_to(
            t,
            device,
            platform::lowered(t.mac),
            connected,
        ),
        after_news(t, None) == t,
        reaction_to_news(t, None) is Ignored,
{
}

/// As soon as the tray's own device is connected, the stored profile is sent to
/// it, whatever the profile, if that is wanted.
pub proof fn law_signal_applies(t: TrayModel, root: Seq<char>, mac: Seq<char>)
    requires
        !mac.contains('/'),
        !mac.contains('_'),
        platform::lowered(mac) == platform::lowered(t.mac),
        t.mac.len() > 0,
        t.auto_apply,
        !t.connected,
    ensures
        ({
            let path = root + "/dev_"@ + text::replaced(mac, ':', '_');
            reaction_to_news(t, news(Some(path), Some(true))) == ReactionModel::Connected(
                Some((t.mac, t.profile)),
            )
        }),
{
    address::law_path_inverse(root, mac);
}

/// A reaction is seen as it is.
pub proof fn law_reaction_view(r: Reaction)
    ensures
        r is Ignored ==> r@ is Ignored,
        r matches Reaction::Connected(Some(job)) ==> r@ == ReactionModel::Connected(
            Some((job.mac@, job.profile)),
        ),
        r matches Reaction::Connected(None) ==> r@ == ReactionModel::Connected(None),
        r matches Reaction::Disconnected(body) ==> r@ == ReactionModel::Disconnected(body@),
{
}

} // verus!
