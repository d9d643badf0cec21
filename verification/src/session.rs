//! Sending a profile to the headphones, one step at a time.
//!
//! A `Transmission` says what to do next and is told what came of it. The
//! sockets and programs belong to whoever runs it.

use vstd::prelude::*;

use crate::address;
use crate::command;
use crate::command::Invocation;
use crate::devices;
use crate::profile;
use crate::profile::Profile;
use crate::text;

verus! {

/// The outcome of a transmission, with the text of its failure.
pub open spec fn outcome_view(outcome: Result<(), String>) -> Result<(), Seq<char>> {
    match outcome {
        Ok(_) => Ok(()),
        Err(e) => Err(e@),
    }
}

/// Where a transmission goes.
#[derive(Clone, Copy, Debug)]
pub struct Target {
    pub address: [u8; 6],
    pub channel: u8,
}

/// Why a socket is being closed.
#[derive(Clone, Copy, Debug, PartialEq, Eq, Structural)]
pub enum Ending {
    NotConnected,
    NotSent,
    Sent,
}

/// How far a transmission has come.
#[derive(Debug)]
pub enum Phase {
    Searching,
    Opening(Target),
    Connecting(Target),
    Sending(Target),
    Closing(Target, Ending),
    Finished(Result<(), String>),
}

/// What to do next for a transmission.
#[derive(Debug)]
pub enum SendAction {
    Search(Invocation),
    OpenSocket,
    Connect(Target),
    Send(Vec<u8>),
    CloseSocket,
    Finish(Result<(), String>),
}

/// What came of the last action: the output of the service search, if it could
/// be run; whether the socket could be opened, or the error of the system;
/// whether it could be connected; whether the packet could be sent; that the
/// socket was closed, and the last error of the system after that.
#[derive(Debug)]
pub enum SendEvent {
    Searched(Option<Vec<u8>>),
    Opened(Result<(), String>),
    Connected(bool),
    Sent(bool),
    Closed(String),
}

/// The sending of a profile to a device.
#[derive(Debug)]
pub struct Transmission {
    pub mac: String,
    pub profile: Profile,
    pub phase: Phase,
}

/// Where a transmission goes, as a model.
pub struct TargetModel {
    pub address: Seq<u8>,
    pub channel: u8,
}

/// How far a transmission has come, as a model.
pub enum PhaseModel {
    Searching,
    Opening(TargetModel),
    Connecting(TargetModel),
    Sending(TargetModel),
    Closing(TargetModel, Ending),
    Finished(Result<(), Seq<char>>),
}

/// An event, as a model.
pub enum EventModel {
    Searched(Option<Seq<u8>>),
    Opened(Result<(), Seq<char>>),
    Connected(bool),
    Sent(bool),
    Closed(Seq<char>),
}

/// A transmission, as a model.
pub struct TransmissionModel {
    pub mac: Seq<char>,
    pub profile: Profile,
    pub phase: PhaseModel,
}

impl View for Target {
    type V = TargetModel;

    open spec fn view(&self) -> TargetModel {
        TargetModel { address: self.address@, channel: self.channel }
    }
}

impl View for Phase {
    type V = PhaseModel;

    open spec fn view(&self) -> PhaseModel {
        match self {
            Phase::Searching => PhaseModel::Searching,
            Phase::Opening(t) => PhaseModel::Opening(t@),
            Phase::Connecting(t) => PhaseModel::Connecting(t@),
            Phase::Sending(t) => PhaseModel::Sending(t@),
            Phase::Closing(t, e) => PhaseModel::Closing(t@, *e),
            Phase::Finished(r) => PhaseModel::Finished(outcome_view(*r)),
        }
    }
}

impl View for SendEvent {
    type V = EventModel;

    open spec fn view(&self) -> EventModel {
        match self {
            SendEvent::Searched(Some(out)) => EventModel::Searched(Some(out@)),
            SendEvent::Searched(None) => EventModel::Searched(None),
            SendEvent::Opened(r) => EventModel::Opened(outcome_view(*r)),
            SendEvent::Connected(ok) => EventModel::Connected(*ok),
            SendEvent::Sent(ok) => EventModel::Sent(*ok),
            SendEvent::Closed(error) => EventModel::Closed(error@),
        }
    }
}

impl View for Transmission {
    type V = TransmissionModel;

    open spec fn view(&self) -> TransmissionModel {
        TransmissionModel { mac: self.mac@, profile: self.profile, phase: self.phase@ }
    }
}

/// What is said where no socket could be opened.
pub open spec fn open_failure(error: Seq<char>) -> Seq<char> {
    "No se pudo crear socket: "@ + error + ", ¿probarás con Bluetooth activo?"@
}

/// What is said where the device could not be reached.
pub open spec fn connect_failure(mac: Seq<char>, channel: u8, error: Seq<char>) -> Seq<char> {
    "No se pudo conectar ("@ + mac + ":"@ + text::decimal(channel as nat) + "): "@ + error
}

/// What is said where the packet could not be sent.
pub open spec fn send_failure(error: Seq<char>) -> Seq<char> {
    "Fallo al enviar: "@ + error
}

impl TransmissionModel {
    /// The transmission of a profile to a device, before the first action.
    pub open spec fn start(mac: Seq<char>, profile: Profile) -> TransmissionModel {
        TransmissionModel { mac, profile, phase: PhaseModel::Searching }
    }

    /// The phase that an event leads to. One that does not answer the action of
    /// the phase leads nowhere.
    pub open spec fn next_phase(self, event: EventModel) -> PhaseModel {
        match (self.phase, event) {
            (PhaseModel::Searching, EventModel::Searched(stdout)) => match address::address_of(
                self.mac,
            ) {
                Ok(address) => PhaseModel::Opening(
                    TargetModel { address, channel: devices::channel_by(stdout) },
                ),
                Err(e) => PhaseModel::Finished(Err(e)),
            },
            (PhaseModel::Opening(target), EventModel::Opened(opened)) => match opened {
                Ok(_) => PhaseModel::Connecting(target),
                Err(error) => PhaseModel::Finished(Err(open_failure(error))),
            },
            (PhaseModel::Connecting(target), EventModel::Connected(ok)) => if ok {
                PhaseModel::Sending(target)
            } else {
                PhaseModel::Closing(target, Ending::NotConnected)
            },
            (PhaseModel::Sending(target), EventModel::Sent(ok)) => PhaseModel::Closing(
                target,
                if ok {
                    Ending::Sent
                } else {
                    Ending::NotSent
                },
            ),
            (PhaseModel::Closing(target, ending), EventModel::Closed(error)) => {
                PhaseModel::Finished(
                    match ending {
                        Ending::NotConnected => Err(
                            connect_failure(self.mac, target.channel, error),
                        ),
                        Ending::NotSent => Err(send_failure(error)),
                        Ending::Sent => Ok(()),
                    },
                )
            },
            (phase, _) => phase,
        }
    }

    /// The transmission after an event.
    pub open spec fn next(self, event: EventModel) -> TransmissionModel {
        TransmissionModel { phase: self.next_phase(event), ..self }
    }

    /// The transmission after a sequence of events.
    pub open spec fn after(self, events: Seq<EventModel>) -> TransmissionModel
        decreases events.len(),
    {
        if events.len() == 0 {
            self
        } else {
            self.after(events.drop_last()).next(events.last())
        }
    }

    /// How many sockets a sequence of events has opened.
    pub open spec fn sockets_opened(self, events: Seq<EventModel>) -> nat
        decreases events.len(),
    {
        if events.len() == 0 {
            0
        } else {
            let before = events.drop_last();
            let opens = self.after(before).phase is Opening && (events.last() matches EventModel::Opened(
                Ok(_),
            ));
            self.sockets_opened(before) + if opens {
                1nat
            } else {
                0
            }
        }
    }

    /// How many sockets a sequence of events has closed.
    pub open spec fn sockets_closed(self, events: Seq<EventModel>) -> nat
        decreases events.len(),
    {
        if events.len() == 0 {
            0
        } else {
            let before = events.drop_last();
            let closes = self.after(before).phase is Closing && events.last() is Closed;
            self.sockets_closed(before) + if closes {
                1nat
            } else {
                0
            }
        }
    }

    /// How many packets a sequence of events has sent.
    pub open spec fn packets_sent(self, events: Seq<EventModel>) -> nat
        decreases events.len(),
    {
        if events.len() == 0 {
            0
        } else {
            let before = events.drop_last();
            let sends = self.after(before).phase is Sending && events.last() == EventModel::Sent(
                true,
            );
            self.packets_sent(before) + if sends {
                1nat
            } else {
                0
            }
        }
    }

    /// Where the transmission goes, once that is known and until it has
    /// finished.
    pub open spec fn target(self) -> Option<TargetModel> {
        match self.phase {
            PhaseModel::Opening(target) => Some(target),
            PhaseModel::Connecting(target) => Some(target),
            PhaseModel::Sending(target) => Some(target),
            PhaseModel::Closing(target, _) => Some(target),
            _ => None,
        }
    }

    /// Whether a socket is open.
    pub open spec fn holds_socket(self) -> bool {
        self.phase is Connecting || self.phase is Sending || self.phase is Closing
    }
}

/// Whether an action is what a transmission wants next.
pub open spec fn is_next_action(t: TransmissionModel, action: SendAction) -> bool {
    match (t.phase, action) {
        (PhaseModel::Searching, SendAction::Search(run)) => run@ == (
            "sdptool"@,
            seq!["search"@, "--uuid"@, command::SERVICE_UUID@, t.mac],
        ),
        (PhaseModel::Opening(_), SendAction::OpenSocket) => true,
        (PhaseModel::Connecting(target), SendAction::Connect(to)) => to@ == target,
        (PhaseModel::Sending(_), SendAction::Send(packet)) => packet@ == profile::packet_of(
            t.profile,
        ),
        (PhaseModel::Closing(_, _), SendAction::CloseSocket) => true,
        (PhaseModel::Finished(r), SendAction::Finish(outcome)) => outcome_view(outcome) == r,
        _ => false,
    }
}

impl Transmission {
    /// The transmission of a profile to a device, before the first action.
    pub fn new(mac: &str, profile: Profile) -> (t: Transmission)
        ensures
            t@ == TransmissionModel::start(mac@, profile),
    {
        Transmission { mac: mac.to_string(), profile, phase: Phase::Searching }
    }

    /// What to do next.
    pub fn action(&self) -> (action: SendAction)
        ensures
            is_next_action(self@, action),
    {
        match &self.phase {
            Phase::Searching => SendAction::Search(command::service_search(self.mac.as_str())),
            Phase::Opening(_) => SendAction::OpenSocket,
            Phase::Connecting(target) => SendAction::Connect(*target),
            Phase::Sending(_) => SendAction::Send(profile::build_packet(self.profile)),
            Phase::Closing(_, _) => SendAction::CloseSocket,
            Phase::Finished(Ok(_)) => SendAction::Finish(Ok(())),
            Phase::Finished(Err(e)) => SendAction::Finish(Err(e.clone())),
        }
    }

    /// Takes note of what came of the last action.
    pub fn advance(&mut self, event: SendEvent)
        ensures
            final(self)@ == old(self)@.next(event@),
    {
        let next: Option<Phase> = match (&self.phase, event) {
            (Phase::Searching, SendEvent::Searched(stdout)) => {
                let channel = match &stdout {
                    Some(bytes) => devices::find_service_channel(Some(bytes.as_slice())),
                    None => devices::find_service_channel(None),
                };
                match address::str2ba(self.mac.as_str()) {
                    Ok(address) => Some(Phase::Opening(Target { address, channel })),
                    Err(e) => Some(Phase::Finished(Err(e))),
                }
            },
            (Phase::Opening(target), SendEvent::Opened(opened)) => match opened {
                Ok(_) => Some(Phase::Connecting(*target)),
                Err(error) => Some(
                    Phase::Finished(
                        Err(
                            "No se pudo crear socket: ".to_string().concat(error.as_str()).concat(
                                ", ¿probarás con Bluetooth activo?",
                            ),
                        ),
                    ),
                ),
            },
            (Phase::Connecting(target), SendEvent::Connected(ok)) => if ok {
                Some(Phase::Sending(*target))
            } else {
                Some(Phase::Closing(*target, Ending::NotConnected))
            },
            (Phase::Sending(target), SendEvent::Sent(ok)) => if ok {
                Some(Phase::Closing(*target, Ending::Sent))
            } else {
                Some(Phase::Closing(*target, Ending::NotSent))
            },
            (Phase::Closing(target, ending), SendEvent::Closed(error)) => match ending {
                Ending::NotConnected => {
                    let channel = text::to_decimal(target.channel);
                    let message = "No se pudo conectar (".to_string().concat(
                        self.mac.as_str(),
                    ).concat(":").concat(channel.as_str()).concat("): ").concat(error.as_str());
                    Some(Phase::Finished(Err(message)))
                },
                Ending::NotSent => Some(
                    Phase::Finished(Err("Fallo al enviar: ".to_string().concat(error.as_str()))),
                ),
                Ending::Sent => Some(Phase::Finished(Ok(()))),
            },
            _ => None,
        };
        match next {
            Some(phase) => {
                self.phase = phase;
            },
            None => {},
        }
    }
}

/// How a transmission ends, by what its actions come to.
pub open spec fn send_outcome(
    mac: Seq<char>,
    stdout: Option<Seq<u8>>,
    opened: Result<(), Seq<char>>,
    connected: bool,
    sent: bool,
    error: Seq<char>,
) -> Result<(), Seq<char>> {
    match (address::address_of(mac), opened) {
        (Err(e), _) => Err(e),
        (Ok(_), Err(e)) => Err(open_failure(e)),
        (Ok(_), Ok(_)) => if !connected {
            Err(connect_failure(mac, devices::channel_by(stdout), error))
        } else if !sent {
            Err(send_failure(error))
        } else {
            Ok(())
        },
    }
}

/// A transmission whose actions are all answered ends, and how it ends is
/// decided by the first action that failed.
pub proof fn law_send_run(
    mac: Seq<char>,
    profile: Profile,
    stdout: Option<Seq<u8>>,
    opened: Result<(), Seq<char>>,
    connected: bool,
    sent: bool,
    error: Seq<char>,
)
    ensures
        TransmissionModel::start(mac, profile).after(
            seq![
                EventModel::Searched(stdout),
                EventModel::Opened(opened),
                EventModel::Connected(connected),
                EventModel::Sent(sent),
                EventModel::Closed(error),
            ],
        ).phase == PhaseModel::Finished(
            send_outcome(mac, stdout, opened, connected, sent, error),
        ),
{
    let events = seq![
        EventModel::Searched(stdout),
        EventModel::Opened(opened),
        EventModel::Connected(connected),
        EventModel::Sent(sent),
        EventModel::Closed(error),
    ];
    let t = TransmissionModel::start(mac, profile);
    lemma_after_step(t, events, 4);
    lemma_after_step(t, events, 3);
    lemma_after_step(t, events, 2);
    lemma_after_step(t, events, 1);
    lemma_after_step(t, events, 0);
    assert(events.take(5) =~= events);
    assert(events.take(0) =~= Seq::empty());
}

proof fn lemma_after_step(t: TransmissionModel, events: Seq<EventModel>, n: int)
    requires
        0 <= n < events.len(),
    ensures
        t.after(events.take(n + 1)) == t.after(events.take(n)).next(events[n]),
{
    assert(events.take(n + 1).drop_last() =~= events.take(n));
}

/// Whatever happens in whatever order, at most one socket is opened, every
/// socket that was opened is closed or still held, and none is held when the
/// transmission has finished.
pub proof fn law_sockets_closed(mac: Seq<char>, profile: Profile, events: Seq<EventModel>)
    ensures
        ({
            let t = TransmissionModel::start(mac, profile);
            let opened = t.sockets_opened(events);
            let closed = t.sockets_closed(events);
            &&& opened <= 1
            &&& opened == closed + if t.after(events).holds_socket() {
                1nat
            } else {
                0
            }
            &&& t.after(events).phase is Finished ==> opened == closed
        }),
    decreases events.len(),
{
    let t = TransmissionModel::start(mac, profile);
    if events.len() > 0 {
        let before = events.drop_last();
        law_sockets_closed(mac, profile, before);
        lemma_nothing_opened(mac, profile, before);
    }
}

/// No socket has been opened before the phase that connects it.
proof fn lemma_nothing_opened(mac: Seq<char>, profile: Profile, events: Seq<EventModel>)
    ensures
        ({
            let t = TransmissionModel::start(mac, profile);
            t.after(events).phase is Searching || t.after(events).phase is Opening
                ==> t.sockets_opened(events) == 0
        }),
    decreases events.len(),
{
    if events.len() > 0 {
        lemma_nothing_opened(mac, profile, events.drop_last());
    }
}

/// A transmission succeeds only after its packet was sent, and never sends
/// more than one.
pub proof fn law_success_is_sent(mac: Seq<char>, profile: Profile, events: Seq<EventModel>)
    ensures
        ({
            let t = TransmissionModel::start(mac, profile);
            &&& t.packets_sent(events) <= 1
            &&& t.after(events).phase == PhaseModel::Finished(Ok(())) ==> t.packets_sent(events) == 1
            &&& t.after(events).phase matches PhaseModel::Finished(Err(_)) ==> t.packets_sent(events)
                == 0
        }),
    decreases events.len(),
{
    lemma_sent(mac, profile, events);
}

proof fn lemma_sent(mac: Seq<char>, profile: Profile, events: Seq<EventModel>)
    ensures
        ({
            let t = TransmissionModel::start(mac, profile);
            let done = match t.after(events).phase {
                PhaseModel::Closing(_, ending) => ending == Ending::Sent,
                PhaseModel::Finished(r) => r is Ok,
                _ => false,
            };
            t.packets_sent(events) == if done {
                1nat
            } else {
                0
            }
        }),
    decreases events.len(),
{
    if events.len() > 0 {
        lemma_sent(mac, profile, events.drop_last());
    }
}

/// A transmission never changes its device or its profile, and wherever it has
/// a target, that is the address of the device.
pub proof fn law_target(mac: Seq<char>, profile: Profile, events: Seq<EventModel>)
    ensures
        ({
            let t = TransmissionModel::start(mac, profile).after(events);
            &&& t.mac == mac
            &&& t.profile == profile
            &&& t.target() matches Some(target) ==> address::address_of(mac) == Ok::<
                Seq<u8>,
                Seq<char>,
            >(target.address)
        }),
    decreases events.len(),
{
    if events.len() > 0 {
        law_target(mac, profile, events.drop_last());
    }
}

/// How often a profile is sent before its device is given up.
pub const ATTEMPTS: u8 = 3;

/// How many seconds pass between two attempts.
pub const RETRY_DELAY_SECS: u64 = 2;

/// The repeated sending of a profile: how often it failed, the last failure,
/// and whether it succeeded.
#[derive(Debug)]
pub struct Retry {
    pub failures: u8,
    pub last_error: String,
    pub succeeded: bool,
}

/// What to do next for a repeated sending: send once more after so many
/// seconds, or stop.
#[derive(Debug)]
pub enum RetryAction {
    SendAfter(u64),
    Finish(Result<(), String>),
}

/// A repeated sending, as a model.
pub struct RetryModel {
    pub failures: int,
    pub last_error: Seq<char>,
    pub succeeded: bool,
}

impl View for Retry {
    type V = RetryModel;

    open spec fn view(&self) -> RetryModel {
        RetryModel {
            failures: self.failures as int,
            last_error: self.last_error@,
            succeeded: self.succeeded,
        }
    }
}

impl RetryModel {
    /// A repeated sending before the first attempt.
    pub open spec fn start() -> RetryModel {
        RetryModel { failures: 0, last_error: "fallo desconocido"@, succeeded: false }
    }

    /// Whether nothing is left to do.
    pub open spec fn finished(self) -> bool {
        self.succeeded || self.failures >= ATTEMPTS
    }

    /// How a finished sending ended.
    pub open spec fn outcome(self) -> Result<(), Seq<char>> {
        if self.succeeded {
            Ok(())
        } else {
            Err(self.last_error)
        }
    }

    /// The sending after an attempt. What comes after the end changes nothing.
    pub open spec fn next(self, attempt: Result<(), Seq<char>>) -> RetryModel {
        if self.finished() {
            self
        } else {
            match attempt {
                Ok(_) => RetryModel { succeeded: true, ..self },
                Err(e) => RetryModel { failures: self.failures + 1, last_error: e, ..self },
            }
        }
    }

    /// The sending after a sequence of attempts.
    pub open spec fn after(self, attempts: Seq<Result<(), Seq<char>>>) -> RetryModel
        decreases attempts.len(),
    {
        if attempts.len() == 0 {
            self
        } else {
            self.after(attempts.drop_last()).next(attempts.last())
        }
    }
}

impl Retry {
    /// A repeated sending before the first attempt.
    pub fn new() -> (r: Retry)
        ensures
            r@ == RetryModel::start(),
    {
        Retry { failures: 0, last_error: "fallo desconocido".to_string(), succeeded: false }
    }

    /// What to do next.
    pub fn action(&self) -> (action: RetryAction)
        ensures
            match action {
                RetryAction::SendAfter(secs) => !self@.finished() && secs == if self@.failures == 0 {
                    0
                } else {
                    RETRY_DELAY_SECS
                },
                RetryAction::Finish(outcome) => self@.finished() && outcome_view(outcome)
                    == self@.outcome(),
            },
    {
        if self.succeeded {
            RetryAction::Finish(Ok(()))
        } else if self.failures >= ATTEMPTS {
            RetryAction::Finish(Err(self.last_error.clone()))
        } else if self.failures == 0 {
            RetryAction::SendAfter(0)
        } else {
            RetryAction::SendAfter(RETRY_DELAY_SECS)
        }
    }

    /// Takes note of how an attempt ended.
    pub fn record(&mut self, attempt: Result<(), String>)
        ensures
            final(self)@ == old(self)@.next(outcome_view(attempt)),
    {
        if !self.succeeded && self.failures < ATTEMPTS {
            match attempt {
                Ok(_) => {
                    self.succeeded = true;
                },
                Err(e) => {
                    self.failures = self.failures + 1;
                    self.last_error = e;
                },
            }
        }
    }
}

/// A repeated sending succeeds with its first success among three attempts,
/// whatever was to come after it.
pub proof fn law_retry_succeeds(attempts: Seq<Result<(), Seq<char>>>, n: int)
    requires
        0 <= n < attempts.len(),
        n < ATTEMPTS,
        attempts[n] is Ok,
        forall|i: int| 0 <= i < n ==> (#[trigger] attempts[i]) is Err,
    ensures
        RetryModel::start().after(attempts).finished(),
        RetryModel::start().after(attempts).outcome() == Ok::<(), Seq<char>>(()),
{
    lemma_retry_failing(attempts, n);
    assert(attempts.take(n + 1).drop_last() =~= attempts.take(n));
    lemma_retry_stays(attempts, n + 1);
}

/// A repeated sending gives up after three failures, not before, and says what
/// the third one said, whatever was to come after it.
pub proof fn law_retry_gives_up(attempts: Seq<Result<(), Seq<char>>>)
    requires
        forall|i: int|
            0 <= i < attempts.len() && i < ATTEMPTS ==> (#[trigger] attempts[i]) is Err,
    ensures
        RetryModel::start().after(attempts).finished() <==> attempts.len() >= ATTEMPTS,
        attempts.len() >= ATTEMPTS ==> RetryModel::start().after(attempts).outcome()
            == attempts[ATTEMPTS - 1],
{
    if attempts.len() >= ATTEMPTS {
        lemma_retry_failing(attempts, ATTEMPTS as int);
        lemma_retry_stays(attempts, ATTEMPTS as int);
    } else {
        lemma_retry_failing(attempts, attempts.len() as int);
        assert(attempts.take(attempts.len() as int) =~= attempts);
    }
}

/// The sending after `n` failures.
proof fn lemma_retry_failing(attempts: Seq<Result<(), Seq<char>>>, n: int)
    requires
        0 <= n <= attempts.len(),
        n <= ATTEMPTS,
        forall|i: int| 0 <= i < n ==> (#[trigger] attempts[i]) is Err,
    ensures
        RetryModel::start().after(attempts.take(n)).failures == n,
        !RetryModel::start().after(attempts.take(n)).succeeded,
        n > 0 ==> RetryModel::start().after(attempts.take(n)).outcome() == attempts[n - 1],
    decreases n,
{
    if n > 0 {
        lemma_retry_failing(attempts, n - 1);
        assert(attempts.take(n).drop_last() =~= attempts.take(n - 1));
        assert(attempts[n - 1] is Err);
    }
}

/// What comes after the end changes nothing.
proof fn lemma_retry_stays(attempts: Seq<Result<(), Seq<char>>>, n: int)
    requires
        0 <= n <= attempts.len(),
        RetryModel::start().after(attempts.take(n)).finished(),
    ensures
        RetryModel::start().after(attempts) == RetryModel::start().after(attempts.take(n)),
    decreases attempts.len(),
{
    if n == attempts.len() {
        assert(attempts.take(n) =~= attempts);
    } else {
        assert(attempts.drop_last().take(n) =~= attempts.take(n));
        lemma_retry_stays(attempts.drop_last(), n);
    }
}

/// Whenever a transmission asks for bytes to be sent, they are those that turn
/// its profile on, whatever has happened before.
pub proof fn law_sends_its_profile(
    mac: Seq<char>,
    profile: Profile,
    events: Seq<EventModel>,
    action: SendAction,
)
    requires
        is_next_action(TransmissionModel::start(mac, profile).after(events), action),
    ensures
        action matches SendAction::Send(packet) ==> packet@ == match profile {
            Profile::NoiseCancelling => seq![
                62u8, 12, 0, 0, 0, 0, 8, 104, 2, 16, 2, 2, 1, 0, 0, 147, 60,
            ],
            Profile::WindNoiseCancelling => seq![
                62u8, 12, 0, 0, 0, 0, 8, 104, 2, 16, 2, 1, 1, 0, 0, 146, 60,
            ],
            Profile::AmbientSound => seq![
                62u8, 12, 0, 0, 0, 0, 8, 104, 2, 16, 2, 0, 1, 0, 19, 164, 60,
            ],
            Profile::NoAnc => seq![62u8, 12, 0, 0, 0, 0, 8, 104, 2, 0, 2, 0, 1, 0, 0, 129, 60],
        },
{
    law_target(mac, profile, events);
    profile::law_packet_bytes(profile);
}

/// Transmissions of two different profiles never ask for the same bytes.
pub proof fn law_profiles_never_mixed(
    mac: Seq<char>,
    profile: Profile,
    events: Seq<EventModel>,
    action: SendAction,
    other_mac: Seq<char>,
    other_profile: Profile,
    other_events: Seq<EventModel>,
    other_action: SendAction,
)
    requires
        is_next_action(TransmissionModel::start(mac, profile).after(events), action),
        is_next_action(
            TransmissionModel::start(other_mac, other_profile).after(other_events),
            other_action,
        ),
        profile != other_profile,
    ensures
        action matches SendAction::Send(packet) ==> other_action matches SendAction::Send(other)
            ==> packet@ != other@,
{
    law_sends_its_profile(mac, profile, events, action);
    law_sends_its_profile(other_mac, other_profile, other_events, other_action);
    if let (SendAction::Send(packet), SendAction::Send(other)) = (action, other_action) {
        assert(packet@ == other@ ==> packet@[9] == other@[9] && packet@[11] == other@[11]
            && packet@[14] == other@[14]);
    }
}

/// What a transmission asks for, step by step, where each of its actions is
/// answered in turn: first the service search for its device; then, if its
/// address can be read, a socket; then the connection of that socket to that
/// address, on the channel that the search named; then the packet; then that
/// the socket is closed. It ends at the first step that fails, but never
/// without closing a socket, and says what failed.
pub proof fn law_send_steps(
    mac: Seq<char>,
    profile: Profile,
    stdout: Option<Seq<u8>>,
    opened: Result<(), Seq<char>>,
    connected: bool,
    sent: bool,
    error: Seq<char>,
    action: SendAction,
)
    ensures
        ({
            let events = seq![
                EventModel::Searched(stdout),
                EventModel::Opened(opened),
                EventModel::Connected(connected),
                EventModel::Sent(sent),
                EventModel::Closed(error),
            ];
            let t = TransmissionModel::start(mac, profile);
            let channel = devices::channel_by(stdout);
            &&& is_next_action(t, action) ==> (action matches SendAction::Search(run) && run@ == (
                "sdptool"@,
                seq!["search"@, "--uuid"@, "96cc203e-5068-46ad-b32d-e316f5e069ba"@, mac],
            ))
            &&& address::address_of(mac) matches Err(e) ==> {
                is_next_action(t.after(events.take(1)), action) ==> (
                action matches SendAction::Finish(Err(f)) && f@ == e)
            }
            &&& address::address_of(mac) matches Ok(address) ==> {
                &&& is_next_action(t.after(events.take(1)), action) ==> action is OpenSocket
                &&& opened matches Err(e) ==> {
                    is_next_action(t.after(events.take(2)), action) ==> (
                    action matches SendAction::Finish(Err(f)) && f@ == "No se pudo crear socket: "@
                        + e + ", ¿probarás con Bluetooth activo?"@)
                }
                &&& opened is Ok ==> {
                    &&& is_next_action(t.after(events.take(2)), action) ==> (
                    action matches SendAction::Connect(to) && to.address@ == address && to.channel
                        == channel)
                    &&& is_next_action(t.after(events.take(3)), action) ==> if connected {
                        action matches SendAction::Send(packet) && packet@.len() == 17
                    } else {
                        action is CloseSocket
                    }
                    &&& is_next_action(t.after(events.take(4)), action) ==> action is CloseSocket
                    &&& is_next_action(t.after(events), action) ==> (
                    action matches SendAction::Finish(outcome) && if !connected {
                        outcome matches Err(f) && f@ == "No se pudo conectar ("@ + mac + ":"@
                            + text::decimal(channel as nat) + "): "@ + error
                    } else if !sent {
                        outcome matches Err(f) && f@ == "Fallo al enviar: "@ + error
                    } else {
                        outcome is Ok
                    })
                }
            }
        }),
{
    let events = seq![
        EventModel::Searched(stdout),
        EventModel::Opened(opened),
        EventModel::Connected(connected),
        EventModel::Sent(sent),
        EventModel::Closed(error),
    ];
    let t = TransmissionModel::start(mac, profile);
    lemma_after_step(t, events, 4);
    lemma_after_step(t, events, 3);
    lemma_after_step(t, events, 2);
    lemma_after_step(t, events, 1);
    lemma_after_step(t, events, 0);
    assert(events.take(5) =~= events);
    assert(events.take(0) =~= Seq::empty());
    profile::law_packet_frame(profile);
}

/// An event that does not answer what a transmission asked for changes
/// nothing, and nothing changes a transmission that has finished.
pub proof fn law_out_of_turn(t: TransmissionModel, event: EventModel)
    ensures
        !(event is Searched) && t.phase is Searching ==> t.next(event) == t,
        !(event is Opened) && t.phase is Opening ==> t.next(event) == t,
        !(event is Connected) && t.phase is Connecting ==> t.next(event) == t,
        !(event is Sent) && t.phase is Sending ==> t.next(event) == t,
        !(event is Closed) && t.phase is Closing ==> t.next(event) == t,
        t.phase is Finished ==> t.next(event) == t,
        t.next(event).mac == t.mac,
        t.next(event).profile == t.profile,
{
}

/// A transmission starts with the device and the profile it is given, and
/// before everything else.
pub proof fn law_transmission_start(mac: Seq<char>, profile: Profile)
    ensures
        TransmissionModel::start(mac, profile).mac == mac,
        TransmissionModel::start(mac, profile).profile == profile,
        TransmissionModel::start(mac, profile).phase is Searching,
{
}

/// Outcomes, events, targets and transmissions are seen as they are.
pub proof fn law_session_views(
    outcome: Result<(), String>,
    event: SendEvent,
    target: Target,
    t: Transmission,
    r: Retry,
)
    ensures
        outcome is Ok ==> outcome_view(outcome) is Ok,
        outcome matches Err(e) ==> outcome_view(outcome) == Err::<(), Seq<char>>(e@),
        event matches SendEvent::Searched(Some(out)) ==> event@ == EventModel::Searched(Some(out@)),
        event matches SendEvent::Searched(None) ==> event@ == EventModel::Searched(None),
        event matches SendEvent::Opened(Ok(_)) ==> (event@ matches EventModel::Opened(Ok(_))),
        event matches SendEvent::Opened(Err(e)) ==> event@ == EventModel::Opened(Err(e@)),
        event matches SendEvent::Connected(ok) ==> event@ == EventModel::Connected(ok),
        event matches SendEvent::Sent(ok) ==> event@ == EventModel::Sent(ok),
        event matches SendEvent::Closed(e) ==> event@ == EventModel::Closed(e@),
        target@.address == target.address@,
        target@.channel == target.channel,
        t@.mac == t.mac@,
        t@.profile == t.profile,
        r@.failures == r.failures,
        r@.last_error == r.last_error@,
        r@.succeeded == r.succeeded,
{
}

/// There are three attempts and no more, and two seconds between them.
pub proof fn law_three_attempts(attempts: Seq<Result<(), Seq<char>>>)
    requires
        forall|i: int| 0 <= i < attempts.len() && i < 3 ==> (#[trigger] attempts[i]) is Err,
    ensures
        RetryModel::start().after(attempts).finished() <==> attempts.len() >= 3,
        RETRY_DELAY_SECS == 2,
        attempts.len() <= 3 ==> RetryModel::start().after(attempts).failures == attempts.len(),
{
    law_retry_gives_up(attempts);
    if attempts.len() <= 3 {
        lemma_retry_failing(attempts, attempts.len() as int);
        assert(attempts.take(attempts.len() as int) =~= attempts);
    }
}

} // verus!
