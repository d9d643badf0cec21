//! Listening to the Bluetooth service, again and again until the program ends.
//!
//! A `Monitor` says what to do next and is told what came of it. The bus
//! belongs to whoever runs it.

use vstd::prelude::*;

use crate::text;

verus! {

/// The sender of the messages to listen to.
pub const SENDER: &'static str = "org.bluez";

/// The interface of the messages to listen to.
pub const INTERFACE: &'static str = "org.freedesktop.DBus.Properties";

/// The name of the messages to listen to.
pub const MEMBER: &'static str = "PropertiesChanged";

/// The objects that the messages to listen to are about.
pub const PATH_NAMESPACE: &'static str = "/org/bluez";

/// How many messages may wait.
pub const QUEUE_SIZE: usize = 32;

/// How many seconds pass between two sessions.
pub const REST_SECS: u64 = 5;

/// What the listening is about to do: begin a session, wait for a message,
/// rest, or nothing any more.
#[derive(Clone, Copy, Debug, PartialEq, Eq, Structural)]
pub enum MonitorPhase {
    Joining,
    Listening,
    Resting,
    Stopped,
}

/// What came of it: whether the session began, or its error; a message, an
/// error in place of one, or the end of the messages, and whether the program
/// is ending; that the rest is over, and whether the program is ending.
#[derive(Debug)]
pub enum MonitorEvent {
    Joined(Result<(), String>),
    Message(bool),
    Broken(bool, String),
    NoMore,
    Rested(bool),
}

/// What an event calls for: lines to print, and whether the message is to be
/// handled.
#[derive(Debug)]
pub struct MonitorStep {
    pub lines: Vec<String>,
    pub handle: bool,
}

/// The listening, and whether it has warned that it is not possible.
#[derive(Debug)]
pub struct Monitor {
    pub phase: MonitorPhase,
    pub warned: bool,
}

/// An event, as a model.
pub enum MonitorEventModel {
    Joined(Result<(), Seq<char>>),
    Message(bool),
    Broken(bool, Seq<char>),
    NoMore,
    Rested(bool),
}

impl View for MonitorEvent {
    type V = MonitorEventModel;

    open spec fn view(&self) -> MonitorEventModel {
        match self {
            MonitorEvent::Joined(Ok(_)) => MonitorEventModel::Joined(Ok(())),
            MonitorEvent::Joined(Err(e)) => MonitorEventModel::Joined(Err(e@)),
            MonitorEvent::Message(exiting) => MonitorEventModel::Message(*exiting),
            MonitorEvent::Broken(exiting, e) => MonitorEventModel::Broken(*exiting, e@),
            MonitorEvent::NoMore => MonitorEventModel::NoMore,
            MonitorEvent::Rested(exiting) => MonitorEventModel::Rested(*exiting),
        }
    }
}

/// What is said where a message could not be read.
pub open spec fn broken_text(error: Seq<char>) -> Seq<char> {
    "Error al leer señal BlueZ: "@ + error
}

/// What is said where a session failed for the first time.
pub open spec fn warning_text(error: Seq<char>) -> Seq<char> {
    "Monitor de conexión BlueZ no disponible: "@ + error
}

/// Where the listening goes on after the program was asked whether it ends.
pub open spec fn next_round(exiting: bool) -> MonitorPhase {
    if exiting {
        MonitorPhase::Stopped
    } else {
        MonitorPhase::Joining
    }
}

impl Monitor {
    /// The error with which an event ends a session, if it does so with one.
    pub open spec fn failure(self, event: MonitorEventModel) -> Option<Seq<char>> {
        match (self.phase, event) {
            (MonitorPhase::Joining, MonitorEventModel::Joined(Err(e))) => Some(e),
            (MonitorPhase::Listening, MonitorEventModel::Broken(exiting, e)) if !exiting => Some(e),
            _ => None,
        }
    }

    /// The phase that an event leads to. One that does not answer the phase
    /// leads nowhere.
    pub open spec fn next_phase(self, event: MonitorEventModel) -> MonitorPhase {
        match (self.phase, event) {
            (MonitorPhase::Joining, MonitorEventModel::Joined(Ok(_))) => MonitorPhase::Listening,
            (MonitorPhase::Joining, MonitorEventModel::Joined(Err(_))) => MonitorPhase::Resting,
            (MonitorPhase::Listening, MonitorEventModel::Message(exiting)) => if exiting {
                MonitorPhase::Resting
            } else {
                MonitorPhase::Listening
            },
            (MonitorPhase::Listening, MonitorEventModel::Broken(_, _)) => MonitorPhase::Resting,
            (MonitorPhase::Listening, MonitorEventModel::NoMore) => MonitorPhase::Resting,
            (MonitorPhase::Resting, MonitorEventModel::Rested(exiting)) => next_round(exiting),
            (phase, _) => phase,
        }
    }

    /// The listening after an event.
    pub open spec fn next(self, event: MonitorEventModel) -> Monitor {
        Monitor {
            phase: self.next_phase(event),
            warned: self.warned || self.failure(event) is Some,
        }
    }

    /// The warning at an event, if there is one.
    pub open spec fn warning(self, event: MonitorEventModel) -> Option<Seq<char>> {
        match self.failure(event) {
            Some(e) if !self.warned => Some(warning_text(e)),
            _ => None,
        }
    }

    /// The lines to print at an event.
    pub open spec fn lines(self, event: MonitorEventModel) -> Seq<Seq<char>> {
        let first = match (self.phase, event) {
            (MonitorPhase::Listening, MonitorEventModel::Broken(exiting, e)) if !exiting => {
                seq![broken_text(e)]
            },
            _ => Seq::<Seq<char>>::empty(),
        };
        match self.warning(event) {
            Some(warning) => first.push(warning),
            None => first,
        }
    }

    /// Whether a message is to be handled at an event.
    pub open spec fn handles(self, event: MonitorEventModel) -> bool {
        self.phase == MonitorPhase::Listening && event == MonitorEventModel::Message(false)
    }

    /// The listening after a sequence of events.
    pub open spec fn after(self, events: Seq<MonitorEventModel>) -> Monitor
        decreases events.len(),
    {
        if events.len() == 0 {
            self
        } else {
            self.after(events.drop_last()).next(events.last())
        }
    }

    /// The warnings of a sequence of events.
    pub open spec fn warnings(self, events: Seq<MonitorEventModel>) -> Seq<Seq<char>>
        decreases events.len(),
    {
        if events.len() == 0 {
            Seq::empty()
        } else {
            let before = events.drop_last();
            match self.after(before).warning(events.last()) {
                Some(warning) => self.warnings(before).push(warning),
                None => self.warnings(before),
            }
        }
    }

    /// The listening before its first session, if the program is not ending
    /// already.
    pub fn new(exiting: bool) -> (m: Monitor)
        ensures
            m == (Monitor { phase: next_round(exiting), warned: false }),
    {
        Monitor {
            phase: if exiting {
                MonitorPhase::Stopped
            } else {
                MonitorPhase::Joining
            },
            warned: false,
        }
    }

    /// The end of a session with an error: what it calls for beside `lines`.
    fn fail(&mut self, lines: Vec<String>, error: &str) -> (step: MonitorStep)
        ensures
            *final(self) == (Monitor { phase: MonitorPhase::Resting, warned: true }),
            !step.handle,
            text::string_views(step.lines@) == if old(self).warned {
                text::string_views(lines@)
            } else {
                text::string_views(lines@).push(warning_text(error@))
            },
    {
        let ghost before = lines@;
        let mut lines = lines;
        if !self.warned {
            let warning = "Monitor de conexión BlueZ no disponible: ".to_string().concat(error);
            lines.push(warning);
            proof {
                assert(text::string_views(lines@) =~= text::string_views(before).push(
                    warning_text(error@),
                ));
            }
            self.warned = true;
        }
        self.phase = MonitorPhase::Resting;
        MonitorStep { lines, handle: false }
    }

    /// Takes note of what came of the last phase.
    pub fn advance(&mut self, event: MonitorEvent) -> (step: MonitorStep)
        ensures
            *final(self) == old(self).next(event@),
            text::string_views(step.lines@) == old(self).lines(event@),
            step.handle == old(self).handles(event@),
    {
        let mut lines: Vec<String> = Vec::new();
        proof {
            assert(text::string_views(lines@) =~= Seq::empty());
        }
        match (self.phase, event) {
            (MonitorPhase::Joining, MonitorEvent::Joined(Ok(_))) => {
                self.phase = MonitorPhase::Listening;
            },
            (MonitorPhase::Joining, MonitorEvent::Joined(Err(e))) => {
                return self.fail(lines, e.as_str());
            },
            (MonitorPhase::Listening, MonitorEvent::Message(exiting)) => {
                if exiting {
                    self.phase = MonitorPhase::Resting;
                } else {
                    return MonitorStep { lines, handle: true };
                }
            },
            (MonitorPhase::Listening, MonitorEvent::Broken(exiting, e)) => {
                if !exiting {
                    let log = "Error al leer señal BlueZ: ".to_string().concat(e.as_str());
                    lines.push(log);
                    proof {
                        assert(text::string_views(lines@) =~= seq![broken_text(e@)]);
                    }
                    return self.fail(lines, e.as_str());
                }
                self.phase = MonitorPhase::Resting;
            },
            (MonitorPhase::Listening, MonitorEvent::NoMore) => {
                self.phase = MonitorPhase::Resting;
            },
            (MonitorPhase::Resting, MonitorEvent::Rested(exiting)) => {
                self.phase = if exiting {
                    MonitorPhase::Stopped
                } else {
                    MonitorPhase::Joining
                };
            },
            _ => {},
        }
        MonitorStep { lines, handle: false }
    }
}

/// However often listening fails, there is one warning at most, and there is
/// one exactly if a session has failed.
pub proof fn law_one_warning(exiting: bool, events: Seq<MonitorEventModel>)
    ensures
        ({
            let m = Monitor { phase: next_round(exiting), warned: false };
            m.warnings(events).len() == if m.after(events).warned {
                1nat
            } else {
                0
            }
        }),
    decreases events.len(),
{
    if events.len() > 0 {
        law_one_warning(exiting, events.drop_last());
    }
}

/// Listening that has stopped stays so, prints nothing and handles nothing.
pub proof fn law_stopped_for_good(m: Monitor, events: Seq<MonitorEventModel>, event: MonitorEventModel)
    requires
        m.phase == MonitorPhase::Stopped,
    ensures
        m.after(events) == m,
        m.lines(event) == Seq::<Seq<char>>::empty(),
        !m.handles(event),
    decreases events.len(),
{
    if events.len() > 0 {
        law_stopped_for_good(m, events.drop_last(), event);
    }
}

/// Once the program is ending, no message is handled any more, the session ends
/// at the next one, and the listening stops after the next rest.
pub proof fn law_ending(m: Monitor, error: Seq<char>)
    ensures
        !m.handles(MonitorEventModel::Message(true)),
        m.phase == MonitorPhase::Listening ==> {
            &&& m.next(MonitorEventModel::Message(true)).phase == MonitorPhase::Resting
            &&& m.next(MonitorEventModel::Broken(true, error)).phase == MonitorPhase::Resting
            &&& m.lines(MonitorEventModel::Broken(true, error)) == Seq::<Seq<char>>::empty()
        },
        m.phase == MonitorPhase::Resting ==> m.next(MonitorEventModel::Rested(true)).phase
            == MonitorPhase::Stopped,
{
}

/// No session follows another without a rest between them.
pub proof fn law_rest_between_sessions(m: Monitor, event: MonitorEventModel)
    requires
        m.phase == MonitorPhase::Listening,
    ensures
        m.next(event).phase == MonitorPhase::Listening || m.next(event).phase
            == MonitorPhase::Resting,
{
}

/// A session that begins is listened to until its messages break or end; one
/// that cannot begin, breaks or ends is followed by a rest, and a rest by another
/// session.
pub proof fn law_listening_goes_on(m: Monitor, e: Seq<char>, exiting: bool)
    ensures
        m.phase == MonitorPhase::Joining ==> {
            &&& m.next(MonitorEventModel::Joined(Ok(()))).phase == MonitorPhase::Listening
            &&& m.next(MonitorEventModel::Joined(Err(e))).phase == MonitorPhase::Resting
        },
        m.phase == MonitorPhase::Listening ==> {
            &&& m.next(MonitorEventModel::Message(false)) == m
            &&& m.next(MonitorEventModel::Broken(exiting, e)).phase == MonitorPhase::Resting
            &&& m.next(MonitorEventModel::NoMore).phase == MonitorPhase::Resting
        },
        m.phase == MonitorPhase::Resting ==> m.next(MonitorEventModel::Rested(false)).phase
            == MonitorPhase::Joining,
        next_round(true) == MonitorPhase::Stopped,
        next_round(false) == MonitorPhase::Joining,
{
}

/// Every message that comes while the program goes on is handled, and nothing
/// else is.
pub proof fn law_every_message_handled(m: Monitor, event: MonitorEventModel)
    ensures
        m.handles(event) <==> m.phase == MonitorPhase::Listening
            && event == MonitorEventModel::Message(false),
{
}

/// The first failure of a session is reported with its error, and so is every
/// message that could not be read; nothing else is printed.
pub proof fn law_failures_reported(m: Monitor, e: Seq<char>, event: MonitorEventModel)
    ensures
        m.phase == MonitorPhase::Joining ==> {
            &&& m.lines(MonitorEventModel::Joined(Err(e))) == if m.warned {
                Seq::empty()
            } else {
                seq!["Monitor de conexión BlueZ no disponible: "@ + e]
            }
            &&& m.next(MonitorEventModel::Joined(Err(e))).warned
        },
        m.phase == MonitorPhase::Listening ==> {
            &&& m.lines(MonitorEventModel::Broken(false, e)) == if m.warned {
                seq!["Error al leer señal BlueZ: "@ + e]
            } else {
                seq![
                    "Error al leer señal BlueZ: "@ + e,
                    "Monitor de conexión BlueZ no disponible: "@ + e,
                ]
            }
            &&& m.next(MonitorEventModel::Broken(false, e)).warned
        },
        !(m.phase == MonitorPhase::Joining && (event matches MonitorEventModel::Joined(Err(_)))) && !(
        m.phase == MonitorPhase::Listening && (event matches MonitorEventModel::Broken(false, _)))
            ==> m.lines(event) == Seq::<Seq<char>>::empty() && m.next(event).warned == m.warned,
{
    if m.phase == MonitorPhase::Joining {
        assert(Seq::<Seq<char>>::empty().push(warning_text(e)) =~= seq![warning_text(e)]);
    }
    if m.phase == MonitorPhase::Listening {
        assert(seq![broken_text(e)].push(warning_text(e)) =~= seq![broken_text(e), warning_text(e)]);
    }
}

/// An event that does not answer the phase changes nothing.
pub proof fn law_monitor_out_of_turn(m: Monitor, event: MonitorEventModel)
    ensures
        m.phase == MonitorPhase::Joining && !(event is Joined) ==> m.next(event) == m,
        m.phase == MonitorPhase::Listening && (event is Joined || event is Rested) ==> m.next(event)
            == m,
        m.phase == MonitorPhase::Resting && !(event is Rested) ==> m.next(event) == m,
        m.phase == MonitorPhase::Stopped ==> m.next(event) == m,
{
}

/// An event is seen as it is.
pub proof fn law_monitor_event_view(event: MonitorEvent)
    ensures
        event matches MonitorEvent::Joined(Ok(_)) ==> (event@ matches MonitorEventModel::Joined(
            Ok(_),
        )),
        event matches MonitorEvent::Joined(Err(e)) ==> event@ == MonitorEventModel::Joined(Err(e@)),
        event matches MonitorEvent::Message(exiting) ==> event@ == MonitorEventModel::Message(
            exiting,
        ),
        event matches MonitorEvent::Broken(exiting, e) ==> event@ == MonitorEventModel::Broken(
            exiting,
            e@,
        ),
        event is NoMore ==> event@ is NoMore,
        event matches MonitorEvent::Rested(exiting) ==> event@ == MonitorEventModel::Rested(exiting),
{
}

/// What is listened to: changed properties, as the Bluetooth service announces
/// them of its objects; and how long a rest is.
pub proof fn law_listens_to_bluetooth()
    ensures
        SENDER@ == "org.bluez"@,
        INTERFACE@ == "org.freedesktop.DBus.Properties"@,
        MEMBER@ == "PropertiesChanged"@,
        PATH_NAMESPACE@ == "/org/bluez"@,
        QUEUE_SIZE == 32,
        REST_SECS == 5,
{
}

} // verus!
