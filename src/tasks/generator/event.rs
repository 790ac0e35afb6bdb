//! The decisions of a generator driven by an outside notification source
//! (a D-Bus connection): connect, subscribe, then show, publish and wait for
//! a control message or a notification, and unsubscribe on the way out.

use vstd::prelude::*;
use crate::tasks::ExitReason;

verus! {

/// What the generator's task does next.
#[derive(PartialEq, Eq, Structural, Clone, Copy, Debug)]
pub enum EventAction {
    /// Open the connection.
    Connect,
    /// One-time setup over the connection.
    Init,
    /// Subscribe to the notifications of interest.
    Subscribe,
    /// Compute the text.
    Update,
    /// Send the text to the bus.
    Publish,
    /// Wait for a control message or a notification.
    Wait,
    HandleMsg,
    HandleSignal,
    /// Remove the subscriptions; a failure there is only logged.
    Unsubscribe,
    /// End the task with this reason.
    Exit(ExitReason),
}

/// What the task reports after doing an action.
#[derive(PartialEq, Eq, Structural, Clone, Copy, Debug)]
pub enum EventInput {
    Connected(Option<ExitReason>),
    Initialized(Option<ExitReason>),
    Subscribed(Option<ExitReason>),
    Updated(Option<ExitReason>),
    Published(bool),
    /// A control message (`true`), or the control queue closed (`false`).
    Message(bool),
    /// A notification (`true`), or the notification stream ended (`false`).
    Signal(bool),
    MsgHandled(Option<ExitReason>),
    SignalHandled(Option<ExitReason>),
    Unsubscribed,
    /// The connection was lost, at any point.
    ConnectionLost,
}

/// The action an event generator's task is carrying out.
#[derive(PartialEq, Eq, Structural, Clone, Copy, Debug)]
pub struct EventMachine {
    pub doing: EventAction,
    /// The reason the task ends with once unsubscribed.
    pub reason: ExitReason,
}

/// The inputs that report the outcome of `a`.
pub open spec fn event_answers(a: EventAction, i: EventInput) -> bool {
    match a {
        EventAction::Exit(_) => false,
        _ => i is ConnectionLost || match a {
            EventAction::Connect => i is Connected,
            EventAction::Init => i is Initialized,
            EventAction::Subscribe => i is Subscribed,
            EventAction::Update => i is Updated,
            EventAction::Publish => i is Published,
            EventAction::Wait => i is Message || i is Signal,
            EventAction::HandleMsg => i is MsgHandled,
            EventAction::HandleSignal => i is SignalHandled,
            EventAction::Unsubscribe => i is Unsubscribed,
            EventAction::Exit(_) => false,
        },
    }
}

pub open spec fn ego(doing: EventAction, reason: ExitReason) -> EventMachine {
    EventMachine { doing, reason }
}

/// Leaves through unsubscribing, with reason `e`.
pub open spec fn leave(e: ExitReason) -> EventMachine {
    ego(EventAction::Unsubscribe, e)
}

/// Whether the subscriptions may be in place while doing `a`.
pub open spec fn subscribed(a: EventAction) -> bool {
    match a {
        EventAction::Update | EventAction::Publish | EventAction::Wait | EventAction::HandleMsg
        | EventAction::HandleSignal => true,
        _ => false,
    }
}

/// The next machine. Failures before subscribing end the task with their
/// reason, and a connection lost then ends it with an error; after
/// subscribing every way out unsubscribes first (a lost connection with an
/// error): a closed control queue
/// ends normally, an ended notification stream or a failed send with an
/// error, a failed step with its reason.
pub open spec fn event_next(m: EventMachine, i: EventInput) -> EventMachine {
    match i {
        EventInput::ConnectionLost => if subscribed(m.doing) {
            leave(ExitReason::Error)
        } else {
            ego(EventAction::Exit(ExitReason::Error), m.reason)
        },
        EventInput::Connected(None) => ego(EventAction::Init, m.reason),
        EventInput::Connected(Some(e)) | EventInput::Initialized(Some(e)) => ego(EventAction::Exit(e), m.reason),
        EventInput::Initialized(None) => ego(EventAction::Subscribe, m.reason),
        EventInput::Subscribed(None) => ego(EventAction::Update, m.reason),
        EventInput::Subscribed(Some(e)) | EventInput::Updated(Some(e)) | EventInput::MsgHandled(Some(e))
        | EventInput::SignalHandled(Some(e)) => leave(e),
        EventInput::Updated(None) => ego(EventAction::Publish, m.reason),
        EventInput::Published(true) => ego(EventAction::Wait, m.reason),
        EventInput::Published(false) => leave(ExitReason::Error),
        EventInput::Message(true) => ego(EventAction::HandleMsg, m.reason),
        EventInput::Message(false) => leave(ExitReason::Normal),
        EventInput::Signal(true) => ego(EventAction::HandleSignal, m.reason),
        EventInput::Signal(false) => leave(ExitReason::Error),
        EventInput::MsgHandled(None) | EventInput::SignalHandled(None) => ego(EventAction::Update, m.reason),
        EventInput::Unsubscribed => ego(EventAction::Exit(m.reason), m.reason),
    }
}

impl EventMachine {
    /// A task about to connect.
    pub fn start() -> (r: Self)
        ensures
            r == ego(EventAction::Connect, ExitReason::Normal),
    {
        EventMachine { doing: EventAction::Connect, reason: ExitReason::Normal }
    }

    /// The next step after the current action reported `i`.
    pub fn step(self, i: EventInput) -> (r: Self)
        requires
            event_answers(self.doing, i),
        ensures
            r == event_next(self, i),
    {
        let m = self;
        match i {
            EventInput::ConnectionLost => match m.doing {
                EventAction::Update | EventAction::Publish | EventAction::Wait | EventAction::HandleMsg
                | EventAction::HandleSignal => EventMachine { doing: EventAction::Unsubscribe, reason: ExitReason::Error },
                _ => EventMachine { doing: EventAction::Exit(ExitReason::Error), ..m },
            },
            EventInput::Connected(None) => EventMachine { doing: EventAction::Init, ..m },
            EventInput::Connected(Some(e)) | EventInput::Initialized(Some(e)) => EventMachine { doing: EventAction::Exit(e), ..m },
            EventInput::Initialized(None) => EventMachine { doing: EventAction::Subscribe, ..m },
            EventInput::Subscribed(None) => EventMachine { doing: EventAction::Update, ..m },
            EventInput::Subscribed(Some(e)) | EventInput::Updated(Some(e)) | EventInput::MsgHandled(Some(e))
            | EventInput::SignalHandled(Some(e)) => EventMachine { doing: EventAction::Unsubscribe, reason: e },
            EventInput::Updated(None) => EventMachine { doing: EventAction::Publish, ..m },
            EventInput::Published(true) => EventMachine { doing: EventAction::Wait, ..m },
            EventInput::Published(false) => EventMachine { doing: EventAction::Unsubscribe, reason: ExitReason::Error },
            EventInput::Message(true) => EventMachine { doing: EventAction::HandleMsg, ..m },
            EventInput::Message(false) => EventMachine { doing: EventAction::Unsubscribe, reason: ExitReason::Normal },
            EventInput::Signal(true) => EventMachine { doing: EventAction::HandleSignal, ..m },
            EventInput::Signal(false) => EventMachine { doing: EventAction::Unsubscribe, reason: ExitReason::Error },
            EventInput::MsgHandled(None) | EventInput::SignalHandled(None) => EventMachine { doing: EventAction::Update, ..m },
            EventInput::Unsubscribed => EventMachine { doing: EventAction::Exit(m.reason), ..m },
        }
    }
}

/// Once subscribed, the task ends only through unsubscribing, whatever
/// happens, a lost connection included.
pub proof fn lemma_unsubscribe_before_exit(m: EventMachine, i: EventInput)
    requires
        event_answers(m.doing, i),
        subscribed(m.doing),
    ensures
        !(event_next(m, i).doing is Exit),
{
}

} // verus!
