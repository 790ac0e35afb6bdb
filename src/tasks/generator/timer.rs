//! The decisions of a periodically refreshed generator: refresh, show,
//! publish, then wait for the period to end or a control message, and
//! always finalize before ending.

use vstd::prelude::*;
use crate::tasks::ExitReason;

verus! {

/// What the generator's task does next.
#[derive(PartialEq, Eq, Structural, Clone, Copy, Debug)]
pub enum TimerAction {
    /// One-time setup.
    Init,
    /// Refresh the generator's state.
    Update,
    /// Compute the text.
    Display,
    /// Send the text to the bus.
    Publish,
    /// Wait for the period to end or a control message; with `rearm`, the
    /// period starts anew (from the generator's delay), else the running
    /// one goes on.
    Wait { rearm: bool },
    /// Hand the control message to the generator.
    HandleMsg,
    /// Release what the generator holds.
    Finalize,
    /// End the task with this reason.
    Exit(ExitReason),
}

/// What the task reports after doing an action.
#[derive(PartialEq, Eq, Structural, Clone, Copy, Debug)]
pub enum TimerInput {
    Initialized(Option<ExitReason>),
    Updated(Option<ExitReason>),
    Displayed(Option<ExitReason>),
    Published(bool),
    PeriodEnded,
    /// A control message, or `false` when the control queue is closed.
    Message(bool),
    /// Whether the generator wants a refresh now.
    MsgHandled(bool),
    /// Handling the message failed.
    MsgFailed(ExitReason),
    Finalized(Option<ExitReason>),
}

/// The action a timer generator's task is carrying out.
#[derive(PartialEq, Eq, Structural, Clone, Copy, Debug)]
pub struct TimerMachine {
    /// The action whose outcome is awaited.
    pub doing: TimerAction,
    /// Whether the next wait starts a new period.
    pub rearm: bool,
    /// The reason the task will end with, once finalizing.
    pub reason: ExitReason,
}

/// The input that reports the outcome of `a`.
pub open spec fn answers(a: TimerAction, i: TimerInput) -> bool {
    match a {
        TimerAction::Init => i is Initialized,
        TimerAction::Update => i is Updated,
        TimerAction::Display => i is Displayed,
        TimerAction::Publish => i is Published,
        TimerAction::Wait { .. } => i is PeriodEnded || i is Message,
        TimerAction::HandleMsg => i is MsgHandled || i is MsgFailed,
        TimerAction::Finalize => i is Finalized,
        TimerAction::Exit(_) => false,
    }
}

pub open spec fn go(doing: TimerAction, rearm: bool, reason: ExitReason) -> TimerMachine {
    TimerMachine { doing, rearm, reason }
}

/// Stops with `e`: finalizing comes first.
pub open spec fn fail(m: TimerMachine, e: ExitReason) -> TimerMachine {
    go(TimerAction::Finalize, m.rearm, e)
}

/// The next machine: its `doing` is the action to carry out.
pub open spec fn timer_next(m: TimerMachine, i: TimerInput) -> TimerMachine {
    match i {
        TimerInput::Initialized(None) => go(TimerAction::Update, m.rearm, m.reason),
        TimerInput::Updated(None) => go(TimerAction::Display, true, m.reason),
        TimerInput::Displayed(None) => go(TimerAction::Publish, m.rearm, m.reason),
        TimerInput::Initialized(Some(e)) | TimerInput::Updated(Some(e)) | TimerInput::Displayed(Some(e)) => fail(m, e),
        TimerInput::Published(true) => go(TimerAction::Wait { rearm: m.rearm }, false, m.reason),
        TimerInput::Published(false) => fail(m, ExitReason::Error),
        TimerInput::PeriodEnded => go(TimerAction::Update, m.rearm, m.reason),
        TimerInput::Message(true) => go(TimerAction::HandleMsg, m.rearm, m.reason),
        TimerInput::Message(false) => fail(m, ExitReason::Normal),
        TimerInput::MsgHandled(true) => go(TimerAction::Update, m.rearm, m.reason),
        TimerInput::MsgHandled(false) => go(TimerAction::Display, m.rearm, m.reason),
        TimerInput::MsgFailed(e) => fail(m, e),
        TimerInput::Finalized(r) => go(
            TimerAction::Exit(
                match r {
                    Some(e) => if m.reason == ExitReason::Normal {
                        e
                    } else {
                        m.reason
                    },
                    None => m.reason,
                },
            ),
            m.rearm,
            m.reason,
        ),
    }
}

impl TimerMachine {
    /// A task about to initialize its generator.
    pub fn start() -> (r: Self)
        ensures
            r == go(TimerAction::Init, false, ExitReason::Normal),
    {
        TimerMachine { doing: TimerAction::Init, rearm: false, reason: ExitReason::Normal }
    }

    /// The next step after the current action reported `i`: a refresh
    /// comes before every text, a text is published before each wait, a
    /// control message that asks for it refreshes at once, and any failure
    /// or the closing of the control queue finalizes before the end.
    pub fn step(self, i: TimerInput) -> (r: Self)
        requires
            answers(self.doing, i),
        ensures
            r == timer_next(self, i),
    {
        let m = self;
        match i {
            TimerInput::Initialized(None) => TimerMachine { doing: TimerAction::Update, ..m },
            TimerInput::Updated(None) => TimerMachine { doing: TimerAction::Display, rearm: true, ..m },
            TimerInput::Displayed(None) => TimerMachine { doing: TimerAction::Publish, ..m },
            TimerInput::Initialized(Some(e)) | TimerInput::Updated(Some(e)) | TimerInput::Displayed(Some(e)) => {
                TimerMachine { doing: TimerAction::Finalize, reason: e, ..m }
            },
            TimerInput::Published(true) => TimerMachine {
                doing: TimerAction::Wait { rearm: m.rearm },
                rearm: false,
                ..m
            },
            TimerInput::Published(false) => TimerMachine { doing: TimerAction::Finalize, reason: ExitReason::Error, ..m },
            TimerInput::PeriodEnded => TimerMachine { doing: TimerAction::Update, ..m },
            TimerInput::Message(true) => TimerMachine { doing: TimerAction::HandleMsg, ..m },
            TimerInput::Message(false) => TimerMachine { doing: TimerAction::Finalize, reason: ExitReason::Normal, ..m },
            TimerInput::MsgHandled(true) => TimerMachine { doing: TimerAction::Update, ..m },
            TimerInput::MsgHandled(false) => TimerMachine { doing: TimerAction::Display, ..m },
            TimerInput::MsgFailed(e) => TimerMachine { doing: TimerAction::Finalize, reason: e, ..m },
            TimerInput::Finalized(r) => {
                let e = match r {
                    Some(e) => if m.reason == ExitReason::Normal {
                        e
                    } else {
                        m.reason
                    },
                    None => m.reason,
                };
                TimerMachine { doing: TimerAction::Exit(e), ..m }
            },
        }
    }
}

/// A generator whose first refresh fails publishes nothing, is finalized,
/// and ends with the refresh's reason.
pub proof fn lemma_failed_first_update(e: ExitReason, fin: Option<ExitReason>)
    requires
        e == ExitReason::Error || e == ExitReason::NonFatal,
    ensures
        ({
            let m0 = go(TimerAction::Init, false, ExitReason::Normal);
            let m1 = timer_next(m0, TimerInput::Initialized(None));
            let m2 = timer_next(m1, TimerInput::Updated(Some(e)));
            let m3 = timer_next(m2, TimerInput::Finalized(fin));
            &&& m1.doing == TimerAction::Update
            &&& m2.doing == TimerAction::Finalize
            &&& m3.doing == TimerAction::Exit(e)
        }),
{
}

/// A wait comes only right after a text was published, and a text is
/// published only right after it was computed: publish, then wait.
pub proof fn lemma_publish_then_wait(m: TimerMachine, i: TimerInput)
    requires
        answers(m.doing, i),
    ensures
        timer_next(m, i).doing is Wait ==> i == TimerInput::Published(true),
        timer_next(m, i).doing == TimerAction::Publish ==> i == TimerInput::Displayed(None),
        timer_next(m, i).doing == TimerAction::Display ==> i == TimerInput::Updated(None) || i == TimerInput::MsgHandled(false),
{
}

} // verus!
