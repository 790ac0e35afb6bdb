//! A script as a generator: each line it prints becomes the text, with icon
//! and color names resolved and a click region that reports to the
//! generator; once the script ends it runs again on the next control
//! message.

use vstd::prelude::*;
use crate::text::copy_string;
use crate::dzen_format::sp_add;
use crate::dzen_format::config::{expand_home, Config};
use crate::dzen_format::external::{fix_dzen_string, fixed_markup};
use crate::dzen_format::utils::sp_name_click;
use crate::tasks::ExitReason;
use crate::tasks::generator::{arg_builder, GenArg};

verus! {

/// A generator that runs a script.
pub struct OneGen;

impl OneGen {
    pub fn new() -> (r: Self) {
        OneGen
    }
}

/// The text for one line of the script's output: empty stays empty, else
/// the line made clickable.
pub fn line_text(arg: &GenArg, theme: &Config, name: &str, line: &str) -> (r: String)
    ensures
        r@ == (if fixed_markup(theme@, line@).len() == 0 {
            Seq::empty()
        } else {
            sp_name_click(sp_add(arg_builder(arg@), fixed_markup(theme@, line@)), 1, name@).rendered()
        }),
{
    let fixed = fix_dzen_string(line, theme);
    if fixed.as_str().unicode_len() == 0 {
        fixed
    } else {
        arg.get_builder().add(fixed.as_str()).name_click(1, name).to_string()
    }
}

/// The search path for scripts: the script directory, then `path`, with a
/// leading `~` replaced by the home directory.
pub fn script_search_path(script_dir: &str, path: &str, home: &str) -> (r: String)
    ensures
        r@ == expand_home(script_dir@ + ":"@ + path@, home@),
{
    let mut p = copy_string(script_dir);
    p.append(":");
    p.append(path);
    let n = p.as_str().unicode_len();
    if n > 0 && p.as_str().get_char(0) == '~' {
        let mut h = copy_string(home);
        h.append(p.as_str().substring_char(1, n));
        assert(p@.subrange(1, n as int) =~= p@.drop_first());
        h
    } else {
        p
    }
}

/// What a script generator's task does next.
#[derive(PartialEq, Eq, Structural, Clone, Copy, Debug)]
pub enum ScriptAction {
    /// Start the script; `first` tells it whether this is the first run.
    Spawn { first: bool },
    /// Wait for a line of output or a control message.
    Read,
    /// Send the text of the line just read.
    Publish,
    /// Wait for the script to end, after asking it to terminate when `terminate`.
    Reap { terminate: bool },
    /// Wait for a control message before running the script again.
    Dormant,
    /// End the task with this reason.
    Exit(ExitReason),
}

/// What the task reports after doing an action.
#[derive(PartialEq, Eq, Structural, Clone, Copy, Debug)]
pub enum ScriptInput {
    Spawned(bool),
    /// A line was read.
    Line,
    /// The script's output ended.
    Eof,
    /// Reading failed.
    ReadFailed,
    /// A control message arrived (`true`) or the control queue closed (`false`).
    Message(bool),
    Published(bool),
    Reaped,
}

/// The action a script generator's task is carrying out.
#[derive(PartialEq, Eq, Structural, Clone, Copy, Debug)]
pub struct ScriptMachine {
    pub doing: ScriptAction,
    /// Whether the task ends once the script is reaped.
    pub ending: bool,
    /// The reason it then ends with.
    pub reason: ExitReason,
}

/// The input that reports the outcome of `a`.
pub open spec fn script_answers(a: ScriptAction, i: ScriptInput) -> bool {
    match a {
        ScriptAction::Spawn { .. } => i is Spawned,
        ScriptAction::Read => i is Line || i is Eof || i is ReadFailed || i is Message,
        ScriptAction::Publish => i is Published,
        ScriptAction::Reap { .. } => i is Reaped,
        ScriptAction::Dormant => i is Message,
        ScriptAction::Exit(_) => false,
    }
}

pub open spec fn sgo(doing: ScriptAction, ending: bool, reason: ExitReason) -> ScriptMachine {
    ScriptMachine { doing, ending, reason }
}

/// The next machine: its `doing` is the action to carry out. While
/// reading, a control message is ignored and a closed queue terminates the
/// script and ends normally; a failed send or read terminates it and ends
/// with an error; the end of output reaps it and waits for a message.
pub open spec fn script_next(m: ScriptMachine, i: ScriptInput) -> ScriptMachine {
    match (m.doing, i) {
        (ScriptAction::Spawn { .. }, ScriptInput::Spawned(true)) => sgo(ScriptAction::Read, false, m.reason),
        (ScriptAction::Spawn { .. }, ScriptInput::Spawned(false)) => sgo(ScriptAction::Exit(ExitReason::Error), m.ending, m.reason),
        (ScriptAction::Read, ScriptInput::Line) => sgo(ScriptAction::Publish, m.ending, m.reason),
        (ScriptAction::Read, ScriptInput::Eof) => sgo(ScriptAction::Reap { terminate: false }, false, m.reason),
        (ScriptAction::Read, ScriptInput::ReadFailed) => sgo(ScriptAction::Reap { terminate: true }, true, ExitReason::Error),
        (ScriptAction::Read, ScriptInput::Message(true)) => m,
        (ScriptAction::Read, ScriptInput::Message(false)) => sgo(ScriptAction::Reap { terminate: true }, true, ExitReason::Normal),
        (ScriptAction::Publish, ScriptInput::Published(true)) => sgo(ScriptAction::Read, m.ending, m.reason),
        (ScriptAction::Publish, ScriptInput::Published(false)) => sgo(ScriptAction::Reap { terminate: true }, true, ExitReason::Error),
        (ScriptAction::Reap { .. }, _) => if m.ending {
            sgo(ScriptAction::Exit(m.reason), m.ending, m.reason)
        } else {
            sgo(ScriptAction::Dormant, m.ending, m.reason)
        },
        (ScriptAction::Dormant, ScriptInput::Message(true)) => sgo(ScriptAction::Spawn { first: false }, m.ending, m.reason),
        (ScriptAction::Dormant, ScriptInput::Message(false)) => sgo(ScriptAction::Exit(ExitReason::Normal), m.ending, m.reason),
        _ => m,
    }
}

impl ScriptMachine {
    /// A task about to run its script for the first time; without a
    /// command there is nothing to run, an error.
    pub fn start(has_command: bool) -> (r: Self)
        ensures
            r == (if has_command {
                sgo(ScriptAction::Spawn { first: true }, false, ExitReason::Normal)
            } else {
                sgo(ScriptAction::Exit(ExitReason::Error), false, ExitReason::Normal)
            }),
    {
        if has_command {
            ScriptMachine { doing: ScriptAction::Spawn { first: true }, ending: false, reason: ExitReason::Normal }
        } else {
            ScriptMachine { doing: ScriptAction::Exit(ExitReason::Error), ending: false, reason: ExitReason::Normal }
        }
    }

    /// The next step after the current action reported `i`.
    pub fn step(self, i: ScriptInput) -> (r: Self)
        requires
            script_answers(self.doing, i),
        ensures
            r == script_next(self, i),
    {
        let m = self;
        match (m.doing, i) {
            (ScriptAction::Spawn { .. }, ScriptInput::Spawned(true)) => ScriptMachine { doing: ScriptAction::Read, ending: false, ..m },
            (ScriptAction::Spawn { .. }, ScriptInput::Spawned(false)) => ScriptMachine { doing: ScriptAction::Exit(ExitReason::Error), ..m },
            (ScriptAction::Read, ScriptInput::Line) => ScriptMachine { doing: ScriptAction::Publish, ..m },
            (ScriptAction::Read, ScriptInput::Eof) => ScriptMachine { doing: ScriptAction::Reap { terminate: false }, ending: false, ..m },
            (ScriptAction::Read, ScriptInput::ReadFailed) => ScriptMachine {
                doing: ScriptAction::Reap { terminate: true },
                ending: true,
                reason: ExitReason::Error,
            },
            (ScriptAction::Read, ScriptInput::Message(true)) => m,
            (ScriptAction::Read, ScriptInput::Message(false)) => ScriptMachine {
                doing: ScriptAction::Reap { terminate: true },
                ending: true,
                reason: ExitReason::Normal,
            },
            (ScriptAction::Publish, ScriptInput::Published(true)) => ScriptMachine { doing: ScriptAction::Read, ..m },
            (ScriptAction::Publish, ScriptInput::Published(false)) => ScriptMachine {
                doing: ScriptAction::Reap { terminate: true },
                ending: true,
                reason: ExitReason::Error,
            },
            (ScriptAction::Reap { .. }, _) => if m.ending {
                ScriptMachine { doing: ScriptAction::Exit(m.reason), ..m }
            } else {
                ScriptMachine { doing: ScriptAction::Dormant, ..m }
            },
            (ScriptAction::Dormant, ScriptInput::Message(true)) => ScriptMachine { doing: ScriptAction::Spawn { first: false }, ..m },
            (ScriptAction::Dormant, ScriptInput::Message(false)) => ScriptMachine { doing: ScriptAction::Exit(ExitReason::Normal), ..m },
            _ => m,
        }
    }
}

/// A script that was started is always reaped before the task ends: no
/// input takes a reading task straight to its end.
pub proof fn lemma_reaped_before_exit(m: ScriptMachine, i: ScriptInput)
    requires
        m.doing == ScriptAction::Read || m.doing == ScriptAction::Publish,
        script_answers(m.doing, i),
    ensures
        !(script_next(m, i).doing is Exit),
{
}

} // verus!
