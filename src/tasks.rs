//! What tasks exchange and how they end: the bus message, the exit reason
//! of one task, and the merge of all of them into the process's exit code.

pub mod generator;
pub mod dzen;
pub mod pipo;

use vstd::prelude::*;
use crate::bar::{all_bar_ids, dedup, first_entry, SetupConfig, SetupView};
use crate::tasks::generator::GenId;
use crate::text::decimal;

verus! {

/// A message on the broadcast bus from generators to bars.
#[derive(Clone, Debug)]
pub enum Msg {
    /// New text of one generator.
    Gen(GenId, String),
    /// A request to restart the tray helper.
    Tray,
}

/// How a single task ended.
#[derive(PartialEq, Eq, Structural, Clone, Copy, Debug)]
pub enum ExitReason {
    Signal,
    Error,
    Normal,
    NonFatal,
}

/// The merge of the exit reasons of every task of the process.
#[derive(Debug)]
pub enum ProcessExitReason {
    /// Nothing fatal was seen.
    Okay,
    /// The distinct fatal reasons seen, in order of first arrival.
    Error(Vec<ExitReason>),
}

impl ExitReason {
    /// Whether this reason is absorbed by every other one when merged.
    pub open spec fn is_absorbed(self) -> bool {
        self == ExitReason::Normal || self == ExitReason::NonFatal
    }
}

/// The exit code for the flags "an error was seen" and "a signal was seen".
pub open spec fn exit_code_of(error: bool, signal: bool) -> i32 {
    if error && signal {
        3
    } else if signal {
        2
    } else if error {
        1
    } else {
        0
    }
}

/// The flags after one more reason has been merged in.
pub open spec fn merge_flags(f: (bool, bool), r: ExitReason) -> (bool, bool) {
    (f.0 || r == ExitReason::Error, f.1 || r == ExitReason::Signal)
}

impl ProcessExitReason {
    /// The fatal reasons recorded so far.
    pub open spec fn reasons(&self) -> Seq<ExitReason> {
        match self {
            ProcessExitReason::Okay => Seq::empty(),
            ProcessExitReason::Error(v) => v@,
        }
    }

    /// Whether an error, and whether a signal, has been recorded.
    pub open spec fn flags(&self) -> (bool, bool) {
        (self.reasons().contains(ExitReason::Error), self.reasons().contains(ExitReason::Signal))
    }

    /// Only fatal reasons are recorded, each once, and `Error` holds at least one.
    pub open spec fn wf(&self) -> bool {
        &&& self.reasons().no_duplicates()
        &&& forall|i: int| 0 <= i < self.reasons().len() ==> !(#[trigger] self.reasons()[i]).is_absorbed()
        &&& (self is Error ==> self.reasons().len() > 0)
    }

    pub fn new() -> (r: Self)
        ensures
            r is Okay,
            r.wf(),
            r.flags() == (false, false),
    {
        ProcessExitReason::Okay
    }

    /// Merges one more task's reason: `Normal` and `NonFatal` change nothing,
    /// a fatal reason is recorded once.
    pub fn combine(self, reason: ExitReason) -> (r: Self)
        ensures
            reason.is_absorbed() || self.reasons().contains(reason) ==> r.reasons() == self.reasons()
                && (r is Okay) == (self is Okay),
            !reason.is_absorbed() && !self.reasons().contains(reason) ==> r.reasons()
                == self.reasons().push(reason) && r is Error,
            r.flags() == merge_flags(self.flags(), reason),
            self.wf() ==> r.wf(),
    {
        if reason == ExitReason::Normal || reason == ExitReason::NonFatal {
            return self;
        }
        match self {
            ProcessExitReason::Okay => {
                let mut v = Vec::new();
                v.push(reason);
                proof {
                    assert(v@ =~= Seq::<ExitReason>::empty().push(reason));
                    assert(v@[0] == reason);
                    assert forall|x: ExitReason| v@.contains(x) implies x == reason by {
                        let k = choose|k: int| 0 <= k < v@.len() && v@[k] == x;
                        assert(k == 0);
                    }
                }
                ProcessExitReason::Error(v)
            },
            ProcessExitReason::Error(mut v) => {
                if contains_reason(&v, reason) {
                    ProcessExitReason::Error(v)
                } else {
                    let ghost old_v = v@;
                    v.push(reason);
                    proof {
                        assert forall|x: ExitReason| v@.contains(x) <==> old_v.contains(x) || x == reason by {
                            if old_v.contains(x) {
                                let k = choose|k: int| 0 <= k < old_v.len() && old_v[k] == x;
                                assert(v@[k] == x);
                            }
                            if x == reason {
                                assert(v@[old_v.len() as int] == x);
                            }
                            if v@.contains(x) && x != reason {
                                let k = choose|k: int| 0 <= k < v@.len() && v@[k] == x;
                                assert(k < old_v.len());
                                assert(old_v[k] == x);
                            }
                        }
                    }
                    ProcessExitReason::Error(v)
                }
            },
        }
    }

    /// 0 when nothing fatal happened, 1 for an error, 2 for a signal, 3 for both.
    pub fn get_exit_code(&self) -> (r: i32)
        ensures
            r == exit_code_of(self.flags().0, self.flags().1),
    {
        match self {
            ProcessExitReason::Okay => 0,
            ProcessExitReason::Error(v) => {
                let e = contains_reason(v, ExitReason::Error);
                let s = contains_reason(v, ExitReason::Signal);
                if e && s {
                    3
                } else if s {
                    2
                } else if e {
                    1
                } else {
                    0
                }
            },
        }
    }
}

fn contains_reason(v: &Vec<ExitReason>, r: ExitReason) -> (b: bool)
    ensures
        b == v@.contains(r),
{
    let mut i: usize = 0;
    while i < v.len()
        invariant
            i <= v.len(),
            forall|k: int| 0 <= k < i ==> v@[k] != r,
        decreases v.len() - i,
    {
        if v[i] == r {
            return true;
        }
        i += 1;
    }
    false
}

/// Merging is order-independent: two reasons merged in either order give
/// the same flags, and so the same exit code.
pub proof fn lemma_merge_commutes(f: (bool, bool), a: ExitReason, b: ExitReason)
    ensures
        merge_flags(merge_flags(f, a), b) == merge_flags(merge_flags(f, b), a),
{
}

/// `Normal` and `NonFatal` are absorbed by every state; an error and a
/// signal together give the combined code 3.
pub proof fn lemma_merge_table(f: (bool, bool), x: ExitReason)
    ensures
        merge_flags(f, ExitReason::Normal) == f,
        merge_flags(f, ExitReason::NonFatal) == f,
        merge_flags(merge_flags((false, false), ExitReason::Normal), x) == merge_flags((false, false), x),
        merge_flags(merge_flags((false, false), ExitReason::NonFatal), x) == merge_flags((false, false), x),
        ({
            let g = merge_flags(merge_flags((false, false), ExitReason::Error), ExitReason::Signal);
            exit_code_of(g.0, g.1) == 3
        }),
{
}

/// The name the control channel reaches a generator by: its configured
/// name, else its discriminator in decimal.
pub open spec fn display_name(v: SetupView, g: GenId) -> Seq<char> {
    match first_entry(v.names, g) {
        Some(n) => n,
        None => decimal(g.id as nat),
    }
}

/// Every generator of the configuration with the name the control channel
/// reaches it by, in the order of `SetupConfig::iter`; the second of two
/// generators with the same name is the error, a configuration fault.
pub fn control_names(setup: &SetupConfig) -> (r: Result<Vec<(GenId, String)>, GenId>)
    ensures
        ({
            let ids = dedup(all_bar_ids(setup@.bars));
            match r {
                Ok(v) => {
                    &&& v@.len() == ids.len()
                    &&& forall|i: int| #![trigger v@[i]] 0 <= i < v@.len() ==> v@[i].0 == ids[i] && v@[i].1@ == display_name(setup@, ids[i])
                    &&& forall|i: int, j: int| 0 <= i < j < v@.len() ==> #[trigger] v@[i].1@ != #[trigger] v@[j].1@
                },
                Err(g) => exists|i: int, j: int| 0 <= i < j < ids.len() && ids[j] == g
                    && #[trigger] display_name(setup@, ids[i]) == #[trigger] display_name(setup@, ids[j]),
            }
        }),
{
    let ids = setup.iter();
    let mut out: Vec<(GenId, String)> = Vec::new();
    let mut i: usize = 0;
    while i < ids.len()
        invariant
            i <= ids@.len(),
            ids@ == dedup(all_bar_ids(setup@.bars)),
            out@.len() == i,
            forall|k: int| #![trigger out@[k]] 0 <= k < i ==> out@[k].0 == ids@[k] && out@[k].1@ == display_name(setup@, ids@[k]),
            forall|a: int, b: int| 0 <= a < b < i ==> #[trigger] out@[a].1@ != #[trigger] out@[b].1@,
        decreases ids.len() - i,
    {
        let g = ids[i];
        let name = match setup.get_name(g) {
            Some(n) => n.clone(),
            None => g.to_string(),
        };
        assert(name@ == display_name(setup@, ids@[i as int]));
        let mut k: usize = 0;
        while k < i
            invariant
                k <= i,
                i < ids@.len(),
                g == ids@[i as int],
                ids@ == dedup(all_bar_ids(setup@.bars)),
                name@ == display_name(setup@, ids@[i as int]),
                forall|m: int| #![trigger out@[m]] 0 <= m < i ==> out@[m].0 == ids@[m] && out@[m].1@ == display_name(setup@, ids@[m]),
                i == out@.len(),
                forall|m: int| 0 <= m < k ==> out@[m].1@ != name@,
            decreases i - k,
        {
            if out[k].1 == name {
                assert(out@[k as int].1@ == display_name(setup@, ids@[k as int]));
                assert(display_name(setup@, ids@[k as int]) == display_name(setup@, ids@[i as int]));
                return Err(g);
            }
            k += 1;
        }
        let ghost o0 = out@;
        out.push((g, name));
        assert forall|a: int, b: int| 0 <= a < b < i + 1 implies #[trigger] out@[a].1@ != #[trigger] out@[b].1@ by {
            assert(out@[a] == o0[a]);
            if b < i {
                assert(out@[b] == o0[b]);
            }
        }
        assert forall|m: int| #![trigger out@[m]] 0 <= m < i + 1 implies out@[m].0 == ids@[m] && out@[m].1@ == display_name(setup@, ids@[m]) by {
            if m < i {
                assert(out@[m] == o0[m]);
            }
        }
        i += 1;
    }
    Ok(out)
}

/// What the top-level task has seen of the others.
pub struct Supervisor {
    pub reason: ProcessExitReason,
    /// Whether the control reader was told to stop.
    pub reader_told: bool,
}

impl Supervisor {
    pub fn new() -> (r: Self)
        ensures
            r.reason is Okay,
            !r.reader_told,
    {
        Supervisor { reason: ProcessExitReason::new(), reader_told: false }
    }

    /// A task ended with `er`. A non-fatal end is only noted; any other
    /// merges into the process's reason, and the first such tells the
    /// control reader to stop (the second result says whether to tell it now).
    pub fn task_ended(self, er: ExitReason) -> (r: (Self, bool))
        ensures
            er == ExitReason::NonFatal ==> !r.1 && r.0.reader_told == self.reader_told
                && r.0.reason.reasons() == self.reason.reasons() && (r.0.reason is Okay) == (self.reason is Okay),
            er != ExitReason::NonFatal ==> r.1 == !self.reader_told && r.0.reader_told
                && r.0.reason.flags() == merge_flags(self.reason.flags(), er),
            self.reason.wf() ==> r.0.reason.wf(),
    {
        if er == ExitReason::NonFatal {
            return (self, false);
        }
        let tell = !self.reader_told;
        (Supervisor { reason: self.reason.combine(er), reader_told: true }, tell)
    }
}

} // verus!
