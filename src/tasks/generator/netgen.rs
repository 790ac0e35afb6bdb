//! Network throughput of one interface at a time: rates per second, or
//! totals; clicks switch between rates and totals, and between interfaces.

use vstd::prelude::*;
use crate::text::{split_char, split_on, str_eq};
use crate::dzen_format::{sp_add, BuilderView};
use crate::dzen_format::utils::{bytes_to_ibibyte_string, ibibyte_text, sp_name_click};
use crate::tasks::ExitReason;
use crate::tasks::generator::{arg_builder, delay_of, GenArg};

verus! {

/// Bytes per second over a period of `t` seconds (the count itself when `t` is 0).
pub open spec fn rate(x: nat, t: nat) -> nat {
    if t == 0 { x } else { x / t }
}

/// "<up>[/s] / <down>[/s]" in binary units, "/s" only for rates; left and
/// right clicks report to the generator.
pub open spec fn net_view(base: BuilderView, name: Seq<char>, total: bool, up: nat, down: nat) -> BuilderView {
    let b1 = sp_add(base, ibibyte_text(up));
    let b2 = if !total { sp_add(b1, "/s"@) } else { b1 };
    let b3 = sp_add(sp_add(b2, " / "@), ibibyte_text(down));
    let b4 = if !total { sp_add(b3, "/s"@) } else { b3 };
    sp_name_click(sp_name_click(b4, 1, name), 3, name)
}

/// A throughput generator.
pub struct NetGen {
    interfaces: Vec<String>,
    cur_if: usize,
    total: bool,
    timeout: u64,
}

pub struct NetGenView {
    pub interfaces: Seq<Seq<char>>,
    pub cur_if: usize,
    pub total: bool,
    pub timeout: u64,
}

impl View for NetGen {
    type V = NetGenView;

    closed spec fn view(&self) -> NetGenView {
        NetGenView {
            interfaces: self.interfaces@.map_values(|s: String| s@),
            cur_if: self.cur_if,
            total: self.total,
            timeout: self.timeout,
        }
    }
}

impl NetGenView {
    /// Some interface is chosen.
    pub open spec fn wf(self) -> bool {
        self.cur_if < self.interfaces.len()
    }
}

/// Whether `names` holds `n`.
pub open spec fn holds(names: Seq<String>, n: Seq<char>) -> bool {
    exists|i: int| 0 <= i < names.len() && names[i]@ == n
}

fn contains_name(names: &Vec<String>, n: &str) -> (r: bool)
    ensures
        r == holds(names@, n@),
{
    let mut i: usize = 0;
    while i < names.len()
        invariant
            i <= names@.len(),
            forall|k: int| 0 <= k < i ==> names@[k]@ != n@,
        decreases names.len() - i,
    {
        if str_eq(names[i].as_str(), n) {
            return true;
        }
        i += 1;
    }
    false
}

impl NetGen {
    pub fn new() -> (r: Self)
        ensures
            r@.interfaces.len() == 0 && r@.cur_if == 0 && !r@.total && r@.timeout == 0,
    {
        let r = NetGen { interfaces: Vec::new(), cur_if: 0, total: false, timeout: 0 };
        assert(r@.interfaces =~= Seq::<Seq<char>>::empty());
        r
    }

    /// Takes the space-separated interfaces of the argument; each must be
    /// among `available`, and there must be one.
    pub fn init(&mut self, arg: &GenArg, available: &Vec<String>) -> (r: Result<(), ExitReason>)
        ensures
            match arg@.arg {
                Some(a) => {
                    let want = split_on(a, ' ');
                    if forall|i: int| 0 <= i < want.len() ==> holds(available@, #[trigger] want[i]) {
                        &&& r is Ok
                        &&& final(self)@ == (NetGenView { interfaces: want, cur_if: 0, total: old(self)@.total, timeout: delay_of(arg@, 2) })
                        &&& final(self)@.wf()
                    } else {
                        r == Err::<(), ExitReason>(ExitReason::Error)
                    }
                },
                None => r == Err::<(), ExitReason>(ExitReason::Error),
            },
    {
        let a = match &arg.arg {
            Some(a) => a,
            None => {
                return Err(ExitReason::Error);
            },
        };
        let want = split_char(a.as_str(), ' ');
        let ghost wv = want@.map_values(|s: String| s@);
        let mut i: usize = 0;
        assert(arg@.arg == Some(a@));
        while i < want.len()
            invariant
                arg@.arg == Some(a@),
                wv == split_on(a@, ' '),
                i <= want@.len(),
                wv == want@.map_values(|s: String| s@),
                forall|k: int| 0 <= k < i ==> holds(available@, #[trigger] wv[k]),
            decreases want.len() - i,
        {
            if !contains_name(available, want[i].as_str()) {
                assert(wv[i as int] == want@[i as int]@);
                assert(!holds(available@, wv[i as int]));
                assert(arg@.arg == Some(a@));
                return Err(ExitReason::Error);
            }
            i += 1;
        }
        proof {
            crate::text::lemma_split_on_len(a@, ' ');
        }
        self.interfaces = want;
        self.cur_if = 0;
        self.timeout = arg.delay_or(2);
        Ok(())
    }

    /// The interface shown.
    pub fn current_interface(&self) -> (r: &str)
        requires
            self@.wf(),
        ensures
            r@ == self@.interfaces[self@.cur_if as int],
    {
        self.interfaces[self.cur_if].as_str()
    }

    /// The text for bytes sent and received in the last period (`tx`,
    /// `rx`) and since boot (`total_tx`, `total_rx`).
    pub fn display(&self, name: &str, arg: &GenArg, tx: u64, rx: u64, total_tx: u64, total_rx: u64) -> (r: String)
        ensures
            r@ == net_view(
                arg_builder(arg@),
                name@,
                self@.total,
                if self@.total { total_tx as nat } else { rate(tx as nat, self@.timeout as nat) },
                if self@.total { total_rx as nat } else { rate(rx as nat, self@.timeout as nat) },
            ).rendered(),
    {
        let (up, down) = if self.total {
            (total_tx, total_rx)
        } else if self.timeout == 0 {
            (tx, rx)
        } else {
            (tx / self.timeout, rx / self.timeout)
        };
        arg.get_builder().add(bytes_to_ibibyte_string(up).as_str()).maybe_add(!self.total, "/s").add(" / ").add(
            bytes_to_ibibyte_string(down).as_str(),
        ).maybe_add(!self.total, "/s").name_click(1, name).name_click(3, name).to_string()
    }

    /// "click 3" shows the next interface, "click 1" switches between rates
    /// and totals; no refresh is asked for.
    pub fn on_msg(&mut self, msg: &str) -> (r: bool)
        requires
            old(self)@.wf(),
        ensures
            !r,
            final(self)@.wf(),
            final(self)@ == (if msg@ == "click 3"@ {
                NetGenView { cur_if: ((old(self)@.cur_if + 1) % old(self)@.interfaces.len() as int) as usize, ..old(self)@ }
            } else if msg@ == "click 1"@ {
                NetGenView { total: !old(self)@.total, ..old(self)@ }
            } else {
                old(self)@
            }),
    {
        let n = self.interfaces.len();
        assert(n == self@.interfaces.len());
        if str_eq(msg, "click 3") {
            self.cur_if = (self.cur_if + 1) % n;
        } else if str_eq(msg, "click 1") {
            self.total = !self.total;
        }
        false
    }

    /// Two seconds unless the argument says otherwise.
    pub fn get_delay(&self, arg: &GenArg) -> (r: u64)
        ensures
            r == delay_of(arg@, 2),
    {
        arg.delay_or(2)
    }
}

} // verus!
