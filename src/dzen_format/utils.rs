//! Markup helpers built on the builder: click-to-control-channel regions,
//! threshold colors, truncation, and byte counts in binary units.

use vstd::prelude::*;
use crate::text::{copy_string, decimal, u64_to_string};
use crate::dzen_format::{BuilderView, DzenBuilder};
use crate::dzen_format::config::resolve;
use crate::dzen_format::nesting::{lemma_decimal_no_caret, lemma_nested_after, lemma_plain_concat, lemma_truncated_neutral, plain};

verus! {

/// The control channel's well-known path.
pub const FIFO_PATH: &'static str = "/tmp/statusbar_fifo";

/// The shell command that sends "<module> click <button>" to the control channel.
pub open spec fn click_command(module: Seq<char>, button: nat) -> Seq<char> {
    "echo "@ + module + " click "@ + decimal(button) + " >> "@ + FIFO_PATH@
}

/// The color of the last threshold reached by `num`, scanning thresholds in
/// order and stopping at the first one above it.
pub open spec fn step_color(steps: Seq<(i32, Seq<char>)>, num: i32) -> Option<Seq<char>>
    decreases steps.len(),
{
    if steps.len() == 0 || num < steps[0].0 {
        None
    } else {
        match step_color(steps.drop_first(), num) {
            Some(c) => Some(c),
            None => Some(steps[0].1),
        }
    }
}

/// A threshold table as plain values.
pub open spec fn steps_view(steps: Seq<(i32, &str)>) -> Seq<(i32, Seq<char>)> {
    steps.map_values(|p: (i32, &str)| (p.0, p.1@))
}

/// `s` cut to at most `max_len` characters, the last of them an ellipsis.
pub open spec fn truncated(max_len: nat, s: Seq<char>) -> Seq<Seq<char>> {
    if s.len() > max_len {
        seq![s.take(max_len - 1), "…"@]
    } else {
        seq![s]
    }
}

pub open spec fn pow1024(k: nat) -> nat
    decreases k,
{
    if k == 0 {
        1
    } else {
        1024 * pow1024((k - 1) as nat)
    }
}

/// The largest k with 1024^k <= b (0 for b < 1024).
pub open spec fn magnitude(b: nat) -> nat
    decreases b,
{
    if b < 1024 {
        0
    } else {
        1 + magnitude(b / 1024)
    }
}

pub open spec fn unit_name(k: nat) -> Seq<char> {
    if k == 0 { "B"@ }
    else if k == 1 { "KiB"@ }
    else if k == 2 { "MiB"@ }
    else if k == 3 { "GiB"@ }
    else if k == 4 { "TiB"@ }
    else if k == 5 { "PiB"@ }
    else if k == 6 { "EiB"@ }
    else if k == 7 { "ZiB"@ }
    else { "YiB"@ }
}

/// A byte count in the largest binary unit it reaches, with one decimal
/// digit truncated and omitted when zero: "1.5 KiB", "3 B".
pub open spec fn ibibyte_text(b: nat) -> Seq<char> {
    let p = pow1024(magnitude(b));
    let n = b / p;
    let d = (b % p) * 10 / p;
    decimal(n) + (if d > 0 { "."@ + decimal(d) } else { Seq::empty() }) + " "@ + unit_name(magnitude(b))
}

/// `v` colored by the last threshold that `num` reaches.
pub open spec fn sp_color_step(v: BuilderView, num: i32, steps: Seq<(i32, Seq<char>)>) -> BuilderView {
    match step_color(steps, num) {
        Some(c) => crate::dzen_format::sp_colorize(v, c),
        None => v,
    }
}

/// `v` made a click region that reports button `button` to `module`.
pub open spec fn sp_name_click(v: BuilderView, button: nat, module: Seq<char>) -> BuilderView {
    v.with_work(seq!["^ca("@, decimal(button), ", "@, click_command(module, button), ")"@] + v.work + seq!["^ca()"@])
}

impl DzenBuilder {
    /// A click region that reports "click <button>" to the generator `module_name`.
    pub fn name_click(self, button: usize, module_name: &str) -> (r: Self)
        ensures
            self@.nested() && plain(module_name@) ==> r@.nested(),
            r@ == self@.with_work(
                seq!["^ca("@, decimal(button as nat), ", "@, click_command(module_name@, button as nat), ")"@]
                    + self@.work + seq!["^ca()"@],
            ),
    {
        proof {
            if self@.nested() && plain(module_name@) { lemma_click_command_plain(module_name@, button as nat); }
        }
        let mut c = String::from_str("echo ");
        c.append(module_name);
        c.append(" click ");
        let b = u64_to_string(button as u64);
        c.append(b.as_str());
        c.append(" >> ");
        c.append(FIFO_PATH);
        self.click(button, c.as_str())
    }

    /// Colors the current section by the last threshold that `num` reaches.
    pub fn color_step(self, num: i32, steps: &[(i32, &str)]) -> (r: Self)
        ensures
            self@.nested() && (match step_color(steps_view(steps@), num) { Some(c) => plain(resolve(self@.theme_used().color, c)), None => true }) ==> r@.nested(),
            match step_color(steps_view(steps@), num) {
                Some(c) => r@ == self@.with_work(
                    crate::dzen_format::scoped("fg"@, resolve(self@.theme_used().color, c), self@.work),
                ),
                None => r@ == self@,
            },
    {
        let mut color: Option<&str> = None;
        let mut i: usize = 0;
        assert(steps_view(steps@).skip(0) =~= steps_view(steps@));
        while i < steps.len() && num >= steps[i].0
            invariant
                i <= steps@.len(),
                forall|k: int| 0 <= k < i ==> num >= #[trigger] steps@[k].0,
                i == 0 ==> color is None,
                i > 0 ==> color == Some(steps@[i - 1].1),
                step_color(steps_view(steps@), num) == (match step_color(steps_view(steps@).skip(i as int), num) {
                    Some(c) => Some(c),
                    None => match color {
                        Some(c) => Some(c@),
                        None => None,
                    },
                }),
            decreases steps.len() - i,
        {
            proof {
                let t = steps_view(steps@).skip(i as int);
                assert(t.drop_first() =~= steps_view(steps@).skip(i + 1));
                assert(t[0] == (steps@[i as int].0, steps@[i as int].1@));
            }
            color = Some(steps[i].1);
            i += 1;
        }
        proof {
            let t = steps_view(steps@).skip(i as int);
            if t.len() > 0 {
                assert(t[0] == (steps@[i as int].0, steps@[i as int].1@));
            }
            assert(t.len() == 0 || num < t[0].0);
        }
        match color {
            Some(col) => self.colorize(col),
            None => self,
        }
    }

    /// Appends `s`, cut to `max_len` characters with an ellipsis when longer.
    pub fn add_trunc(self, max_len: usize, s: String) -> (r: Self)
        requires
            max_len > 0 || s@.len() == 0,
        ensures
            self@.nested() && plain(s@) ==> r@.nested(),
            r@ == self@.with_work(self@.work + truncated(max_len as nat, s@)),
    {
        proof {
            if self@.nested() && plain(s@) { lemma_truncated_neutral(max_len as nat, s@); lemma_nested_after(self@, truncated(max_len as nat, s@)); }
        }
        let n = s.as_str().unicode_len();
        if n > max_len {
            let t = copy_string(s.as_str().substring_char(0, max_len - 1));
            let r = self.add(t.as_str()).add("…");
            assert(s@.subrange(0, max_len - 1) =~= s@.take(max_len - 1));
            assert(r@.work =~= self@.work + truncated(max_len as nat, s@));
            r
        } else {
            let r = self.add(s.as_str());
            assert(r@.work =~= self@.work + truncated(max_len as nat, s@));
            r
        }
    }
}

fn unit_string(k: u64) -> (r: String)
    ensures
        r@ == unit_name(k as nat),
{
    let u = if k == 0 { "B" }
    else if k == 1 { "KiB" }
    else if k == 2 { "MiB" }
    else if k == 3 { "GiB" }
    else if k == 4 { "TiB" }
    else if k == 5 { "PiB" }
    else if k == 6 { "EiB" }
    else if k == 7 { "ZiB" }
    else { "YiB" };
    String::from_str(u)
}

/// A byte count in binary units with one truncated decimal digit.
pub fn bytes_to_ibibyte_string(b: u64) -> (r: String)
    ensures
        r@ == ibibyte_text(b as nat),
{
    let mut q: u64 = b;
    let mut p: u64 = 1;
    let mut mag: u64 = 0;
    while q >= 1024
        invariant
            p >= 1,
            q == b as nat / p as nat,
            p == pow1024(mag as nat),
            magnitude(b as nat) == mag + magnitude(q as nat),
            mag < p,
        decreases q,
    {
        proof {
            vstd::arithmetic::div_mod::lemma_div_denominator(b as int, p as int, 1024);
            assert(p * 1024 <= b) by (nonlinear_arith)
                requires q == b as nat / p as nat, q >= 1024, p >= 1;
        }
        q = q / 1024;
        p = p * 1024;
        mag = mag + 1;
    }
    let d128: u128 = ((b % p) as u128) * 10 / (p as u128);
    assert(d128 < 10) by (nonlinear_arith)
        requires d128 == ((b % p) as int) * 10 / (p as int), p >= 1, b % p < p;
    let d: u64 = d128 as u64;
    let mut s = u64_to_string(q);
    if d > 0 {
        s.append(".");
        let ds = u64_to_string(d);
        s.append(ds.as_str());
    }
    s.append(" ");
    let u = unit_string(mag);
    s.append(u.as_str());
    s
}

/// A click command for a module name with no `^` holds no `^`.
pub proof fn lemma_click_command_plain(module: Seq<char>, button: nat)
    requires
        plain(module),
    ensures
        plain(click_command(module, button)),
{
    reveal_strlit("echo ");
    reveal_strlit(" click ");
    reveal_strlit(" >> ");
    reveal_strlit("/tmp/statusbar_fifo");
    lemma_decimal_no_caret(button);
    lemma_plain_concat("echo "@, module);
    lemma_plain_concat("echo "@ + module, " click "@);
    lemma_plain_concat("echo "@ + module + " click "@, decimal(button));
    lemma_plain_concat("echo "@ + module + " click "@ + decimal(button), " >> "@);
    lemma_plain_concat("echo "@ + module + " click "@ + decimal(button) + " >> "@, FIFO_PATH@);
}

} // verus!
