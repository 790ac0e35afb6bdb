//! Date and time, or a stopwatch toggled by a left click.

use vstd::prelude::*;
use chrono::{Datelike, Timelike};
use crate::text::{decimal, str_eq, two_digits, u64_to_string, u64_to_string2};
use crate::dzen_format::{sp_add, sp_colorize, sp_everything, sp_new_section, BuilderView};
use crate::dzen_format::utils::sp_name_click;
use crate::tasks::generator::{arg_builder, GenArg};

verus! {

/// A local date and time as plain numbers; `weekday` counts from Monday = 0.
#[derive(PartialEq, Eq, Structural, Clone, Copy, Debug)]
pub struct LocalTime {
    pub year: i32,
    pub month: u32,
    pub day: u32,
    pub weekday: u32,
    pub hour: u32,
    pub minute: u32,
    pub second: u32,
}

impl LocalTime {
    pub open spec fn wf(self) -> bool {
        1 <= self.month <= 12 && 1 <= self.day <= 31 && self.weekday < 7 && self.hour < 24
            && self.minute < 60 && self.second < 60
    }
}

/// Relies on `chrono::Local::now` and its `Datelike`/`Timelike` fields:
/// months 1 to 12, days 1 to 31, weekdays 0 to 6 from Monday, hours 0 to
/// 23, minutes and seconds 0 to 59.
#[verifier::external_body]
fn local_now() -> (r: LocalTime)
    ensures
        r.wf(),
{
    let n = chrono::Local::now();
    LocalTime {
        year: n.year(),
        month: n.month(),
        day: n.day(),
        weekday: n.weekday().num_days_from_monday(),
        hour: n.hour(),
        minute: n.minute(),
        second: n.second(),
    }
}

/// The weekday's short Swedish name.
pub open spec fn day_name(w: u32) -> Seq<char> {
    if w == 0 { "Mån"@ }
    else if w == 1 { "Tis"@ }
    else if w == 2 { "Ons"@ }
    else if w == 3 { "Tor"@ }
    else if w == 4 { "Fre"@ }
    else if w == 5 { "Lör"@ }
    else { "Sön"@ }
}

/// The number with at least four digits.
pub open spec fn four_digits(n: nat) -> Seq<char> {
    if n < 10 { "000"@ + decimal(n) }
    else if n < 100 { "00"@ + decimal(n) }
    else if n < 1000 { "0"@ + decimal(n) }
    else { decimal(n) }
}

/// The year as "%Y" writes it: four digits from 0 to 9999, else signed.
pub open spec fn year_text(y: i32) -> Seq<char> {
    if 0 <= y <= 9999 {
        four_digits(y as nat)
    } else if y > 9999 {
        "+"@ + decimal(y as nat)
    } else {
        "-"@ + four_digits((-(y as int)) as nat)
    }
}

/// "YYYY-MM-DD".
pub open spec fn date_text(t: LocalTime) -> Seq<char> {
    year_text(t.year) + "-"@ + two_digits(t.month as nat) + "-"@ + two_digits(t.day as nat)
}

/// "<day> <date> " then the stopwatch "MM:SS" in green, or the time
/// "HH:MM"; a left click reports to the generator.
pub open spec fn time_view(base: BuilderView, name: Seq<char>, t: LocalTime, stopwatch: Option<nat>) -> BuilderView {
    let b = sp_add(sp_add(sp_add(sp_add(base, day_name(t.weekday)), " "@), date_text(t)), " "@);
    let b2 = match stopwatch {
        Some(d) => sp_everything(
            sp_colorize(sp_add(sp_new_section(b), two_digits(d / 60) + ":"@ + two_digits(d % 60)), "green"@),
        ),
        None => sp_add(b, two_digits(t.hour as nat) + ":"@ + two_digits(t.minute as nat)),
    };
    sp_name_click(b2, 1, name)
}

fn day_string(w: u32) -> (r: String)
    ensures
        r@ == day_name(w),
{
    let s = if w == 0 { "Mån" }
    else if w == 1 { "Tis" }
    else if w == 2 { "Ons" }
    else if w == 3 { "Tor" }
    else if w == 4 { "Fre" }
    else if w == 5 { "Lör" }
    else { "Sön" };
    String::from_str(s)
}

fn four_digit_string(n: u64) -> (r: String)
    ensures
        r@ == four_digits(n as nat),
{
    let mut s = if n < 10 {
        String::from_str("000")
    } else if n < 100 {
        String::from_str("00")
    } else if n < 1000 {
        String::from_str("0")
    } else {
        String::new()
    };
    proof {
        reveal_strlit("");
    }
    let d = u64_to_string(n);
    s.append(d.as_str());
    s
}

fn year_string(y: i32) -> (r: String)
    ensures
        r@ == year_text(y),
{
    if 0 <= y && y <= 9999 {
        four_digit_string(y as u64)
    } else if y > 9999 {
        let mut s = String::from_str("+");
        let d = u64_to_string(y as u64);
        s.append(d.as_str());
        s
    } else {
        let mut s = String::from_str("-");
        let m: u64 = (-(y as i64)) as u64;
        let d = four_digit_string(m);
        s.append(d.as_str());
        s
    }
}

fn clock_string(a: u64, b: u64) -> (r: String)
    ensures
        r@ == two_digits(a as nat) + ":"@ + two_digits(b as nat),
{
    let mut s = u64_to_string2(a);
    s.append(":");
    let t = u64_to_string2(b);
    s.append(t.as_str());
    s
}

/// A date and time generator with an optional stopwatch.
pub struct TimeGen {
    pub now: LocalTime,
    /// When the stopwatch started and the latest reading, in seconds of a
    /// monotonic clock.
    pub timer: Option<(u64, u64)>,
}

/// The stopwatch's elapsed seconds.
pub open spec fn elapsed(timer: Option<(u64, u64)>) -> Option<nat> {
    match timer {
        Some((s, n)) => Some(if s <= n { (n - s) as nat } else { 0 }),
        None => None,
    }
}

impl TimeGen {
    pub fn new() -> (r: Self)
        ensures
            r.now.wf(),
            r.timer is None,
    {
        TimeGen { now: local_now(), timer: None }
    }

    /// Reads the clock; `mono` is the monotonic clock in seconds.
    pub fn update(&mut self, mono: u64)
        ensures
            final(self).now.wf(),
            final(self).timer == (match old(self).timer {
                Some((s, _)) => Some((s, mono)),
                None => None,
            }),
    {
        self.now = local_now();
        self.timer = match self.timer {
            Some((s, _)) => Some((s, mono)),
            None => None,
        };
    }

    /// The date and time text.
    pub fn display(&self, name: &str, arg: &GenArg) -> (r: String)
        ensures
            r@ == time_view(arg_builder(arg@), name@, self.now, elapsed(self.timer)).rendered(),
    {
        let t = self.now;
        let mut s = arg.get_builder().add(day_string(t.weekday).as_str()).add(" ");
        let mut date = year_string(t.year);
        date.append("-");
        date.append(u64_to_string2(t.month as u64).as_str());
        date.append("-");
        date.append(u64_to_string2(t.day as u64).as_str());
        s = s.add(date.as_str()).add(" ");
        s = match self.timer {
            Some((st, nw)) => {
                let d: u64 = if st <= nw { nw - st } else { 0 };
                s.new_section().add(clock_string(d / 60, d % 60).as_str()).colorize("green").everything()
            },
            None => s.add(clock_string(t.hour as u64, t.minute as u64).as_str()),
        };
        s.name_click(1, name).to_string()
    }

    /// "click 1" starts or stops the stopwatch and "update" only asks for a
    /// refresh; both ask for one. `mono` is the monotonic clock in seconds.
    pub fn on_msg(&mut self, msg: &str, mono: u64) -> (r: bool)
        ensures
            msg@ == "click 1"@ ==> r && final(self).now == old(self).now && final(self).timer == (match old(self).timer {
                Some(_) => None,
                None => Some((mono, mono)),
            }),
            msg@ != "click 1"@ ==> *final(self) == *old(self) && r == (msg@ == "update"@),
    {
        if str_eq(msg, "click 1") {
            self.timer = match self.timer {
                Some(_) => None,
                None => Some((mono, mono)),
            };
            true
        } else {
            str_eq(msg, "update")
        }
    }

    /// The argument's timeout if it has one; else one second while the
    /// stopwatch runs, and otherwise until just after the next full minute.
    pub fn get_delay(&self, arg: &GenArg) -> (r: u64)
        requires
            self.now.wf(),
        ensures
            r as int == (match arg@.timeout {
                Some(t) => t as int,
                None => if self.timer is Some { 1 } else { 60 - self.now.second + 1 },
            }),
    {
        if let Some(t) = arg.timeout {
            t
        } else if self.timer.is_some() {
            1
        } else {
            (60 - self.now.second as u64) + 1
        }
    }
}

} // verus!
