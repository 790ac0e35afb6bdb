//! Battery: the charge in percent, green while charging or full, else
//! colored by how low it is.

use vstd::prelude::*;
use crate::text::{decimal, parse_u8, parse_u8_spec, str_eq, trim_end, trim_end_of, u64_to_string};
use crate::dzen_format::{sp_add, sp_colorize, BuilderView};
use crate::dzen_format::utils::sp_color_step;
use crate::tasks::generator::{arg_builder, delay_of, GenArg};

verus! {

/// The battery's state as last read.
pub struct BatGen {
    pub capacity: u8,
    pub charging: bool,
}

/// Thresholds: red from empty, yellow from 16%, the foreground color from 30%.
pub open spec fn bat_levels() -> Seq<(i32, Seq<char>)> {
    seq![(0i32, "red"@), (16i32, "yellow"@), (30i32, "fg"@)]
}

pub open spec fn bat_view(base: BuilderView, capacity: u8, charging: bool) -> BuilderView {
    let b = sp_add(sp_add(base, decimal(capacity as nat)), "%"@);
    if charging {
        sp_colorize(b, "green"@)
    } else {
        sp_color_step(b, capacity as i32, bat_levels())
    }
}

impl BatGen {
    pub fn new() -> (r: Self)
        ensures
            r.capacity == 0 && !r.charging,
    {
        BatGen { capacity: 0, charging: false }
    }

    /// Takes in the contents of the capacity and status files: a capacity
    /// that does not read as a number becomes 255; "Charging" and "Full"
    /// count as charging.
    pub fn read(&mut self, capacity: &str, status: &str)
        ensures
            final(self).capacity == (match parse_u8_spec(trim_end_of(capacity@)) {
                Some(c) => c,
                None => 255u8,
            }),
            final(self).charging == (trim_end_of(status@) == "Charging"@ || trim_end_of(status@) == "Full"@),
    {
        self.capacity = match parse_u8(trim_end(capacity)) {
            Some(c) => c,
            None => 255,
        };
        let st = trim_end(status);
        self.charging = str_eq(st, "Charging") || str_eq(st, "Full");
    }

    /// The battery text.
    pub fn display(&self, arg: &GenArg) -> (r: String)
        ensures
            r@ == bat_view(arg_builder(arg@), self.capacity, self.charging).rendered(),
    {
        let levels = vec![(0i32, "red"), (16i32, "yellow"), (30i32, "fg")];
        proof {
            assert(crate::dzen_format::utils::steps_view(levels@) =~= bat_levels());
        }
        let s = arg.get_builder().add(u64_to_string(self.capacity as u64).as_str()).add("%");
        let s = if self.charging {
            s.colorize("green")
        } else {
            s.color_step(self.capacity as i32, levels.as_slice())
        };
        s.to_string()
    }

    /// Five seconds unless the argument says otherwise.
    pub fn get_delay(&self, arg: &GenArg) -> (r: u64)
        ensures
            r == delay_of(arg@, 5),
    {
        arg.delay_or(5)
    }
}

} // verus!
