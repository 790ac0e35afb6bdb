//! Temperature of one sensor, in whole degrees, colored by level.

use vstd::prelude::*;
use crate::text::{copy_string, i64_to_string, signed_decimal, str_eq};
use crate::dzen_format::{sp_add, BuilderView};
use crate::dzen_format::utils::sp_color_step;
use crate::tasks::ExitReason;
use crate::tasks::generator::{arg_builder, delay_of, GenArg};
use crate::tasks::generator::netgen::holds;

verus! {

/// Thresholds at which the temperature turns yellow, then red.
pub open spec fn temp_levels() -> Seq<(i32, Seq<char>)> {
    seq![(50i32, "yellow"@), (70i32, "red"@)]
}

pub open spec fn temp_view(base: BuilderView, temp: i32) -> BuilderView {
    sp_color_step(sp_add(sp_add(base, signed_decimal(temp as int)), "°C"@), temp, temp_levels())
}

/// A temperature generator: the label of its sensor.
pub struct TempGen {
    pub name: String,
}

impl TempGen {
    pub fn new() -> (r: Self)
        ensures
            r.name@.len() == 0,
    {
        TempGen { name: String::new() }
    }

    /// Takes the sensor label from the argument; one that is not among
    /// `labels` is a non-fatal error.
    pub fn init(&mut self, arg: &GenArg, labels: &Vec<String>) -> (r: Result<(), ExitReason>)
        ensures
            match arg@.arg {
                Some(a) => if holds(labels@, a) {
                    r is Ok && final(self).name@ == a
                } else {
                    r == Err::<(), ExitReason>(ExitReason::NonFatal)
                },
                None => r is Ok && final(self).name@ == old(self).name@,
            },
    {
        match &arg.arg {
            Some(a) => {
                let mut i: usize = 0;
                assert(arg@.arg == Some(a@));
                while i < labels.len()
                    invariant
                        arg@.arg == Some(a@),
                        i <= labels@.len(),
                        forall|k: int| 0 <= k < i ==> labels@[k]@ != a@,
                    decreases labels.len() - i,
                {
                    if str_eq(labels[i].as_str(), a.as_str()) {
                        assert(labels@[i as int]@ == a@);
                        assert(holds(labels@, a@));
                        assert(arg@.arg == Some(a@));
                        self.name = copy_string(a.as_str());
                        return Ok(());
                    }
                    i += 1;
                }
                Err(ExitReason::NonFatal)
            },
            None => Ok(()),
        }
    }

    /// The text for a temperature in whole degrees Celsius.
    pub fn display(&self, arg: &GenArg, temp: i32) -> (r: String)
        ensures
            r@ == temp_view(arg_builder(arg@), temp).rendered(),
    {
        let levels = vec![(50i32, "yellow"), (70i32, "red")];
        proof {
            assert(crate::dzen_format::utils::steps_view(levels@) =~= temp_levels());
        }
        arg.get_builder().add(i64_to_string(temp as i64).as_str()).add("°C").color_step(temp, levels.as_slice()).to_string()
    }

    /// Two seconds unless the argument says otherwise.
    pub fn get_delay(&self, arg: &GenArg) -> (r: u64)
        ensures
            r == delay_of(arg@, 2),
    {
        arg.delay_or(2)
    }
}

} // verus!
