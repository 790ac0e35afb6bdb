//! Processor load: the overall load, or one figure per core, colored by level.

use vstd::prelude::*;
use crate::text::{clamp_i32, decimal, str_eq, two_digits, u64_to_string, u64_to_string2};
use crate::dzen_format::{sp_add, sp_add_not_empty, BuilderView};
use crate::dzen_format::utils::{sp_color_step, sp_name_click};
use crate::tasks::generator::{arg_builder, delay_of, GenArg};

verus! {

/// Thresholds at which load turns yellow, then red.
pub open spec fn cpu_levels() -> Seq<(i32, Seq<char>)> {
    seq![(50i32, "yellow"@), (75i32, "red"@)]
}

/// One figure per core, two digits at least, separated by "/", each
/// colored by its level.
pub open spec fn cpu_detail(base: BuilderView, us: Seq<u32>) -> BuilderView
    decreases us.len(),
{
    if us.len() == 0 {
        base
    } else {
        let b = cpu_detail(base, us.drop_last());
        let u = us.last();
        sp_color_step(sp_add(sp_add_not_empty(b, "/"@), two_digits(u as nat)), clamp_i32(u as nat), cpu_levels())
    }
}

/// The load text: per core when detailed, else "<load>%"; a left click
/// reports to the generator.
pub open spec fn cpu_view(base: BuilderView, name: Seq<char>, detailed: bool, usages: Seq<u32>, global: u32) -> BuilderView {
    if detailed {
        sp_name_click(cpu_detail(base, usages), 1, name)
    } else {
        sp_name_click(
            sp_color_step(sp_add(sp_add(base, decimal(global as nat)), "%"@), clamp_i32(global as nat), cpu_levels()),
            1,
            name,
        )
    }
}

fn to_i32(u: u32) -> (r: i32)
    ensures
        r == clamp_i32(u as nat),
{
    if u > i32::MAX as u32 { i32::MAX } else { u as i32 }
}

/// A processor load generator.
pub struct CpuGen {
    pub detailed: bool,
}

impl CpuGen {
    pub fn new() -> (r: Self)
        ensures
            !r.detailed,
    {
        CpuGen { detailed: false }
    }

    /// Detailed when the argument is "detailed".
    pub fn init(&mut self, arg: &GenArg)
        ensures
            final(self).detailed == (old(self).detailed || arg@.arg == Some("detailed"@)),
    {
        match &arg.arg {
            Some(a) => {
                if str_eq(a.as_str(), "detailed") {
                    self.detailed = true;
                }
            },
            None => {},
        }
    }

    /// The text for the per-core loads `usages` and the overall load
    /// `global`, in rounded percent.
    pub fn display(&self, name: &str, arg: &GenArg, usages: &Vec<u32>, global: u32) -> (r: String)
        ensures
            r@ == cpu_view(arg_builder(arg@), name@, self.detailed, usages@, global).rendered(),
    {
        let levels = vec![(50i32, "yellow"), (75i32, "red")];
        proof {
            assert(crate::dzen_format::utils::steps_view(levels@) =~= cpu_levels());
        }
        if self.detailed {
            let mut bu = arg.get_builder();
            let mut i: usize = 0;
            while i < usages.len()
                invariant
                    i <= usages@.len(),
                    crate::dzen_format::utils::steps_view(levels@) == cpu_levels(),
                    bu@ == cpu_detail(arg_builder(arg@), usages@.take(i as int)),
                decreases usages.len() - i,
            {
                let u = usages[i];
                bu = bu.add_not_empty("/").add(u64_to_string2(u as u64).as_str()).color_step(to_i32(u), levels.as_slice());
                assert(usages@.take(i + 1).drop_last() =~= usages@.take(i as int));
                i += 1;
            }
            assert(usages@.take(i as int) =~= usages@);
            bu.name_click(1, name).to_string()
        } else {
            arg.get_builder().add(u64_to_string(global as u64).as_str()).add("%").color_step(
                to_i32(global),
                levels.as_slice(),
            ).name_click(1, name).to_string()
        }
    }

    /// Any control message switches between overall and per-core figures;
    /// no refresh is asked for.
    pub fn on_msg(&mut self, _msg: &str) -> (r: bool)
        ensures
            final(self).detailed == !old(self).detailed,
            !r,
    {
        self.detailed = !self.detailed;
        false
    }

    /// Two seconds unless the argument says otherwise.
    pub fn get_delay(&self, arg: &GenArg) -> (r: u64)
        ensures
            r == delay_of(arg@, 2),
    {
        arg.delay_or(2)
    }
}

} // verus!
