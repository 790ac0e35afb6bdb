//! Memory use: the share of RAM in use, and of swap when any is in use.

use vstd::prelude::*;
use crate::text::{clamp_i32, percent, percent_i32, signed_decimal, i64_to_string};
use crate::dzen_format::{sp_add, sp_new_section, BuilderView};
use crate::dzen_format::utils::{sp_color_step};
use crate::tasks::generator::{arg_builder, delay_of, GenArg};

verus! {

#[verifier::external_type_specification]
#[verifier::external_body]
pub struct ExSystem(sysinfo::System);

/// Relies on `sysinfo::System::new`: an instance with nothing loaded yet.
pub assume_specification[ sysinfo::System::new ]() -> sysinfo::System;

/// Relies on `sysinfo::System::refresh_memory`: reloads the memory figures.
pub assume_specification[ sysinfo::System::refresh_memory ](s: &mut sysinfo::System);

/// Relies on `sysinfo::System::used_memory`: the RAM in use, in bytes.
pub assume_specification[ sysinfo::System::used_memory ](s: &sysinfo::System) -> u64;

/// Relies on `sysinfo::System::total_memory`: the RAM, in bytes.
pub assume_specification[ sysinfo::System::total_memory ](s: &sysinfo::System) -> u64;

/// Relies on `sysinfo::System::used_swap`: the swap in use, in bytes.
pub assume_specification[ sysinfo::System::used_swap ](s: &sysinfo::System) -> u64;

/// Relies on `sysinfo::System::total_swap`: the swap, in bytes.
pub assume_specification[ sysinfo::System::total_swap ](s: &sysinfo::System) -> u64;

/// Thresholds at which memory use turns yellow, then red.
pub open spec fn ram_levels() -> Seq<(i32, Seq<char>)> {
    seq![(60i32, "yellow"@), (80i32, "red"@)]
}

/// The text for memory `used` of `total` and swap `swap_used` of
/// `swap_total`: "<p>%" colored by level, then " (<q>)" with the swap
/// percentage colored on its own when swap is in use.
pub open spec fn ram_view(base: BuilderView, used: nat, total: nat, swap_used: nat, swap_total: nat) -> BuilderView {
    let u = clamp_i32(percent(used, total));
    let b1 = sp_color_step(sp_add(sp_add(base, signed_decimal(u as int)), "%"@), u, ram_levels());
    if swap_used > 0 {
        let p = clamp_i32(percent(swap_used, swap_total));
        sp_add(sp_color_step(sp_add(sp_new_section(sp_add(b1, " ("@)), signed_decimal(p as int)), p, ram_levels()), ")"@)
    } else {
        b1
    }
}

/// The memory text from the figures.
pub fn ram_text(arg: &GenArg, used: u64, total: u64, swap_used: u64, swap_total: u64) -> (r: String)
    ensures
        r@ == ram_view(arg_builder(arg@), used as nat, total as nat, swap_used as nat, swap_total as nat).rendered(),
{
    let levels = vec![(60i32, "yellow"), (80i32, "red")];
    proof {
        assert(crate::dzen_format::utils::steps_view(levels@) =~= ram_levels());
    }
    let u = percent_i32(used, total);
    let mut bu = arg.get_builder().add(i64_to_string(u as i64).as_str()).add("%").color_step(u, levels.as_slice());
    if swap_used > 0 {
        let p = percent_i32(swap_used, swap_total);
        bu = bu.add(" (").new_section().add(i64_to_string(p as i64).as_str()).color_step(p, levels.as_slice()).add(")");
    }
    bu.to_string()
}

/// A memory generator.
pub struct RamGen {
    sys: sysinfo::System,
}

impl RamGen {
    pub fn new() -> (r: Self) {
        RamGen { sys: sysinfo::System::new() }
    }

    /// Reloads the memory figures.
    pub fn update(&mut self) {
        self.sys.refresh_memory();
    }

    /// The text for the figures last loaded.
    pub fn display(&self, arg: &GenArg) -> (r: String)
        ensures
            exists|u: u64, t: u64, su: u64, st: u64|
                r@ == ram_view(arg_builder(arg@), u as nat, t as nat, su as nat, st as nat).rendered(),
    {
        ram_text(arg, self.sys.used_memory(), self.sys.total_memory(), self.sys.used_swap(), self.sys.total_swap())
    }

    /// Two seconds unless the argument says otherwise.
    pub fn get_delay(&self, arg: &GenArg) -> (r: u64)
        ensures
            r == delay_of(arg@, 2),
    {
        arg.delay_or(2)
    }
}

} // verus!
