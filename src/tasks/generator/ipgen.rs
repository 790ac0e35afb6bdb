//! Network status from the network manager: the SSID or the IP address of
//! one interface, or "not connected".

use vstd::prelude::*;
use crate::text::{copy_string, str_eq};
use crate::dzen_format::{sp_add, sp_colorize, BuilderView};
use crate::dzen_format::utils::{sp_name_click, truncated};
use crate::tasks::ExitReason;
use crate::tasks::generator::{arg_builder, GenArg};

verus! {

/// Below this network manager state there is no connectivity.
pub const LIMITED_STATE: u32 = 60;

/// "not connected" in gray below the limited state; else the shown value
/// cut to 10 characters, clickable, and yellow when connectivity is limited.
pub open spec fn ip_view(base: BuilderView, name: Seq<char>, state: u32, shown: Seq<char>) -> BuilderView {
    if state < LIMITED_STATE {
        sp_colorize(sp_add(base, "not connected"@), "gray"@)
    } else {
        let b = sp_name_click(base.with_work(base.work + truncated(10, shown)), 1, name);
        if state == LIMITED_STATE { sp_colorize(b, "yellow"@) } else { b }
    }
}

/// A network status generator.
pub struct IpGen {
    /// Show the SSID of a wireless device rather than its address.
    pub show_ssid: bool,
    /// The network manager's state.
    pub state: u32,
    pub interface: String,
}

impl IpGen {
    pub fn new() -> (r: Self)
        ensures
            r.show_ssid && r.state == 0 && r.interface@.len() == 0,
    {
        IpGen { show_ssid: true, state: 0, interface: String::new() }
    }

    /// Takes the interface from the argument, which is required.
    pub fn init(&mut self, arg: &GenArg) -> (r: Result<(), ExitReason>)
        ensures
            match arg@.arg {
                Some(a) => r is Ok && final(self).interface@ == a && final(self).show_ssid == old(self).show_ssid
                    && final(self).state == old(self).state,
                None => r == Err::<(), ExitReason>(ExitReason::Error),
            },
    {
        match &arg.arg {
            Some(a) => {
                self.interface = copy_string(a.as_str());
                Ok(())
            },
            None => Err(ExitReason::Error),
        }
    }

    /// A state change signal; one without a state changes nothing.
    pub fn handle_signal(&mut self, state: Option<u32>)
        ensures
            final(self).state == (match state {
                Some(s) => s,
                None => old(self).state,
            }),
            final(self).show_ssid == old(self).show_ssid,
            final(self).interface@ == old(self).interface@,
    {
        match state {
            Some(s) => {
                self.state = s;
            },
            None => {},
        }
    }

    /// "click 1" switches between SSID and address.
    pub fn handle_msg(&mut self, msg: &str)
        ensures
            final(self).show_ssid == (if msg@ == "click 1"@ { !old(self).show_ssid } else { old(self).show_ssid }),
            final(self).state == old(self).state,
            final(self).interface@ == old(self).interface@,
    {
        if str_eq(msg, "click 1") {
            self.show_ssid = !self.show_ssid;
        }
    }

    /// The text, given the value found for the interface (an SSID, an
    /// address, or why there is none).
    pub fn text(&self, name: &str, arg: &GenArg, shown: String) -> (r: String)
        ensures
            r@ == ip_view(arg_builder(arg@), name@, self.state, shown@).rendered(),
    {
        let bu = arg.get_builder();
        if self.state < LIMITED_STATE {
            bu.add("not connected").colorize("gray").to_string()
        } else {
            let b = bu.add_trunc(10, shown).name_click(1, name);
            let b = if self.state == LIMITED_STATE { b.colorize("yellow") } else { b };
            b.to_string()
        }
    }
}

} // verus!
