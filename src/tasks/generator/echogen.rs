//! Shows what it is sent: each control message becomes its text, with icon
//! and color names resolved through the theme.

use vstd::prelude::*;
use crate::dzen_format::sp_add;
use crate::dzen_format::config::Config;
use crate::dzen_format::external::{fix_dzen_string, fixed_markup};
use crate::tasks::generator::{arg_builder, GenArg};

verus! {

/// A generator that shows the control messages it receives.
pub struct EchoGen;

/// The text for one control message.
pub fn echo_text(arg: &GenArg, theme: &Config, msg: &str) -> (r: String)
    ensures
        r@ == sp_add(arg_builder(arg@), fixed_markup(theme@, msg@)).rendered(),
{
    let fixed = fix_dzen_string(msg, theme);
    arg.get_builder().add(fixed.as_str()).to_string()
}

} // verus!
