//! The default theme and bar layout.

use vstd::prelude::*;
use crate::bar::{BarBuilder, GenBuilder, SetupBuilder};
use crate::dzen_format::DzenBuilder;
use crate::dzen_format::config::{Config, ICON_PATH};
use crate::tasks::generator::GenType;

verus! {

/// The font of the bars.
pub const DZEN_FONT: &'static str = "Bitstream Vera Sans:pixelsize=14:antialias=true:hinting=true";

/// Where generator scripts are looked up first.
pub const SCRIPT_PATH: &'static str = "~/Documents/statusbar/scripts";

/// The theme: color and icon names, icons under the default icon directory
/// below the home directory `home`.
pub fn theme(home: &str) -> (r: Config)
    ensures
        r@.icon_path == ICON_PATH@,
        r@.home == home@,
        r@.color.len() == 10,
        r@.icon.len() == 9,
{
    let mut h = Config::new().with_paths(ICON_PATH, home);
    h.set_color("fg", "#dfdfdf");
    h.set_color("bg", "#333333");
    h.set_color("lightbg", "#505050");
    h.set_color("urgent", "#bd2c40");
    h.set_color("hotpink", "#ff69b4");
    h.set_color("orange", "#ffb52a");
    h.set_color("yellow2", "#eeee00");
    h.set_color("blue2", "#00ace6");
    h.set_color("darkorange", "#ff8c00");
    h.set_color("magenta", "#ff00ff");
    h.set_icon("battery", "kanna");
    h.set_icon("volume", "sonico");
    h.set_icon("temperature", "salamander");
    h.set_icon("cpu", "balzac");
    h.set_icon("ram", "ram");
    h.set_icon("time", "lucy");
    h.set_icon("wifi", "vert");
    h.set_icon("netspeed", "rem");
    h.set_icon("disk", "miku");
    h
}

/// An icon followed by a small gap, put before a generator's text.
fn pre_icon(theme: &Config, i: &str) -> (r: DzenBuilder)
    ensures
        r@.theme == Some(theme@),
{
    DzenBuilder::new().use_theme(theme).append_icon(i).rpad(3)
}

/// The layout: a full bar on "DisplayPort-0" with a tray, and on every
/// other output in `outputs` a bar with the window manager's text and the
/// time; fields separated by a small white bar.
pub fn config(theme: &Config, outputs: &Vec<String>) -> (r: SetupBuilder)
    ensures
        r@.bars.len() >= 1,
        r@.bars[0].output == "DisplayPort-0"@,
        r@.bars[0].tray,
        r@.bars[0].left.len() == 1 && r@.bars[0].right.len() == 11,
        r@.sep is Some,
{
    let sep = DzenBuilder::new().lpad(5).rect(2, 20).rpad(5).colorize("white").to_string();
    let main = BarBuilder::new("DisplayPort-0")
        .add_left(GenBuilder::new(GenType::ECHO).name("xmonad_DisplayPort-0"))
        .add_right(GenBuilder::new(GenType::ONE).argument("pacman.sh"))
        .add_right(GenBuilder::new(GenType::ONE).argument("statusbar_progmode").name("progmode"))
        .add_right(GenBuilder::new(GenType::ONE).argument("pulseaudio.py").prepend(pre_icon(theme, "volume")))
        .add_right(GenBuilder::new(GenType::DISK).argument("/,/media/data"))
        .add_right(GenBuilder::new(GenType::NET).argument("enp4s0").prepend(pre_icon(theme, "netspeed")))
        .add_right(GenBuilder::new(GenType::TEMP).argument("Package id 0").prepend(pre_icon(theme, "temperature")))
        .add_right(GenBuilder::new(GenType::RAM).prepend(pre_icon(theme, "ram")))
        .add_right(GenBuilder::new(GenType::CPU).prepend(pre_icon(theme, "cpu")))
        .add_right(GenBuilder::new(GenType::IP).argument("enp4s0").prepend(pre_icon(theme, "wifi")))
        .add_right(GenBuilder::new(GenType::BAT).prepend(pre_icon(theme, "battery")))
        .add_right(GenBuilder::new(GenType::TIME).prepend(pre_icon(theme, "time")))
        .tray(true);
    let other = |output: &str| -> (b: BarBuilder)
        {
            let mut n = String::from_str("xmonad_");
            n.append(output);
            BarBuilder::new(output)
                .add_left(GenBuilder::new(GenType::ECHO).name(n.as_str()))
                .add_right(GenBuilder::new(GenType::TIME).prepend(pre_icon(theme, "time")))
        };
    let b = SetupBuilder::new().add_bar(main);
    let ghost b0 = b@;
    let b = b.map_other(outputs, other);
    proof {
        assert(b@.bars.take(1)[0] == b0.bars[0]);
    }
    b.separator(sep.as_str())
}

} // verus!
