use statusbar::dzen_format::config::Config;
use statusbar::dzen_format::DzenBuilder;
use statusbar::tasks::generator::batgen::BatGen;
use statusbar::tasks::generator::cpugen::CpuGen;
use statusbar::tasks::generator::diskgen::{DiskGen, DiskInfo};
use statusbar::tasks::generator::echogen::echo_text;
use statusbar::tasks::generator::ipgen::IpGen;
use statusbar::tasks::generator::netgen::NetGen;
use statusbar::tasks::generator::onegen::{line_text, script_search_path, ScriptAction, ScriptInput, ScriptMachine};
use statusbar::tasks::generator::ramgen::{ram_text, RamGen};
use statusbar::tasks::generator::tempgen::TempGen;
use statusbar::tasks::generator::timegen::{LocalTime, TimeGen};
use statusbar::tasks::generator::{GenArg, GenId, GenType};
use statusbar::tasks::ExitReason;
use statusbar::x::XSetup;

fn arg(a: Option<&str>) -> GenArg {
    GenArg { timeout: None, arg: a.map(|s| s.to_string()), prepend: None }
}

#[test]
fn gen_ids() {
    assert_eq!(GenId::from_gen(GenType::CPU), GenId::new(GenType::CPU, 0));
    assert_eq!(GenId::from_gen(GenType::BAT).id, 9);
    assert_eq!(GenId::new(GenType::NET, 104).to_string(), "104");
    assert_eq!(GenId::new(GenType::NET, 104).gen_type(), GenType::NET);
}

#[test]
fn prepended_markup_starts_the_text() {
    let a = GenArg { timeout: Some(3), arg: None, prepend: Some(DzenBuilder::from_str(">")) };
    assert_eq!(a.get_builder().add("x").to_string(), ">x");
    assert_eq!(a.delay_or(9), 3);
    assert!(a.same_as(&a.duplicate()));
    assert!(!a.same_as(&GenArg::empty()));
}

#[test]
fn ram_figures() {
    assert_eq!(ram_text(&arg(None), 1, 3, 0, 0), "33%");
    assert_eq!(ram_text(&arg(None), 2, 3, 0, 0), "^fg(yellow)67%^fg()");
    assert_eq!(ram_text(&arg(None), 9, 10, 1, 4), "^fg(red)90%^fg() (25)");
    assert_eq!(ram_text(&arg(None), 1, 2, 3, 4), "50% (^fg(yellow)75^fg())");
    assert_eq!(ram_text(&arg(None), 1, 0, 0, 0), "0%");
}

#[test]
fn ram_generator_reads_the_system() {
    let mut g = RamGen::new();
    g.update();
    let s = g.display(&arg(None));
    assert!(s.contains('%'));
    assert_eq!(g.get_delay(&arg(None)), 2);
}

#[test]
fn battery() {
    let mut b = BatGen::new();
    b.read("87\n", "Discharging\n");
    assert_eq!(b.capacity, 87);
    assert!(!b.charging);
    assert_eq!(b.display(&arg(None)), "^fg(fg)87%^fg()");
    b.read("12\n", "Full\n");
    assert!(b.charging);
    assert_eq!(b.display(&arg(None)), "^fg(green)12%^fg()");
    b.read("oops", "Charging");
    assert_eq!(b.capacity, 255);
    b.read("+20", "Unknown");
    assert_eq!(b.display(&arg(None)), "^fg(yellow)20%^fg()");
    b.read("256", "");
    assert_eq!(b.capacity, 255);
}

#[test]
fn cpu() {
    let mut c = CpuGen::new();
    c.init(&arg(Some("detailed")));
    assert!(c.detailed);
    let s = c.display("cpu", &arg(None), &vec![5, 80], 40);
    assert_eq!(s, "^ca(1, echo cpu click 1 >> /tmp/statusbar_fifo)^fg(red)05/80^fg()^ca()");
    assert!(!c.on_msg("click 1"));
    assert_eq!(c.display("cpu", &arg(None), &vec![5, 80], 40), "^ca(1, echo cpu click 1 >> /tmp/statusbar_fifo)40%^ca()");
}

#[test]
fn net() {
    let mut n = NetGen::new();
    let avail = vec!["eth0".to_string(), "wlan0".to_string()];
    assert_eq!(n.init(&arg(Some("eth9")), &avail), Err(ExitReason::Error));
    assert_eq!(n.init(&arg(None), &avail), Err(ExitReason::Error));
    assert_eq!(n.init(&arg(Some("eth0 wlan0")), &avail), Ok(()));
    assert_eq!(n.current_interface(), "eth0");
    let s = n.display("net", &arg(None), 4096, 2048, 0, 0);
    assert_eq!(
        s,
        "^ca(3, echo net click 3 >> /tmp/statusbar_fifo)^ca(1, echo net click 1 >> /tmp/statusbar_fifo)2 KiB/s / 1 KiB/s^ca()^ca()"
    );
    n.on_msg("click 3");
    assert_eq!(n.current_interface(), "wlan0");
    n.on_msg("click 3");
    assert_eq!(n.current_interface(), "eth0");
    n.on_msg("click 1");
    assert!(n.display("net", &arg(None), 0, 0, 1024, 0).contains("1 KiB / 0 B^ca()"));
}

#[test]
fn temperature() {
    let mut t = TempGen::new();
    let labels = vec!["Package id 0".to_string()];
    assert_eq!(t.init(&arg(Some("edge")), &labels), Err(ExitReason::NonFatal));
    assert_eq!(t.init(&arg(Some("Package id 0")), &labels), Ok(()));
    assert_eq!(t.name, "Package id 0");
    assert_eq!(t.display(&arg(None), 45), "45°C");
    assert_eq!(t.display(&arg(None), 71), "^fg(red)71°C^fg()");
    assert_eq!(t.display(&arg(None), -5), "-5°C");
}

#[test]
fn disks() {
    let mut d = DiskGen::new();
    assert_eq!(d.init(&arg(None)), Err(ExitReason::NonFatal));
    assert_eq!(d.init(&arg(Some("/,/home,/media"))), Ok(()));
    let infos = vec![
        DiskInfo { fs: "ext4".to_string(), mount: "/".to_string(), total: 100, avail: 50 },
        DiskInfo { fs: "tmpfs".to_string(), mount: "/home".to_string(), total: 100, avail: 0 },
        DiskInfo { fs: "ext4".to_string(), mount: "/home".to_string(), total: 100, avail: 4 },
    ];
    assert_eq!(d.display(&arg(None), &infos), "50/^fg(red)96^fg()/xx");
    assert_eq!(d.get_delay(&arg(None)), 60);
}

#[test]
fn time() {
    let mut t = TimeGen::new();
    assert!(t.now.month >= 1 && t.now.month <= 12);
    t.now = LocalTime { year: 2024, month: 3, day: 7, weekday: 3, hour: 9, minute: 5, second: 30 };
    let click = "^ca(1, echo time click 1 >> /tmp/statusbar_fifo)";
    assert_eq!(t.display("time", &arg(None)), format!("{}Tor 2024-03-07 09:05^ca()", click));
    assert_eq!(t.get_delay(&arg(None)), 31);
    assert!(t.on_msg("click 1", 100));
    t.timer = Some((100, 175));
    assert_eq!(
        t.display("time", &arg(None)),
        format!("{}Tor 2024-03-07 ^fg(green)01:15^fg()^ca()", click)
    );
    assert_eq!(t.get_delay(&arg(None)), 1);
    assert!(t.on_msg("update", 0));
    assert!(!t.on_msg("other", 0));
    assert!(t.on_msg("click 1", 0));
    assert!(t.timer.is_none());
}

#[test]
fn ip_status() {
    let mut g = IpGen::new();
    assert_eq!(g.init(&arg(None)), Err(ExitReason::Error));
    assert_eq!(g.init(&arg(Some("wlan0"))), Ok(()));
    assert_eq!(g.text("ip", &arg(None), "x".to_string()), "^fg(gray)not connected^fg()");
    g.handle_signal(Some(70));
    assert_eq!(
        g.text("ip", &arg(None), "192.168.100.200".to_string()),
        "^ca(1, echo ip click 1 >> /tmp/statusbar_fifo)192.168.1…^ca()"
    );
    g.handle_signal(Some(60));
    assert!(g.text("ip", &arg(None), "home".to_string()).starts_with("^fg(yellow)"));
    g.handle_msg("click 1");
    assert!(!g.show_ssid);
}

#[test]
fn echo_and_script_lines() {
    let mut theme = Config::new();
    theme.set_color("hot", "#ff0000");
    assert_eq!(echo_text(&arg(None), &theme, "^fg(hot)x^fg()"), "^fg(#ff0000)x^fg()");
    assert_eq!(line_text(&arg(None), &theme, "s", ""), "");
    assert_eq!(line_text(&arg(None), &theme, "s", "hi"), "^ca(1, echo s click 1 >> /tmp/statusbar_fifo)hi^ca()");
    assert_eq!(script_search_path("~/scripts", "/usr/bin", "/home/u"), "/home/u/scripts:/usr/bin");
    assert_eq!(script_search_path("/s", "/usr/bin", "/home/u"), "/s:/usr/bin");
}

#[test]
fn script_lifecycle() {
    let mut m = ScriptMachine::start(true);
    assert_eq!(m.doing, ScriptAction::Spawn { first: true });
    m = m.step(ScriptInput::Spawned(true));
    m = m.step(ScriptInput::Line);
    assert_eq!(m.doing, ScriptAction::Publish);
    m = m.step(ScriptInput::Published(true));
    m = m.step(ScriptInput::Message(true));
    assert_eq!(m.doing, ScriptAction::Read);
    m = m.step(ScriptInput::Eof);
    assert_eq!(m.doing, ScriptAction::Reap { terminate: false });
    m = m.step(ScriptInput::Reaped);
    assert_eq!(m.doing, ScriptAction::Dormant);
    m = m.step(ScriptInput::Message(true));
    assert_eq!(m.doing, ScriptAction::Spawn { first: false });
    m = m.step(ScriptInput::Spawned(true));
    m = m.step(ScriptInput::Message(false));
    assert_eq!(m.doing, ScriptAction::Reap { terminate: true });
    m = m.step(ScriptInput::Reaped);
    assert_eq!(m.doing, ScriptAction::Exit(ExitReason::Normal));
    assert_eq!(ScriptMachine::start(false).doing, ScriptAction::Exit(ExitReason::Error));
}

#[test]
fn outputs_lookup() {
    let x = XSetup::from_outputs(vec![
        ("DP-0".to_string(), 1, (0, 0, 1920, 1080)),
        ("HDMI-0".to_string(), 2, (1920, 0, 1280, 1024)),
    ]);
    assert_eq!(x.get_xinerama("HDMI-0"), Some(2));
    assert_eq!(x.get_rect("DP-0"), Some((0, 0, 1920, 1080)));
    assert_eq!(x.get_name(2), Some("HDMI-0".to_string()));
    assert_eq!(x.get_name(3), None);
    assert_eq!(x.outputs(), vec!["DP-0".to_string(), "HDMI-0".to_string()]);
}

#[test]
fn default_layout() {
    let theme = statusbar::config::theme("/home/u");
    assert_eq!(theme.resolve_color("fg"), "#dfdfdf");
    let outputs = vec!["DisplayPort-0".to_string(), "HDMI-0".to_string()];
    let x = XSetup::from_outputs(vec![
        ("DisplayPort-0".to_string(), 1, (0, 0, 1920, 1080)),
        ("HDMI-0".to_string(), 2, (1920, 0, 1280, 1024)),
    ]);
    let setup = statusbar::config::config(&theme, &outputs).build_custom(&x, None).unwrap();
    assert_eq!(setup.bars().len(), 2);
    assert_eq!(setup.bars()[1].get_output(), "HDMI-0");
    let names = statusbar::tasks::control_names(&setup).unwrap();
    assert!(names.iter().any(|(_, n)| n == "xmonad_HDMI-0"));
    assert!(setup.bars()[0].get_separator().starts_with("^fg(white)^p(5)^r(2x20)^p(5)"));
}

#[test]
fn script_failures_terminate_the_script() {
    let m = ScriptMachine::start(true).step(ScriptInput::Spawned(true)).step(ScriptInput::Line).step(ScriptInput::Published(false));
    assert_eq!(m.doing, ScriptAction::Reap { terminate: true });
    assert_eq!(m.step(ScriptInput::Reaped).doing, ScriptAction::Exit(ExitReason::Error));
    let m = ScriptMachine::start(true).step(ScriptInput::Spawned(false));
    assert_eq!(m.doing, ScriptAction::Exit(ExitReason::Error));
    let m = ScriptMachine::start(true).step(ScriptInput::Spawned(true)).step(ScriptInput::ReadFailed);
    assert_eq!(m.step(ScriptInput::Reaped).doing, ScriptAction::Exit(ExitReason::Error));
}

#[test]
fn outputs_are_paired_with_screens() {
    let outs = vec![("DP-0".to_string(), (0, 0, 1920, 1080)), ("HDMI-0".to_string(), (1920, 0, 1280, 1024))];
    let screens = vec![(1, (1920, 0, 1280, 1024)), (2, (0, 0, 1920, 1080))];
    let x = XSetup::combine(outs, &screens).unwrap();
    assert_eq!(x.get_xinerama("DP-0"), Some(2));
    assert_eq!(x.get_xinerama("HDMI-0"), Some(1));
    let lonely = vec![("DP-1".to_string(), (5, 5, 10, 10))];
    assert!(XSetup::combine(lonely, &screens).is_none());
}

#[test]
fn time_timeout_overrides_the_period() {
    let t = TimeGen::new();
    let a = GenArg { timeout: Some(7), arg: None, prepend: None };
    assert_eq!(t.get_delay(&a), 7);
}
