use statusbar::bar::{BarBuilder, GenBuilder, SetupBuilder, SetupConfig, SetupError};
use statusbar::tasks::dzen::{build_side, split_widths, BarAction, BarEvent, BarState};
use statusbar::tasks::generator::event::{EventAction, EventInput, EventMachine};
use statusbar::tasks::generator::timer::{TimerAction, TimerInput, TimerMachine};
use statusbar::tasks::generator::{GenArg, GenId, GenType};
use statusbar::tasks::pipo::{action_for_content, control_action, split_content, ControlAction};
use statusbar::tasks::{control_names, ExitReason, Msg, ProcessExitReason, Supervisor};
use statusbar::x::XSetup;

const ALL: [ExitReason; 4] = [ExitReason::Signal, ExitReason::Error, ExitReason::Normal, ExitReason::NonFatal];

fn one_output() -> XSetup {
    XSetup::from_outputs(vec![("DP-0".to_string(), 1, (0, 0, 1920, 1080))])
}

fn code(rs: &[ExitReason]) -> i32 {
    let mut p = ProcessExitReason::new();
    for r in rs {
        p = p.combine(*r);
    }
    p.get_exit_code()
}

#[test]
fn combine_table() {
    assert_eq!(code(&[]), 0);
    assert_eq!(code(&[ExitReason::Normal]), 0);
    assert_eq!(code(&[ExitReason::NonFatal]), 0);
    assert_eq!(code(&[ExitReason::Error]), 1);
    assert_eq!(code(&[ExitReason::Signal]), 2);
    assert_eq!(code(&[ExitReason::Error, ExitReason::Signal]), 3);
    assert_eq!(code(&[ExitReason::Signal, ExitReason::Error]), 3);
    for x in ALL {
        assert_eq!(code(&[ExitReason::Normal, x]), code(&[x]));
        assert_eq!(code(&[ExitReason::NonFatal, x]), code(&[x]));
        for y in ALL {
            assert_eq!(code(&[x, y]), code(&[y, x]));
        }
    }
}

#[test]
fn combine_records_each_reason_once() {
    let p = ProcessExitReason::new()
        .combine(ExitReason::Error)
        .combine(ExitReason::Error)
        .combine(ExitReason::Normal);
    match p {
        ProcessExitReason::Error(v) => assert_eq!(v, vec![ExitReason::Error]),
        ProcessExitReason::Okay => panic!("an error was merged"),
    }
}

#[test]
fn timer_first_update_failure_finalizes_without_publishing() {
    for e in [ExitReason::Error, ExitReason::NonFatal] {
        let mut m = TimerMachine::start();
        let mut actions = vec![m.doing];
        m = m.step(TimerInput::Initialized(None));
        actions.push(m.doing);
        m = m.step(TimerInput::Updated(Some(e)));
        actions.push(m.doing);
        m = m.step(TimerInput::Finalized(None));
        actions.push(m.doing);
        assert!(!actions.contains(&TimerAction::Publish));
        assert_eq!(
            actions,
            vec![TimerAction::Init, TimerAction::Update, TimerAction::Finalize, TimerAction::Exit(e)]
        );
    }
}

#[test]
fn timer_publishes_before_waiting() {
    let mut m = TimerMachine::start();
    m = m.step(TimerInput::Initialized(None));
    m = m.step(TimerInput::Updated(None));
    assert_eq!(m.doing, TimerAction::Display);
    m = m.step(TimerInput::Displayed(None));
    assert_eq!(m.doing, TimerAction::Publish);
    m = m.step(TimerInput::Published(true));
    assert_eq!(m.doing, TimerAction::Wait { rearm: true });
    m = m.step(TimerInput::Message(true));
    assert_eq!(m.doing, TimerAction::HandleMsg);
    m = m.step(TimerInput::MsgHandled(false));
    assert_eq!(m.doing, TimerAction::Display);
    m = m.step(TimerInput::Displayed(None));
    m = m.step(TimerInput::Published(true));
    assert_eq!(m.doing, TimerAction::Wait { rearm: false });
    m = m.step(TimerInput::Message(false));
    assert_eq!(m.doing, TimerAction::Finalize);
    m = m.step(TimerInput::Finalized(Some(ExitReason::Error)));
    assert_eq!(m.doing, TimerAction::Exit(ExitReason::Error));
}

#[test]
fn timer_init_failure_still_finalizes() {
    let m = TimerMachine::start().step(TimerInput::Initialized(Some(ExitReason::NonFatal)));
    assert_eq!(m.doing, TimerAction::Finalize);
    let m = m.step(TimerInput::Finalized(None));
    assert_eq!(m.doing, TimerAction::Exit(ExitReason::NonFatal));
}

#[test]
fn control_lines() {
    let names = vec!["cpu".to_string(), "TRAY".to_string()];
    assert!(matches!(control_action("EXIT\n", &names), ControlAction::Exit));
    assert!(matches!(control_action("EXIT now  \n", &names), ControlAction::Exit));
    match control_action("cpu click 1 and more  \n", &names) {
        ControlAction::Forward(i, m) => {
            assert_eq!(i, 0);
            assert_eq!(m, "click 1 and more");
        }
        _ => panic!("expected a forward"),
    }
    assert!(matches!(control_action("TRAY\n", &names), ControlAction::Forward(1, _)));
    assert!(matches!(control_action("TRAY\n", &vec![]), ControlAction::Tray));
    assert!(matches!(control_action("nobody x\n", &names), ControlAction::Ignore));
    assert!(matches!(action_for_content("", &names), ControlAction::Ignore));
    assert_eq!(split_content("a b c"), ("a".to_string(), "b c".to_string()));
    assert_eq!(split_content("abc"), ("abc".to_string(), String::new()));
}

fn setup_abc() -> SetupConfig {
    SetupBuilder::new()
        .add_bar(
            BarBuilder::new("DP-0")
                .add_left(GenBuilder::new(GenType::ECHO).name("a"))
                .add_left(GenBuilder::new(GenType::ECHO).name("b"))
                .add_right(GenBuilder::new(GenType::ECHO).name("c"))
                .separator(" | ")
                .padding(10),
        )
        .build_custom(&one_output(), None)
        .unwrap()
}

#[test]
fn empty_fields_are_skipped_in_a_side() {
    let setup = setup_abc();
    let bar = setup.bars()[0].duplicate();
    let a = bar.iter_left()[0];
    let b = bar.iter_left()[1];
    let c = bar.iter_right()[0];
    let mut st = BarState::new(&bar);
    assert!(matches!(st.step(&bar, BarEvent::Received(Msg::Gen(a, "1".to_string()))), BarAction::ArmDebounce));
    assert!(matches!(st.step(&bar, BarEvent::Received(Msg::Gen(b, String::new()))), BarAction::Idle));
    assert!(matches!(st.step(&bar, BarEvent::Received(Msg::Gen(c, "3".to_string()))), BarAction::Idle));
    match st.step(&bar, BarEvent::DebounceElapsed) {
        BarAction::Write(l, r) => {
            assert_eq!(l, "^p(10)1\n");
            assert_eq!(r, "3^p(10)\n");
        }
        _ => panic!("expected a write"),
    }
    let texts = vec![(a, "1".to_string()), (b, String::new()), (c, "3".to_string())];
    assert_eq!(build_side(bar.iter_left(), &texts, " | ").to_string(), "1");
    assert_eq!(build_side(bar.iter_right(), &texts, " | ").to_string(), "3");
    let both = vec![(a, "1".to_string()), (b, "2".to_string())];
    assert_eq!(build_side(bar.iter_left(), &both, " | ").to_string(), "1 | 2");
}

#[test]
fn renderer_continues_after_lag() {
    let setup = setup_abc();
    let bar = setup.bars()[0].duplicate();
    let a = bar.iter_left()[0];
    let mut st = BarState::new(&bar);
    assert!(matches!(st.step(&bar, BarEvent::Lagged), BarAction::Idle));
    assert!(matches!(st.step(&bar, BarEvent::Received(Msg::Gen(a, "x".to_string()))), BarAction::ArmDebounce));
    assert!(matches!(st.step(&bar, BarEvent::Lagged), BarAction::Idle));
    assert!(matches!(st.step(&bar, BarEvent::DebounceElapsed), BarAction::Write(_, _)));
    assert!(matches!(st.step(&bar, BarEvent::DebounceElapsed), BarAction::Idle));
    let other = GenId::new(GenType::CPU, 7);
    assert!(matches!(st.step(&bar, BarEvent::Received(Msg::Gen(other, "y".to_string()))), BarAction::Idle));
    assert!(matches!(st.step(&bar, BarEvent::Received(Msg::Tray)), BarAction::Write(_, _)));
    assert!(matches!(st.step(&bar, BarEvent::Closed), BarAction::Stop(ExitReason::Normal)));
}

#[test]
fn equal_requests_share_an_instance() {
    let setup = SetupBuilder::new()
        .add_bar(
            BarBuilder::new("DP-0")
                .add_left(GenBuilder::new(GenType::NET).argument("eth0").name("n"))
                .add_right(GenBuilder::new(GenType::NET).argument("eth0").name("n"))
                .add_right(GenBuilder::new(GenType::NET).argument("eth1").name("m"))
                .add_right(GenBuilder::new(GenType::CPU))
                .add_right(GenBuilder::new(GenType::CPU)),
        )
        .build_custom(&one_output(), None)
        .unwrap();
    let bar = setup.bars()[0].duplicate();
    let l = bar.iter_left().clone();
    let r = bar.iter_right().clone();
    assert_eq!(l[0], r[0]);
    assert_ne!(r[0], r[1]);
    assert_eq!(r[2], r[3]);
    assert_eq!(r[2], GenId::from_gen(GenType::CPU));
    assert_eq!(l[0].id, 100);
    assert_eq!(setup.iter(), vec![l[0], r[1], r[2]]);
    assert_eq!(setup.get_name(l[0]).unwrap(), "n");
    assert_eq!(setup.get_arg(&l[0]).unwrap().arg.as_deref(), Some("eth0"));
    assert!(setup.get_arg(&r[2]).is_none());
}

#[test]
fn unknown_output_is_an_error() {
    let r = SetupBuilder::new().add_bar(BarBuilder::new("HDMI-9")).build_custom(&one_output(), None);
    assert!(matches!(r, Err(SetupError::OutputNotConnected)));
}

#[test]
fn bar_settings_fall_back_to_layout_then_defaults() {
    let setup = SetupBuilder::new()
        .add_bar(BarBuilder::new("DP-0").tray(true))
        .separator("::")
        .split(250)
        .build_custom(&one_output(), None)
        .unwrap();
    let bar = &setup.bars()[0];
    assert_eq!(bar.get_separator(), "::");
    assert_eq!(bar.get_padding(), 10);
    assert_eq!(bar.get_split(), 250);
    assert!(bar.wants_tray());
    assert_eq!(bar.get_xinerama(), 1);
    assert_eq!(bar.get_screen_width(), 1920);
    assert_eq!(split_widths(1920, 250), (480, 1440));
    assert!(setup.bar_from_output("DP-0").is_some());
    assert!(setup.bar_from_output("DP-1").is_none());
}

#[test]
fn control_names_reject_duplicates() {
    let setup = setup_abc();
    let names = control_names(&setup).unwrap();
    let ns: Vec<String> = names.iter().map(|(_, n)| n.clone()).collect();
    assert_eq!(ns, vec!["a".to_string(), "b".to_string(), "c".to_string()]);
    let mut dup = many(2).unwrap();
    let second = dup.iter()[1];
    dup.name_module(second, "e0".to_string());
    assert!(control_names(&dup).is_err());
    let unnamed = SetupBuilder::new()
        .add_bar(BarBuilder::new("DP-0").add_left(GenBuilder::new(GenType::RAM)))
        .build_custom(&one_output(), None)
        .unwrap();
    assert_eq!(control_names(&unnamed).unwrap()[0].1, "1");
}

#[test]
fn supervisor_merges_and_stops_reader_once() {
    let s = Supervisor::new();
    let (s, tell) = s.task_ended(ExitReason::NonFatal);
    assert!(!tell);
    let (s, tell) = s.task_ended(ExitReason::Normal);
    assert!(tell);
    let (s, tell) = s.task_ended(ExitReason::Signal);
    assert!(!tell);
    assert_eq!(s.reason.get_exit_code(), 2);
}

#[test]
fn one_timer_generator_end_to_end() {
    let setup = SetupBuilder::new()
        .add_bar(BarBuilder::new("DP-0").add_right(GenBuilder::new(GenType::RAM).name("ram").timeout(1)))
        .build_custom(&one_output(), None)
        .unwrap();
    let bar = setup.bars()[0].duplicate();
    let id = bar.iter_right()[0];
    let arg = setup.get_arg(&id).unwrap();
    assert_eq!(arg.delay_or(2), 1);
    let names = control_names(&setup).unwrap();
    let name_list: Vec<String> = names.iter().map(|(_, n)| n.clone()).collect();
    let mut st = BarState::new(&bar);
    let mut m = TimerMachine::start().step(TimerInput::Initialized(None)).step(TimerInput::Updated(None));
    assert_eq!(m.doing, TimerAction::Display);
    let text = statusbar::tasks::generator::ramgen::ram_text(arg, 512, 1024, 0, 0);
    assert_eq!(text, "50%");
    m = m.step(TimerInput::Displayed(None));
    assert_eq!(m.doing, TimerAction::Publish);
    assert!(matches!(st.step(&bar, BarEvent::Received(Msg::Gen(id, text))), BarAction::ArmDebounce));
    match st.step(&bar, BarEvent::DebounceElapsed) {
        BarAction::Write(_, r) => assert_eq!(r, "50%^p(10)\n"),
        _ => panic!("expected a write"),
    }
    m = m.step(TimerInput::Published(true));
    match control_action("ram hello there\n", &name_list) {
        ControlAction::Forward(0, msg) => assert_eq!(msg, "hello there"),
        _ => panic!("expected a forward to the generator"),
    }
    m = m.step(TimerInput::Message(true));
    assert_eq!(m.doing, TimerAction::HandleMsg);
    m = m.step(TimerInput::MsgHandled(false));
    assert_eq!(m.doing, TimerAction::Display);
    let _ = GenArg::empty();
}

#[test]
fn setup_is_described() {
    let setup = SetupBuilder::new()
        .add_bar(
            BarBuilder::new("DP-0")
                .add_left(GenBuilder::new(GenType::NET).argument("eth0").timeout(1).name("n"))
                .add_right(GenBuilder::new(GenType::CPU)),
        )
        .build_custom(&one_output(), None)
        .unwrap();
    assert_eq!(
        setup.describe(),
        "DP-0\n  left:\n    NET(100)\n      timeout=1\n      arg=eth0\n      name=n\n  right:\n    CPU(0)\n"
    );
}

#[test]
fn event_generator_unsubscribes_on_the_way_out() {
    let mut m = EventMachine::start();
    assert_eq!(m.doing, EventAction::Connect);
    m = m.step(EventInput::Connected(None));
    m = m.step(EventInput::Initialized(None));
    m = m.step(EventInput::Subscribed(None));
    assert_eq!(m.doing, EventAction::Update);
    m = m.step(EventInput::Updated(None));
    m = m.step(EventInput::Published(true));
    assert_eq!(m.doing, EventAction::Wait);
    m = m.step(EventInput::Signal(true));
    assert_eq!(m.doing, EventAction::HandleSignal);
    m = m.step(EventInput::SignalHandled(None));
    assert_eq!(m.doing, EventAction::Update);
    m = m.step(EventInput::Updated(None));
    m = m.step(EventInput::Published(true));
    m = m.step(EventInput::Message(false));
    assert_eq!(m.doing, EventAction::Unsubscribe);
    m = m.step(EventInput::Unsubscribed);
    assert_eq!(m.doing, EventAction::Exit(ExitReason::Normal));
    let lost = EventMachine::start().step(EventInput::Connected(None)).step(EventInput::ConnectionLost);
    assert_eq!(lost.doing, EventAction::Exit(ExitReason::Error));
    let failed = EventMachine::start()
        .step(EventInput::Connected(None))
        .step(EventInput::Initialized(None))
        .step(EventInput::Subscribed(None))
        .step(EventInput::Updated(Some(ExitReason::NonFatal)))
        .step(EventInput::Unsubscribed);
    assert_eq!(failed.doing, EventAction::Exit(ExitReason::NonFatal));
}

#[test]
fn setups_are_compared() {
    let two = XSetup::from_outputs(vec![("DP-0".to_string(), 1, (0, 0, 1920, 1080)), ("DP-1".to_string(), 2, (1920, 0, 1920, 1080))]);
    let a = SetupBuilder::new()
        .add_bar(BarBuilder::new("DP-0").add_left(GenBuilder::new(GenType::CPU)).add_left(GenBuilder::new(GenType::RAM)))
        .build_custom(&two, None)
        .unwrap();
    let b = SetupBuilder::new()
        .add_bar(BarBuilder::new("DP-1").add_left(GenBuilder::new(GenType::CPU)).add_left(GenBuilder::new(GenType::TIME)))
        .build_custom(&two, None)
        .unwrap();
    let d = a.diff(&b);
    assert_eq!(d.gen_minus, vec![GenId::from_gen(GenType::RAM)]);
    assert_eq!(d.gen_plus, vec![GenId::from_gen(GenType::TIME)]);
    assert_eq!(d.bar_minus.len(), 1);
    assert_eq!(d.bar_minus[0].get_output(), "DP-0");
    assert_eq!(d.bar_plus[0].get_output(), "DP-1");
}

#[test]
fn different_requests_with_one_name_are_refused() {
    let r = SetupBuilder::new()
        .add_bar(
            BarBuilder::new("DP-0")
                .add_left(GenBuilder::new(GenType::NET).argument("eth0").name("n"))
                .add_right(GenBuilder::new(GenType::NET).argument("eth1").name("n")),
        )
        .build_custom(&one_output(), None);
    assert!(matches!(r, Err(SetupError::DuplicateName)));
    let dup_unknown = SetupBuilder::new()
        .add_bar(BarBuilder::new("HDMI-9").add_left(GenBuilder::new(GenType::CPU).name("x")).add_left(GenBuilder::new(GenType::RAM).name("x")))
        .build_custom(&one_output(), None);
    assert!(matches!(dup_unknown, Err(SetupError::DuplicateName)));
}

fn many(n: usize) -> Result<SetupConfig, SetupError> {
    let mut bar = BarBuilder::new("DP-0");
    for i in 0..n {
        bar = bar.add_left(GenBuilder::new(GenType::ECHO).name(&format!("e{}", i)));
    }
    SetupBuilder::new().add_bar(bar).build_custom(&one_output(), None)
}

#[test]
fn every_discriminator_is_used_before_giving_up() {
    let setup = many(156).unwrap();
    let ids = setup.iter();
    assert_eq!(ids.len(), 156);
    assert_eq!(ids[0].id, 100);
    assert_eq!(ids[155].id, 255);
    assert!(matches!(many(157), Err(SetupError::TooManyGenerators)));
}

#[test]
fn discriminators_taken_by_the_previous_setup_are_skipped() {
    let prev = many(2).unwrap();
    let setup = SetupBuilder::new()
        .add_bar(BarBuilder::new("DP-0").add_left(GenBuilder::new(GenType::ECHO).name("other")))
        .build_custom(&one_output(), Some(&prev))
        .unwrap();
    assert_eq!(setup.iter()[0].id, 102);
    let again = SetupBuilder::new()
        .add_bar(BarBuilder::new("DP-0").add_left(GenBuilder::new(GenType::ECHO).name("e1")))
        .build_custom(&one_output(), Some(&prev))
        .unwrap();
    assert_eq!(again.iter()[0].id, 101);
}

#[test]
fn instances_can_be_renamed() {
    let mut setup = many(1).unwrap();
    let id = setup.iter()[0];
    setup.name_module(id, "renamed".to_string());
    assert_eq!(setup.get_name(id).unwrap(), "renamed");
}

#[test]
fn lost_connection_after_subscribing_still_unsubscribes() {
    let m = EventMachine::start()
        .step(EventInput::Connected(None))
        .step(EventInput::Initialized(None))
        .step(EventInput::Subscribed(None))
        .step(EventInput::Updated(None))
        .step(EventInput::Published(true))
        .step(EventInput::ConnectionLost);
    assert_eq!(m.doing, EventAction::Unsubscribe);
    assert_eq!(m.step(EventInput::Unsubscribed).doing, EventAction::Exit(ExitReason::Error));
}

#[test]
fn unicode_whitespace_is_trimmed() {
    let names = vec!["cpu".to_string()];
    match control_action("cpu click 1\u{a0}\u{3000}\t\n", &names) {
        ControlAction::Forward(0, m) => assert_eq!(m, "click 1"),
        _ => panic!("expected a forward"),
    }
}
