use statusbar::dzen_format::config::Config;
use statusbar::dzen_format::utils::bytes_to_ibibyte_string;
use statusbar::dzen_format::DzenBuilder;

fn count(s: &str, pat: &str) -> usize {
    s.matches(pat).count()
}

#[test]
fn colorize_unknown_name_is_literal() {
    let theme = Config::new();
    let s = DzenBuilder::from_str("x").use_theme(&theme).colorize("nosuch").to_string();
    assert_eq!(s, "^fg(nosuch)x^fg()");
}

#[test]
fn colorize_without_theme_is_literal() {
    let s = DzenBuilder::from_str("x").colorize("red").to_string();
    assert_eq!(s, "^fg(red)x^fg()");
}

#[test]
fn colorize_theme_name_is_resolved() {
    let mut theme = Config::new();
    theme.set_color("red", "#ff0000");
    let s = DzenBuilder::from_str("x").use_theme(&theme).colorize("red").to_string();
    assert_eq!(s, "^fg(#ff0000)x^fg()");
}

#[test]
fn newest_theme_entry_wins() {
    let mut theme = Config::new();
    theme.set_color("red", "#ff0000");
    theme.set_color("red", "#aa0000");
    assert_eq!(theme.resolve_color("red"), "#aa0000");
    assert_eq!(theme.resolve_color("blue"), "blue");
}

#[test]
fn background_wraps_section() {
    let s = DzenBuilder::from_str("x").background("blue").to_string();
    assert_eq!(s, "^bg(blue)x^bg()");
}

#[test]
fn icon_path_expands_home() {
    let mut theme = Config::new().with_paths("~/x/icons", "/home/u");
    theme.set_icon("battery", "kanna");
    let s = DzenBuilder::new().use_theme(&theme).append_icon("battery").to_string();
    assert!(s.ends_with("/home/u/x/icons/kanna.xpm)"));
    assert_eq!(s, "^i(/home/u/x/icons/kanna.xpm)");
}

#[test]
fn icon_path_without_tilde_is_kept() {
    let theme = Config::new().with_paths("/opt/icons", "/home/u");
    let s = DzenBuilder::from_str("x").use_theme(&theme).prepend_icon("cpu").to_string();
    assert_eq!(s, "^i(/opt/icons/cpu.xpm)x");
}

#[test]
fn click_wraps_with_button_and_command() {
    let s = DzenBuilder::from_str("x").click(3, "ls").to_string();
    assert_eq!(s, "^ca(3, ls)x^ca()");
}

#[test]
fn name_click_reports_to_the_control_channel() {
    let s = DzenBuilder::from_str("x").name_click(1, "cpu").to_string();
    assert_eq!(s, "^ca(1, echo cpu click 1 >> /tmp/statusbar_fifo)x^ca()");
}

#[test]
fn positions_and_padding() {
    assert_eq!(DzenBuilder::from_str("x").position(-3, 4).to_string(), "^pa(-3;4)x");
    assert_eq!(DzenBuilder::from_str("x").position_x(12).to_string(), "^pa(12)x");
    assert_eq!(DzenBuilder::from_str("x").shift(1, -2).to_string(), "^p(1;-2)x");
    assert_eq!(DzenBuilder::from_str("x").lpad(5).to_string(), "^p(5)x");
    assert_eq!(DzenBuilder::from_str("x").rpad(7).to_string(), "x^p(7)");
    assert_eq!(DzenBuilder::new().rect(2, 20).to_string(), "^r(2x20)");
}

#[test]
fn sections_limit_wrapping() {
    let s = DzenBuilder::from_str("a").new_section().add("b").colorize("red").to_string();
    assert_eq!(s, "a^fg(red)b^fg()");
    let t = DzenBuilder::from_str("a").new_section().add("b").everything().colorize("red").to_string();
    assert_eq!(t, "^fg(red)ab^fg()");
}

#[test]
fn add_not_empty_only_after_a_piece() {
    assert_eq!(DzenBuilder::new().add_not_empty("/").add("a").to_string(), "a");
    assert_eq!(DzenBuilder::from_str("a").add_not_empty("/").add("b").to_string(), "a/b");
    assert_eq!(DzenBuilder::from_str("a").maybe_add(false, "!").to_string(), "a");
    assert_eq!(DzenBuilder::from_str("a").maybe_add(true, "!").to_string(), "a!");
    assert_eq!(DzenBuilder::from_str("a").guard(true, |b| b.add("?")).to_string(), "a?");
    assert_eq!(DzenBuilder::from_str("a").pre("<").to_stringln(), "<a\n");
}

#[test]
fn color_step_takes_last_reached_threshold() {
    let steps = [(50, "yellow"), (75, "red")];
    assert_eq!(DzenBuilder::from_str("x").color_step(10, &steps).to_string(), "x");
    assert_eq!(DzenBuilder::from_str("x").color_step(50, &steps).to_string(), "^fg(yellow)x^fg()");
    assert_eq!(DzenBuilder::from_str("x").color_step(99, &steps).to_string(), "^fg(red)x^fg()");
}

#[test]
fn add_trunc_cuts_with_ellipsis() {
    assert_eq!(DzenBuilder::new().add_trunc(4, "abcdef".to_string()).to_string(), "abc…");
    assert_eq!(DzenBuilder::new().add_trunc(6, "abcdef".to_string()).to_string(), "abcdef");
    assert_eq!(DzenBuilder::new().add_trunc(3, "åäöü".to_string()).to_string(), "åä…");
}

#[test]
fn builder_scopes_are_balanced() {
    let s = DzenBuilder::from_str("a")
        .colorize("red")
        .background("blue")
        .click(1, "x")
        .new_section()
        .add("b")
        .colorize("green")
        .everything()
        .colorize("white")
        .lpad(3)
        .to_string();
    assert_eq!(count(&s, "^fg("), 2 * count(&s, "^fg()"));
    assert_eq!(count(&s, "^bg("), 2 * count(&s, "^bg()"));
    assert_eq!(count(&s, "^ca("), 2 * count(&s, "^ca()"));
    assert_eq!(count(&s, "^fg()"), 3);
}

#[test]
fn ibibyte_strings() {
    assert_eq!(bytes_to_ibibyte_string(0), "0 B");
    assert_eq!(bytes_to_ibibyte_string(1023), "1023 B");
    assert_eq!(bytes_to_ibibyte_string(1024), "1 KiB");
    assert_eq!(bytes_to_ibibyte_string(1536), "1.5 KiB");
    assert_eq!(bytes_to_ibibyte_string(1048576), "1 MiB");
    assert_eq!(bytes_to_ibibyte_string(3 * 1024 * 1024 * 1024 + 1024 * 1024 * 1024 / 10 * 7), "3.6 GiB");
    assert_eq!(bytes_to_ibibyte_string(u64::MAX), "15.9 EiB");
}
