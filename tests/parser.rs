use statusbar::dzen_format::config::Config;
use statusbar::dzen_format::external::{fix_dzen_string, rewrite_arg};
use statusbar::dzen_format::parser::{Parsed, Token};

fn round_trip(s: &str) {
    assert_eq!(Parsed::parse(s).to_string(), s);
}

#[test]
fn render_of_parse_is_identity() {
    round_trip("");
    round_trip("plain text");
    round_trip("^fg(red)x^fg()");
    round_trip("a ^ca(1, echo (x) y)b^ca() c");
    round_trip("^p(3;4)^pa(10)^r(2x20)^i(/a/b.xpm)");
    round_trip("^^fg(not a tag)");
    round_trip("^fg(unclosed");
    round_trip("text ^fg(");
    round_trip("^ab(x)^abc(y)^A(z)");
}

#[test]
fn parse_splits_text_and_tags() {
    let mut p = Parsed::parse("a^fg(red)b^fg()");
    let mut seen = Vec::new();
    p.map_tag(|t, b| {
        format!("{}={}", t, b)
    });
    let s = p.to_string();
    seen.push(s);
    assert_eq!(seen[0], "a^fg(fg=red)b^fg(fg=)");
}

#[test]
fn escaped_caret_is_not_a_tag() {
    let mut p = Parsed::parse("^^fg(x)");
    p.map_tag(|_t, _b| "changed".to_string());
    assert_eq!(p.to_string(), "^^fg(x)");
}

#[test]
fn nested_parentheses_stay_in_the_argument() {
    let mut p = Parsed::parse("^ca(1, f(a(b)))x^ca()");
    p.map_tag(|t, b| if t == "ca" && !b.is_empty() { "[".to_string() + b + "]" } else { b.to_string() });
    assert_eq!(p.to_string(), "^ca([1, f(a(b))])x^ca()");
}

#[test]
fn tokens_are_exposed() {
    let t = Token::Text("x".to_string());
    match t {
        Token::Text(s) => assert_eq!(s, "x"),
        _ => panic!("wrong token"),
    }
}

#[test]
fn fix_resolves_icons_and_colors() {
    let mut theme = Config::new().with_paths("~/icons", "/home/u");
    theme.set_icon("battery", "kanna");
    theme.set_color("hotpink", "#ff69b4");
    let s = fix_dzen_string("^i(battery) ^fg(hotpink)x^fg() ^bg(nosuch)y^bg() ^p(3)", &theme);
    assert_eq!(s, "^i(/home/u/icons/kanna.xpm) ^fg(#ff69b4)x^fg() ^bg(nosuch)y^bg() ^p(3)");
    assert_eq!(rewrite_arg(&theme, "i", "cpu"), "/home/u/icons/cpu.xpm");
    assert_eq!(rewrite_arg(&theme, "p", "3"), "3");
}
