//! Markup that comes from outside (scripts, the control channel): icon
//! names become file paths and color names become theme values.

use vstd::prelude::*;
use crate::text::{copy_string, str_eq};
use crate::dzen_format::config::{expand_home, resolve, Config, ThemeView};
use crate::dzen_format::parser::{
    render_tokens, rewritten_by, tokenize, Parsed, TokenView,
};

verus! {

/// The new argument of a tag named `tag` whose argument was `arg`.
pub open spec fn theme_rewrite(t: ThemeView, tag: Seq<char>, arg: Seq<char>) -> Seq<char> {
    if tag == "i"@ {
        expand_home(t.icon_path + "/"@ + resolve(t.icon, arg) + ".xpm"@, t.home)
    } else if tag == "fg"@ || tag == "bg"@ {
        resolve(t.color, arg)
    } else {
        arg
    }
}

pub open spec fn rewrite_token(t: ThemeView, tok: TokenView) -> TokenView {
    match tok {
        TokenView::Tag(n, Some(b)) => TokenView::Tag(n, Some(theme_rewrite(t, n, b))),
        _ => tok,
    }
}

/// The markup with every closed tag's argument rewritten through the theme.
pub open spec fn fixed_markup(t: ThemeView, s: Seq<char>) -> Seq<char> {
    render_tokens(tokenize(s, 0).map_values(|tok: TokenView| rewrite_token(t, tok)))
}

/// The new argument of one tag.
pub fn rewrite_arg(theme: &Config, tag: &str, arg: &str) -> (r: String)
    ensures
        r@ == theme_rewrite(theme@, tag@, arg@),
{
    if str_eq(tag, "i") {
        let mut p = theme.icon_path.clone();
        p.append("/");
        let ico = theme.resolve_icon(arg);
        p.append(ico.as_str());
        p.append(".xpm");
        let n = p.as_str().unicode_len();
        if n > 0 && p.as_str().get_char(0) == '~' {
            let mut h = theme.home.clone();
            h.append(p.as_str().substring_char(1, n));
            assert(p@.subrange(1, n as int) =~= p@.drop_first());
            h
        } else {
            p
        }
    } else if str_eq(tag, "fg") || str_eq(tag, "bg") {
        theme.resolve_color(arg)
    } else {
        copy_string(arg)
    }
}

/// Rewrites markup from outside: `^i(name)` gets the theme's icon file
/// path, `^fg(name)` and `^bg(name)` the theme's color value.
pub fn fix_dzen_string(s: &str, theme: &Config) -> (r: String)
    ensures
        r@ == fixed_markup(theme@, s@),
{
    let mut p = Parsed::parse(s);
    let f = |tag: &str, arg: &str| -> (r: String)
        ensures
            r@ == theme_rewrite(theme@, tag@, arg@),
        { rewrite_arg(theme, tag, arg) };
    let ghost before = p@.tokens;
    p.map_tag(f);
    proof {
        let want = tokenize(s@, 0).map_values(|tok: TokenView| rewrite_token(theme@, tok));
        assert forall|i: int| 0 <= i < want.len() implies p@.tokens[i] == want[i] by {
            assert(rewritten_by(f, before[i], p@.tokens[i]));
        }
        assert(p@.tokens =~= want);
    }
    p.to_string()
}

} // verus!
