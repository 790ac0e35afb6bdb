//! The inline markup: a builder of tagged text, its parser, and helpers.

pub mod config;
pub mod utils;
pub mod parser;
pub mod external;
pub mod nesting;

use std::collections::VecDeque;
use vstd::prelude::*;
use crate::text::{concat, copy_string, decimal, i64_to_string, lemma_concat_append, lemma_concat_prepend,
    lemma_concat_push, signed_decimal, u64_to_string};
use crate::dzen_format::config::{default_theme, lookup, resolve, Config, ThemeView, ICON_PATH};
use crate::dzen_format::nesting::{all_neutral, closer, lemma_decimal_neutral, lemma_lit_neutral, lemma_nested_after,
    lemma_nested_before, lemma_nested_push, lemma_nested_scoped, lemma_nested_sections, lemma_nested_wrap,
    lemma_neutral_balanced, lemma_plain_neutral, lemma_signed_decimal_neutral, opener, plain, lemma_icon_neutral};

verus! {

/// The text of each piece, in order.
pub open spec fn pieces(s: Seq<String>) -> Seq<Seq<char>> {
    s.map_values(|x: String| x@)
}

/// What a builder holds: its theme, the frozen pieces and the pieces that
/// wrapping operations still apply to.
pub struct BuilderView {
    pub theme: Option<ThemeView>,
    pub res: Seq<Seq<char>>,
    pub work: Seq<Seq<char>>,
}

impl BuilderView {
    /// The theme that names are resolved through.
    pub open spec fn theme_used(self) -> ThemeView {
        match self.theme {
            Some(t) => t,
            None => default_theme(),
        }
    }

    /// The markup string: the frozen pieces, then the others.
    pub open spec fn rendered(self) -> Seq<char> {
        concat(self.res) + concat(self.work)
    }

    pub open spec fn with_work(self, work: Seq<Seq<char>>) -> BuilderView {
        BuilderView { work, ..self }
    }
}

/// `v` with `s` appended.
pub open spec fn sp_add(v: BuilderView, s: Seq<char>) -> BuilderView {
    v.with_work(v.work.push(s))
}

/// `v` with `s` appended if its current section holds a piece.
pub open spec fn sp_add_not_empty(v: BuilderView, s: Seq<char>) -> BuilderView {
    if v.work.len() > 0 { sp_add(v, s) } else { v }
}

/// `v` with its current section colored by `c`, resolved through the theme.
pub open spec fn sp_colorize(v: BuilderView, c: Seq<char>) -> BuilderView {
    v.with_work(scoped("fg"@, resolve(v.theme_used().color, c), v.work))
}

/// `v` with its current section frozen.
pub open spec fn sp_new_section(v: BuilderView) -> BuilderView {
    BuilderView { res: v.res + v.work, work: Seq::empty(), ..v }
}

/// `v` with everything unfrozen.
pub open spec fn sp_everything(v: BuilderView) -> BuilderView {
    BuilderView { res: Seq::empty(), work: v.res + v.work, ..v }
}

/// A color name the theme lacks is written into the tag as it is: never
/// replaced by an empty or an error text.
pub proof fn lemma_colorize_unknown_name(v: BuilderView, name: Seq<char>)
    requires
        lookup(v.theme_used().color, name) is None,
    ensures
        sp_colorize(v, name).rendered() == concat(v.res) + "^fg("@ + name + ")"@ + concat(v.work) + "^fg()"@,
{
    let w = v.work;
    assert(seq!['^'] + "fg"@ + seq!['('] =~= "^fg("@) by {
        reveal_strlit("fg");
        reveal_strlit("^fg(");
    }
    assert(seq!['^'] + "fg"@ + "()"@ =~= "^fg()"@) by {
        reveal_strlit("fg");
        reveal_strlit("()");
        reveal_strlit("^fg()");
    }
    let a = seq![")"@] + w;
    let b = seq![name] + a;
    let c = seq!["^fg("@] + b;
    lemma_concat_prepend(")"@, w);
    lemma_concat_prepend(name, a);
    lemma_concat_prepend("^fg("@, b);
    lemma_concat_push(c, "^fg()"@);
    assert(scoped("fg"@, name, w) =~= c.push("^fg()"@));
    assert(sp_colorize(v, name).rendered() =~= concat(v.res) + ("^fg("@ + (name + (")"@ + concat(w))) + "^fg()"@));
}

/// The pieces of an icon reference: `^i(<dir>/<file>.xpm)` with the
/// directory's `~` replaced by the home directory.
pub open spec fn icon_pieces(t: ThemeView, name: Seq<char>) -> Seq<Seq<char>> {
    let head = if t.icon_path.len() > 0 && t.icon_path[0] == '~' {
        seq!["^i("@, t.home, t.icon_path.drop_first()]
    } else {
        seq!["^i("@, t.icon_path]
    };
    head + seq!["/"@, resolve(t.icon, name), ".xpm"@, ")"@]
}

/// The pieces of a scope tag around `w`: `^<tag>(<arg>)`, `w`, `^<tag>()`.
pub open spec fn scoped(tag: Seq<char>, arg: Seq<char>, w: Seq<Seq<char>>) -> Seq<Seq<char>> {
    seq![seq!['^'] + tag + seq!['('], arg, ")"@] + w + seq![seq!['^'] + tag + "()"@]
}

/// Builds markup text from pieces. Wrapping operations (color, click
/// regions, positions) apply to the pieces added since the last
/// `new_section`.
pub struct DzenBuilder {
    theme: Option<Config>,
    work: VecDeque<String>,
    res: Vec<String>,
}

impl View for DzenBuilder {
    type V = BuilderView;

    closed spec fn view(&self) -> BuilderView {
        BuilderView {
            theme: match self.theme {
                Some(t) => Some(t@),
                None => None,
            },
            res: pieces(self.res@),
            work: pieces(self.work@),
        }
    }
}

fn same_pieces_vec(a: &Vec<String>, b: &Vec<String>) -> (r: bool)
    ensures
        r == (pieces(a@) == pieces(b@)),
{
    if a.len() != b.len() {
        assert(pieces(a@).len() != pieces(b@).len());
        return false;
    }
    let mut i: usize = 0;
    while i < a.len()
        invariant
            a@.len() == b@.len(),
            i <= a@.len(),
            forall|k: int| 0 <= k < i ==> pieces(a@)[k] == pieces(b@)[k],
        decreases a.len() - i,
    {
        if a[i] != b[i] {
            assert(pieces(a@)[i as int] != pieces(b@)[i as int]);
            return false;
        }
        i += 1;
    }
    assert(pieces(a@) =~= pieces(b@));
    true
}

fn same_pieces_deque(a: &VecDeque<String>, b: &VecDeque<String>) -> (r: bool)
    ensures
        r == (pieces(a@) == pieces(b@)),
{
    if a.len() != b.len() {
        assert(pieces(a@).len() != pieces(b@).len());
        return false;
    }
    let mut i: usize = 0;
    while i < a.len()
        invariant
            a@.len() == b@.len(),
            i <= a@.len(),
            forall|k: int| 0 <= k < i ==> pieces(a@)[k] == pieces(b@)[k],
        decreases a.len() - i,
    {
        if a[i] != b[i] {
            assert(pieces(a@)[i as int] != pieces(b@)[i as int]);
            return false;
        }
        i += 1;
    }
    assert(pieces(a@) =~= pieces(b@));
    true
}

fn lit(s: &str) -> (r: String)
    ensures
        r@ == s@,
{
    String::from_str(s)
}

impl DzenBuilder {
    /// What an empty builder without a theme holds.
    pub open spec fn new_view() -> BuilderView {
        BuilderView { theme: None, res: Seq::empty(), work: Seq::empty() }
    }

    /// An empty builder without a theme.
    pub fn new() -> (r: Self)
        ensures
            r@ == Self::new_view(),
            r@.nested(),
    {
        let r = DzenBuilder { theme: None, work: VecDeque::new(), res: Vec::new() };
        assert(r@.res =~= Seq::<Seq<char>>::empty());
        assert(r@.work =~= Seq::<Seq<char>>::empty());
        proof {
            lemma_neutral_balanced(Seq::<Seq<char>>::empty());
        }
        r
    }

    /// A builder holding one piece.
    pub fn from_str(s: &str) -> (r: Self)
        ensures
            plain(s@) ==> r@.nested(),
            r@ == (BuilderView { theme: None, res: Seq::empty(), work: seq![s@] }),
    {
        let r = Self::new().add(s);
        assert(r@.work =~= seq![s@]);
        r
    }

    /// The markup string.
    pub fn to_string(&self) -> (r: String)
        ensures
            r@ == self@.rendered(),
    {
        let mut out = String::new();
        let mut i: usize = 0;
        while i < self.res.len()
            invariant
                i <= self.res@.len(),
                out@ == concat(pieces(self.res@).take(i as int)),
            decreases self.res.len() - i,
        {
            proof {
                lemma_concat_push(pieces(self.res@).take(i as int), self.res@[i as int]@);
                assert(pieces(self.res@).take(i + 1) =~= pieces(self.res@).take(i as int).push(
                    self.res@[i as int]@,
                ));
            }
            out.append(self.res[i].as_str());
            i += 1;
        }
        assert(pieces(self.res@).take(i as int) =~= pieces(self.res@));
        let ghost head = out@;
        let mut j: usize = 0;
        while j < self.work.len()
            invariant
                j <= self.work@.len(),
                out@ == head + concat(pieces(self.work@).take(j as int)),
            decreases self.work.len() - j,
        {
            proof {
                lemma_concat_push(pieces(self.work@).take(j as int), self.work@[j as int]@);
                assert(pieces(self.work@).take(j + 1) =~= pieces(self.work@).take(j as int).push(
                    self.work@[j as int]@,
                ));
            }
            out.append(self.work[j].as_str());
            j += 1;
        }
        assert(pieces(self.work@).take(j as int) =~= pieces(self.work@));
        out
    }

    /// The markup string followed by a newline.
    pub fn to_stringln(self) -> (r: String)
        ensures
            r@ == self@.rendered() + "\n"@,
    {
        let r = self.add("\n");
        proof {
            lemma_concat_push(self@.work, "\n"@);
        }
        r.to_string()
    }

    /// Resolves color and icon names through `theme` from now on.
    pub fn use_theme(self, theme: &Config) -> (r: Self)
        ensures
            self@.nested() ==> r@.nested(),
            r@ == (BuilderView { theme: Some(theme@), ..self@ }),
    {
        DzenBuilder { theme: Some(theme.copy()), work: self.work, res: self.res }
    }

    /// Freezes the current pieces: later wrapping applies only to what
    /// comes after.
    pub fn new_section(self) -> (r: Self)
        ensures
            self@.nested() ==> r@.nested(),
            r@ == (BuilderView { res: self@.res + self@.work, work: Seq::empty(), ..self@ }),
            r@.rendered() == self@.rendered(),
    {
        proof {
            if self@.nested() { lemma_nested_sections(self@); }
        }
        let DzenBuilder { theme, mut work, mut res } = self;
        let n = work.len();
        let mut i: usize = 0;
        while i < n
            invariant
                n == work@.len(),
                i <= n,
                pieces(res@) == pieces(self.res@) + pieces(work@).take(i as int),
                work@ == self.work@,
            decreases n - i,
        {
            let s = copy_string(work[i].as_str());
            let ghost r0 = res@;
            res.push(s);
            assert(pieces(res@) =~= pieces(r0).push(s@));
            assert(pieces(work@).take(i + 1) =~= pieces(work@).take(i as int).push(work@[i as int]@));
            i += 1;
        }
        assert(pieces(work@).take(n as int) =~= pieces(work@));
        let r = DzenBuilder { theme, work: VecDeque::new(), res };
        assert(r@.work =~= Seq::<Seq<char>>::empty());
        proof {
            lemma_concat_append(self@.res, self@.work);
            assert(concat(Seq::<Seq<char>>::empty()) =~= Seq::<char>::empty());
            assert(r@.rendered() =~= self@.rendered());
        }
        r
    }

    /// Unfreezes everything: later wrapping applies to the whole text.
    pub fn everything(self) -> (r: Self)
        ensures
            self@.nested() ==> r@.nested(),
            r@ == (BuilderView { res: Seq::empty(), work: self@.res + self@.work, ..self@ }),
            r@.rendered() == self@.rendered(),
    {
        proof {
            if self@.nested() { lemma_nested_sections(self@); }
        }
        let DzenBuilder { theme, mut work, res } = self;
        let mut i: usize = res.len();
        while i > 0
            invariant
                i <= res@.len(),
                res@ == self.res@,
                pieces(work@) == pieces(res@).skip(i as int) + pieces(self.work@),
            decreases i,
        {
            i -= 1;
            let s = copy_string(res[i].as_str());
            let ghost w0 = work@;
            work.push_front(s);
            assert(pieces(work@) =~= seq![s@] + pieces(w0));
            assert(pieces(res@).skip(i as int) =~= seq![res@[i as int]@] + pieces(res@).skip(i + 1));
        }
        assert(pieces(res@).skip(0) =~= pieces(res@));
        let r = DzenBuilder { theme, work, res: Vec::new() };
        assert(r@.res =~= Seq::<Seq<char>>::empty());
        proof {
            lemma_concat_append(self@.res, self@.work);
            assert(concat(Seq::<Seq<char>>::empty()) =~= Seq::<char>::empty());
            assert(r@.rendered() =~= self@.rendered());
        }
        r
    }

    /// A builder with the same theme and pieces.
    pub fn duplicate(&self) -> (r: Self)
        ensures
            r@ == self@,
    {
        let theme = match &self.theme {
            Some(t) => Some(t.copy()),
            None => None,
        };
        let mut res: Vec<String> = Vec::new();
        let mut i: usize = 0;
        while i < self.res.len()
            invariant
                i <= self.res@.len(),
                pieces(res@) == pieces(self.res@).take(i as int),
            decreases self.res.len() - i,
        {
            let ghost r0 = res@;
            res.push(self.res[i].clone());
            assert(pieces(res@) =~= pieces(r0).push(self.res@[i as int]@));
            assert(pieces(self.res@).take(i + 1) =~= pieces(self.res@).take(i as int).push(self.res@[i as int]@));
            i += 1;
        }
        let mut work: VecDeque<String> = VecDeque::new();
        let mut j: usize = 0;
        while j < self.work.len()
            invariant
                j <= self.work@.len(),
                pieces(work@) == pieces(self.work@).take(j as int),
            decreases self.work.len() - j,
        {
            let ghost w0 = work@;
            work.push_back(self.work[j].clone());
            assert(pieces(work@) =~= pieces(w0).push(self.work@[j as int]@));
            assert(pieces(self.work@).take(j + 1) =~= pieces(self.work@).take(j as int).push(self.work@[j as int]@));
            j += 1;
        }
        assert(pieces(self.res@).take(i as int) =~= pieces(self.res@));
        assert(pieces(self.work@).take(j as int) =~= pieces(self.work@));
        DzenBuilder { theme, work, res }
    }

    /// Whether two builders hold the same theme and pieces.
    pub fn same_as(&self, other: &DzenBuilder) -> (r: bool)
        ensures
            r == (self@ == other@),
    {
        let t = match (&self.theme, &other.theme) {
            (Some(a), Some(b)) => a.same_as(b),
            (None, None) => true,
            _ => false,
        };
        t && same_pieces_vec(&self.res, &other.res) && same_pieces_deque(&self.work, &other.work)
    }

    fn push_piece(self, s: String) -> (r: Self)
        ensures
            r@ == self@.with_work(self@.work.push(s@)),
    {
        let DzenBuilder { theme, mut work, res } = self;
        work.push_back(s);
        let r = DzenBuilder { theme, work, res };
        assert(r@.work =~= self@.work.push(s@));
        r
    }

    fn pre_piece(self, s: String) -> (r: Self)
        ensures
            r@ == self@.with_work(seq![s@] + self@.work),
    {
        let DzenBuilder { theme, mut work, res } = self;
        work.push_front(s);
        let r = DzenBuilder { theme, work, res };
        assert(r@.work =~= seq![s@] + self@.work);
        r
    }

    /// Appends a piece of text.
    pub fn add(self, s: &str) -> (r: Self)
        ensures
            self@.nested() && plain(s@) ==> r@.nested(),
            r@ == self@.with_work(self@.work.push(s@)),
    {
        proof {
            if self@.nested() && plain(s@) { lemma_plain_neutral(s@); lemma_nested_push(self@, s@); }
        }
        self.push_piece(copy_string(s))
    }

    /// Prepends a piece of text.
    pub fn pre(self, s: &str) -> (r: Self)
        ensures
            self@.nested() && plain(s@) ==> r@.nested(),
            r@ == self@.with_work(seq![s@] + self@.work),
    {
        proof {
            if self@.nested() && plain(s@) { lemma_plain_neutral(s@); lemma_nested_push(self@, s@); }
        }
        self.pre_piece(copy_string(s))
    }

    /// Appends `s` only if the current section already holds a piece.
    pub fn add_not_empty(self, s: &str) -> (r: Self)
        ensures
            self@.nested() && plain(s@) ==> r@.nested(),
            self@.work.len() > 0 ==> r@ == self@.with_work(self@.work.push(s@)),
            self@.work.len() == 0 ==> r@ == self@,
    {
        proof {
            if self@.nested() && plain(s@) { lemma_plain_neutral(s@); lemma_nested_push(self@, s@); }
        }
        let e = self.work.len() > 0;
        self.maybe_add(e, s)
    }

    /// Applies `f` when `b` holds.
    pub fn guard<F: FnOnce(Self) -> Self>(self, b: bool, f: F) -> (r: Self)
        requires
            b ==> f.requires((self,)),
        ensures
            b ==> f.ensures((self,), r),
            !b ==> r == self,
    {
        if b {
            f(self)
        } else {
            self
        }
    }

    /// Appends `s` when `b` holds.
    pub fn maybe_add(self, b: bool, s: &str) -> (r: Self)
        ensures
            self@.nested() && plain(s@) ==> r@.nested(),
            b ==> r@ == self@.with_work(self@.work.push(s@)),
            !b ==> r@ == self@,
    {
        proof {
            if self@.nested() && plain(s@) { lemma_plain_neutral(s@); lemma_nested_push(self@, s@); }
        }
        if b {
            self.add(s)
        } else {
            self
        }
    }

    fn color_name(&self, name: &str) -> (r: String)
        ensures
            r@ == resolve(self@.theme_used().color, name@),
    {
        match &self.theme {
            Some(t) => t.resolve_color(name),
            None => copy_string(name),
        }
    }

    fn wrap(self, open: String, arg: String, close: String) -> (r: Self)
        ensures
            r@ == self@.with_work(seq![open@, arg@, ")"@] + self@.work + seq![close@]),
    {
        let r = self.push_piece(close).pre(")").pre_piece(arg).pre_piece(open);
        assert(r@.work =~= seq![open@, arg@, ")"@] + self@.work + seq![close@]);
        r
    }

    /// Colors the current section; a theme color name is replaced by its
    /// value, any other name is used as it is.
    pub fn colorize(self, color: &str) -> (r: Self)
        ensures
            self@.nested() && plain(resolve(self@.theme_used().color, color@)) ==> r@.nested(),
            r@ == self@.with_work(scoped("fg"@, resolve(self@.theme_used().color, color@), self@.work)),
    {
        proof {
            if plain(resolve(self@.theme_used().color, color@)) && self@.nested() { lemma_plain_neutral(resolve(self@.theme_used().color, color@)); lemma_nested_scoped(self@, "fg"@, resolve(self@.theme_used().color, color@)); }
        }
        let col = self.color_name(color);
        let r = self.wrap(lit("^fg("), col, lit("^fg()"));
        assert(seq!['^'] + "fg"@ + seq!['('] =~= "^fg("@) by { reveal_strlit("fg"); reveal_strlit("^fg("); }
        assert(seq!['^'] + "fg"@ + "()"@ =~= "^fg()"@) by {
            reveal_strlit("fg");
            reveal_strlit("()");
            reveal_strlit("^fg()");
        }
        r
    }

    /// Gives the current section a background color, resolved as in `colorize`.
    pub fn background(self, color: &str) -> (r: Self)
        ensures
            self@.nested() && plain(resolve(self@.theme_used().color, color@)) ==> r@.nested(),
            r@ == self@.with_work(scoped("bg"@, resolve(self@.theme_used().color, color@), self@.work)),
    {
        proof {
            if plain(resolve(self@.theme_used().color, color@)) && self@.nested() { lemma_plain_neutral(resolve(self@.theme_used().color, color@)); lemma_nested_scoped(self@, "bg"@, resolve(self@.theme_used().color, color@)); }
        }
        let col = self.color_name(color);
        let r = self.wrap(lit("^bg("), col, lit("^bg()"));
        assert(seq!['^'] + "bg"@ + seq!['('] =~= "^bg("@) by { reveal_strlit("bg"); reveal_strlit("^bg("); }
        assert(seq!['^'] + "bg"@ + "()"@ =~= "^bg()"@) by {
            reveal_strlit("bg");
            reveal_strlit("()");
            reveal_strlit("^bg()");
        }
        r
    }

    /// Makes the current section a clickable region that runs `command`
    /// when mouse button `button` is pressed.
    pub fn click(self, button: usize, command: &str) -> (r: Self)
        ensures
            self@.nested() && plain(command@) ==> r@.nested(),
            r@ == self@.with_work(
                seq!["^ca("@, decimal(button as nat), ", "@, command@, ")"@] + self@.work + seq!["^ca()"@],
            ),
    {
        proof {
            if plain(command@) && self@.nested() { lemma_plain_neutral(command@); lemma_lit_neutral(); lemma_decimal_neutral(button as nat); assert(all_neutral(seq![decimal(button as nat), ", "@, command@, ")"@])); lemma_nested_wrap(self@, "ca"@, seq![decimal(button as nat), ", "@, command@, ")"@]); reveal_strlit("ca"); reveal_strlit("^ca("); reveal_strlit("^ca()"); reveal_strlit("()"); assert(opener("ca"@) =~= "^ca("@); assert(closer("ca"@) =~= "^ca()"@); assert(seq!["^ca("@, decimal(button as nat), ", "@, command@, ")"@] =~= seq![opener("ca"@)] + seq![decimal(button as nat), ", "@, command@, ")"@]); }
        }
        let r = self.push_piece(lit("^ca()")).pre(")").pre(command).pre(", ").pre_piece(
            u64_to_string(button as u64),
        ).pre("^ca(");
        assert(r@.work =~= seq!["^ca("@, decimal(button as nat), ", "@, command@, ")"@] + self@.work
            + seq!["^ca()"@]);
        r
    }

    /// Puts the current section at absolute position (x, y).
    pub fn position(self, x: isize, y: isize) -> (r: Self)
        ensures
            self@.nested() ==> r@.nested(),
            r@ == self@.with_work(
                seq!["^pa("@, signed_decimal(x as int), ";"@, signed_decimal(y as int), ")"@] + self@.work,
            ),
    {
        proof {
            if self@.nested() { lemma_lit_neutral(); lemma_signed_decimal_neutral(x as int); lemma_signed_decimal_neutral(y as int); assert(all_neutral(seq!["^pa("@, signed_decimal(x as int), ";"@, signed_decimal(y as int), ")"@])); lemma_nested_before(self@, seq!["^pa("@, signed_decimal(x as int), ";"@, signed_decimal(y as int), ")"@]); }
        }
        let r = self.pre(")").pre_piece(i64_to_string(y as i64)).pre(";").pre_piece(
            i64_to_string(x as i64),
        ).pre("^pa(");
        assert(r@.work =~= seq!["^pa("@, signed_decimal(x as int), ";"@, signed_decimal(y as int), ")"@]
            + self@.work);
        r
    }

    /// Puts the current section at absolute horizontal position x.
    pub fn position_x(self, x: isize) -> (r: Self)
        ensures
            self@.nested() ==> r@.nested(),
            r@ == self@.with_work(seq!["^pa("@, signed_decimal(x as int), ")"@] + self@.work),
    {
        proof {
            if self@.nested() { lemma_lit_neutral(); lemma_signed_decimal_neutral(x as int); assert(all_neutral(seq!["^pa("@, signed_decimal(x as int), ")"@])); lemma_nested_before(self@, seq!["^pa("@, signed_decimal(x as int), ")"@]); }
        }
        let r = self.pre(")").pre_piece(i64_to_string(x as i64)).pre("^pa(");
        assert(r@.work =~= seq!["^pa("@, signed_decimal(x as int), ")"@] + self@.work);
        r
    }

    /// Shifts the current section by (x, y) pixels.
    pub fn shift(self, x: isize, y: isize) -> (r: Self)
        ensures
            self@.nested() ==> r@.nested(),
            r@ == self@.with_work(
                seq!["^p("@, signed_decimal(x as int), ";"@, signed_decimal(y as int), ")"@] + self@.work,
            ),
    {
        proof {
            if self@.nested() { lemma_lit_neutral(); lemma_signed_decimal_neutral(x as int); lemma_signed_decimal_neutral(y as int); assert(all_neutral(seq!["^p("@, signed_decimal(x as int), ";"@, signed_decimal(y as int), ")"@])); lemma_nested_before(self@, seq!["^p("@, signed_decimal(x as int), ";"@, signed_decimal(y as int), ")"@]); }
        }
        let r = self.pre(")").pre_piece(i64_to_string(y as i64)).pre(";").pre_piece(
            i64_to_string(x as i64),
        ).pre("^p(");
        assert(r@.work =~= seq!["^p("@, signed_decimal(x as int), ";"@, signed_decimal(y as int), ")"@]
            + self@.work);
        r
    }

    /// A spacer of `x` pixels before the current section.
    pub fn lpad(self, x: usize) -> (r: Self)
        ensures
            self@.nested() ==> r@.nested(),
            r@ == self@.with_work(seq!["^p("@, decimal(x as nat), ")"@] + self@.work),
    {
        proof {
            if self@.nested() { lemma_lit_neutral(); lemma_decimal_neutral(x as nat); assert(all_neutral(seq!["^p("@, decimal(x as nat), ")"@])); lemma_nested_before(self@, seq!["^p("@, decimal(x as nat), ")"@]); }
        }
        let r = self.pre(")").pre_piece(u64_to_string(x as u64)).pre("^p(");
        assert(r@.work =~= seq!["^p("@, decimal(x as nat), ")"@] + self@.work);
        r
    }

    /// A spacer of `x` pixels after the current section.
    pub fn rpad(self, x: usize) -> (r: Self)
        ensures
            self@.nested() ==> r@.nested(),
            r@ == self@.with_work(self@.work + seq!["^p("@, decimal(x as nat), ")"@]),
    {
        proof {
            if self@.nested() { lemma_lit_neutral(); lemma_decimal_neutral(x as nat); assert(all_neutral(seq!["^p("@, decimal(x as nat), ")"@])); lemma_nested_after(self@, seq!["^p("@, decimal(x as nat), ")"@]); }
        }
        let r = self.add("^p(").push_piece(u64_to_string(x as u64)).add(")");
        assert(r@.work =~= self@.work + seq!["^p("@, decimal(x as nat), ")"@]);
        r
    }

    /// A filled rectangle of `width` by `height` pixels.
    pub fn rect(self, width: usize, height: usize) -> (r: Self)
        ensures
            self@.nested() ==> r@.nested(),
            r@ == self@.with_work(
                self@.work + seq!["^r("@, decimal(width as nat), "x"@, decimal(height as nat), ")"@],
            ),
    {
        proof {
            if self@.nested() { lemma_lit_neutral(); lemma_decimal_neutral(width as nat); lemma_decimal_neutral(height as nat); assert(all_neutral(seq!["^r("@, decimal(width as nat), "x"@, decimal(height as nat), ")"@])); lemma_nested_after(self@, seq!["^r("@, decimal(width as nat), "x"@, decimal(height as nat), ")"@]); }
        }
        let r = self.add("^r(").push_piece(u64_to_string(width as u64)).add("x").push_piece(
            u64_to_string(height as u64),
        ).add(")");
        assert(r@.work =~= self@.work + seq!["^r("@, decimal(width as nat), "x"@, decimal(height as nat), ")"@]);
        r
    }

    fn icon_strs(&self, icon: &str) -> (r: Vec<String>)
        ensures
            pieces(r@) == icon_pieces(self@.theme_used(), icon@),
    {
        let mut v: Vec<String> = Vec::new();
        v.push(lit("^i("));
        let (path, home, ico) = match &self.theme {
            Some(t) => (t.icon_path.as_str(), t.home.as_str(), t.resolve_icon(icon)),
            None => (ICON_PATH, "", copy_string(icon)),
        };
        assert(path@ == self@.theme_used().icon_path && home@ == self@.theme_used().home
            && ico@ == resolve(self@.theme_used().icon, icon@)) by {
            reveal_strlit("");
        }
        let n = path.unicode_len();
        if n > 0 && path.get_char(0) == '~' {
            v.push(copy_string(home));
            v.push(copy_string(path.substring_char(1, n)));
            assert(path@.subrange(1, n as int) =~= path@.drop_first());
        } else {
            v.push(copy_string(path));
        }
        v.push(lit("/"));
        v.push(ico);
        v.push(lit(".xpm"));
        v.push(lit(")"));
        assert(pieces(v@) =~= icon_pieces(self@.theme_used(), icon@));
        v
    }

    /// Appends an icon reference.
    pub fn append_icon(self, icon: &str) -> (r: Self)
        ensures
            self@.nested() && plain(self@.theme_used().home) && plain(self@.theme_used().icon_path)
                && plain(resolve(self@.theme_used().icon, icon@)) ==> r@.nested(),
            r@ == self@.with_work(self@.work + icon_pieces(self@.theme_used(), icon@)),
    {
        proof {
            if self@.nested() && plain(self@.theme_used().home) && plain(self@.theme_used().icon_path) && plain(resolve(self@.theme_used().icon, icon@)) { lemma_icon_neutral(self@.theme_used(), icon@); lemma_nested_after(self@, icon_pieces(self@.theme_used(), icon@)); }
        }
        let v = self.icon_strs(icon);
        let mut b = self;
        let mut i: usize = 0;
        while i < v.len()
            invariant
                i <= v@.len(),
                b@ == self@.with_work(self@.work + pieces(v@).take(i as int)),
            decreases v.len() - i,
        {
            b = b.add(v[i].as_str());
            assert(self@.work + pieces(v@).take(i + 1) =~= self@.work + pieces(v@).take(i as int) + seq![v@[i as int]@]);
            assert(b@.work =~= self@.work + pieces(v@).take(i + 1));
            i += 1;
        }
        assert(pieces(v@).take(i as int) =~= pieces(v@));
        b
    }

    /// Prepends an icon reference.
    pub fn prepend_icon(self, icon: &str) -> (r: Self)
        ensures
            self@.nested() && plain(self@.theme_used().home) && plain(self@.theme_used().icon_path)
                && plain(resolve(self@.theme_used().icon, icon@)) ==> r@.nested(),
            r@ == self@.with_work(icon_pieces(self@.theme_used(), icon@) + self@.work),
    {
        proof {
            if self@.nested() && plain(self@.theme_used().home) && plain(self@.theme_used().icon_path) && plain(resolve(self@.theme_used().icon, icon@)) { lemma_icon_neutral(self@.theme_used(), icon@); lemma_nested_before(self@, icon_pieces(self@.theme_used(), icon@)); }
        }
        let v = self.icon_strs(icon);
        let mut b = self;
        let mut i: usize = v.len();
        while i > 0
            invariant
                i <= v@.len(),
                b@ == self@.with_work(pieces(v@).skip(i as int) + self@.work),
            decreases i,
        {
            i -= 1;
            b = b.pre(v[i].as_str());
            assert(pieces(v@).skip(i as int) =~= seq![v@[i as int]@] + pieces(v@).skip(i + 1));
            assert(b@.work =~= pieces(v@).skip(i as int) + self@.work);
        }
        assert(pieces(v@).skip(0) =~= pieces(v@));
        b
    }
}

} // verus!
