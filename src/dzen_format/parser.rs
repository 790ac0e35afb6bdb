//! Splits markup text into plain text and tags so that tag arguments can be
//! rewritten, and puts it back together.
//!
//! A tag starts with `^`, one or two lowercase letters and `(`, unless the
//! `^` follows another `^`. Its argument runs to the parenthesis that closes
//! the opening one, nested pairs included.

use vstd::prelude::*;
use crate::text::copy_string;

verus! {

/// A token of markup text.
pub enum Token {
    Text(String),
    /// A tag's name and, when its parenthesis is closed, its argument.
    Tag(String, Option<String>),
}

/// A token as plain character sequences.
pub enum TokenView {
    Text(Seq<char>),
    Tag(Seq<char>, Option<Seq<char>>),
}

impl View for Token {
    type V = TokenView;

    open spec fn view(&self) -> TokenView {
        match self {
            Token::Text(t) => TokenView::Text(t@),
            Token::Tag(n, None) => TokenView::Tag(n@, None),
            Token::Tag(n, Some(b)) => TokenView::Tag(n@, Some(b@)),
        }
    }
}

pub open spec fn tokens_view(ts: Seq<Token>) -> Seq<TokenView> {
    ts.map_values(|t: Token| t@)
}

/// The text a token stands for.
pub open spec fn token_text(t: TokenView) -> Seq<char> {
    match t {
        TokenView::Text(x) => x,
        TokenView::Tag(n, None) => seq!['^'] + n + seq!['('],
        TokenView::Tag(n, Some(b)) => seq!['^'] + n + seq!['('] + b + seq![')'],
    }
}

/// The text a sequence of tokens stands for.
pub open spec fn render_tokens(ts: Seq<TokenView>) -> Seq<char>
    decreases ts.len(),
{
    if ts.len() == 0 {
        Seq::empty()
    } else {
        render_tokens(ts.drop_last()) + token_text(ts.last())
    }
}

pub open spec fn is_lower(c: char) -> bool {
    'a' <= c && c <= 'z'
}

/// The number of name letters of a tag opening `^xy(` at `k`, or 0 when
/// none opens there.
pub open spec fn name_len_at(s: Seq<char>, k: int) -> int {
    if 0 <= k && k + 2 < s.len() && s[k] == '^' && is_lower(s[k + 1]) {
        if s[k + 2] == '(' {
            1
        } else if k + 3 < s.len() && is_lower(s[k + 2]) && s[k + 3] == '(' {
            2
        } else {
            0
        }
    } else {
        0
    }
}

/// Whether a tag starts at `k`: an opening that does not follow a `^`.
pub open spec fn head_at(s: Seq<char>, k: int) -> bool {
    name_len_at(s, k) > 0 && (k == 0 || s[k - 1] != '^')
}

/// The first tag start at or after `i`.
pub open spec fn next_head(s: Seq<char>, i: int) -> Option<int>
    decreases s.len() - i,
{
    if i < 0 || i >= s.len() {
        None
    } else if head_at(s, i) {
        Some(i)
    } else {
        next_head(s, i + 1)
    }
}

/// Where the nesting `depth` reaches zero, scanning from `j`.
pub open spec fn close_at(s: Seq<char>, j: int, depth: int) -> Option<int>
    decreases s.len() - j,
{
    if j < 0 || j >= s.len() {
        None
    } else {
        let d = if s[j] == '(' {
            depth + 1
        } else if s[j] == ')' {
            depth - 1
        } else {
            depth
        };
        if d == 0 {
            Some(j)
        } else {
            close_at(s, j + 1, d)
        }
    }
}

/// The tokens of `s` from position `i` on.
pub open spec fn tokenize(s: Seq<char>, i: int) -> Seq<TokenView>
    decreases s.len() - i,
{
    if i < 0 || i >= s.len() {
        Seq::empty()
    } else {
        match next_head(s, i) {
            None => seq![TokenView::Text(s.subrange(i, s.len() as int))],
            Some(k) => {
                let n = name_len_at(s, k);
                let j = k + n + 2;
                let pre = if k > i {
                    seq![TokenView::Text(s.subrange(i, k))]
                } else {
                    Seq::empty()
                };
                let name = s.subrange(k + 1, k + 1 + n);
                if k < i || n <= 0 || j > s.len() {
                    Seq::empty()
                } else {
                    match close_at(s, j, 1) {
                        Some(c) => if c < j || c >= s.len() {
                            Seq::empty()
                        } else {
                            pre + seq![TokenView::Tag(name, Some(s.subrange(j, c)))] + tokenize(s, c + 1)
                        },
                        None => pre + seq![TokenView::Tag(name, None)] + tokenize(s, j),
                    }
                }
            },
        }
    }
}

pub proof fn lemma_next_head(s: Seq<char>, i: int)
    requires
        0 <= i,
    ensures
        match next_head(s, i) {
            Some(k) => i <= k < s.len() && head_at(s, k) && forall|m: int|
                i <= m < k ==> !head_at(s, m),
            None => forall|m: int| i <= m < s.len() ==> !head_at(s, m),
        },
    decreases s.len() - i,
{
    if i >= 0 && i < s.len() && !head_at(s, i) {
        lemma_next_head(s, i + 1);
    }
}

pub proof fn lemma_close_at(s: Seq<char>, j: int, depth: int)
    requires
        depth >= 1,
    ensures
        match close_at(s, j, depth) {
            Some(c) => j <= c < s.len() && s[c] == ')',
            None => true,
        },
    decreases s.len() - j,
{
    if j >= 0 && j < s.len() {
        let d = if s[j] == '(' {
            depth + 1
        } else if s[j] == ')' {
            depth - 1
        } else {
            depth
        };
        if d != 0 {
            lemma_close_at(s, j + 1, d);
        }
    }
}

proof fn lemma_render_push(ts: Seq<TokenView>, t: TokenView)
    ensures
        render_tokens(ts.push(t)) == render_tokens(ts) + token_text(t),
{
    assert(ts.push(t).drop_last() =~= ts);
}

proof fn lemma_render_append(a: Seq<TokenView>, b: Seq<TokenView>)
    ensures
        render_tokens(a + b) == render_tokens(a) + render_tokens(b),
    decreases b.len(),
{
    if b.len() == 0 {
        assert(a + b =~= a);
        assert(render_tokens(a) + render_tokens(b) =~= render_tokens(a));
    } else {
        lemma_render_append(a, b.drop_last());
        assert((a + b).drop_last() =~= a + b.drop_last());
        assert(render_tokens(a) + render_tokens(b.drop_last()) + token_text(b.last()) =~= render_tokens(a)
            + (render_tokens(b.drop_last()) + token_text(b.last())));
    }
}

proof fn lemma_render_one(t: TokenView)
    ensures
        render_tokens(seq![t]) == token_text(t),
{
    assert(seq![t].drop_last() =~= Seq::<TokenView>::empty());
    assert(render_tokens(Seq::<TokenView>::empty()) + token_text(t) =~= token_text(t));
}

/// Parsing and then rendering gives back the text from `i` on.
pub proof fn lemma_tokenize_renders(s: Seq<char>, i: int)
    requires
        0 <= i <= s.len(),
    ensures
        render_tokens(tokenize(s, i)) == s.subrange(i, s.len() as int),
    decreases s.len() - i,
{
    if i == s.len() {
        assert(s.subrange(i, s.len() as int) =~= Seq::<char>::empty());
    } else {
        lemma_next_head(s, i);
        match next_head(s, i) {
            None => {
                lemma_render_one(TokenView::Text(s.subrange(i, s.len() as int)));
            },
            Some(k) => {
                let n = name_len_at(s, k);
                let j = k + n + 2;
                let pre = if k > i {
                    seq![TokenView::Text(s.subrange(i, k))]
                } else {
                    Seq::<TokenView>::empty()
                };
                assert(render_tokens(pre) == s.subrange(i, k)) by {
                    if k > i {
                        lemma_render_one(TokenView::Text(s.subrange(i, k)));
                    } else {
                        assert(s.subrange(i, k) =~= Seq::<char>::empty());
                    }
                }
                let name = s.subrange(k + 1, k + 1 + n);
                lemma_close_at(s, j, 1);
                match close_at(s, j, 1) {
                    Some(c) => {
                        let tag = TokenView::Tag(name, Some(s.subrange(j, c)));
                        lemma_tokenize_renders(s, c + 1);
                        lemma_render_one(tag);
                        lemma_render_append(pre, seq![tag]);
                        lemma_render_append(pre + seq![tag], tokenize(s, c + 1));
                        assert(token_text(tag) =~= s.subrange(k, c + 1));
                        assert(s.subrange(i, k) + s.subrange(k, c + 1) + s.subrange(c + 1, s.len() as int)
                            =~= s.subrange(i, s.len() as int));
                    },
                    None => {
                        let tag = TokenView::Tag(name, None);
                        lemma_tokenize_renders(s, j);
                        lemma_render_one(tag);
                        lemma_render_append(pre, seq![tag]);
                        lemma_render_append(pre + seq![tag], tokenize(s, j));
                        assert(token_text(tag) =~= s.subrange(k, j));
                        assert(s.subrange(i, k) + s.subrange(k, j) + s.subrange(j, s.len() as int)
                            =~= s.subrange(i, s.len() as int));
                    },
                }
            },
        }
    }
}

/// Rendering the tokens of a parse gives back the parsed text.
pub proof fn lemma_round_trip(s: Seq<char>)
    ensures
        render_tokens(tokenize(s, 0)) == s,
{
    lemma_tokenize_renders(s, 0);
    assert(s.subrange(0, s.len() as int) =~= s);
}

/// What rewriting did to one token: text and unclosed tags stay as they
/// were, a closed tag's argument became what `f` returned for the tag's
/// name and argument.
pub open spec fn rewritten_by<F: Fn(&str, &str) -> String>(f: F, old: TokenView, new: TokenView) -> bool {
    match old {
        TokenView::Tag(n, Some(b)) => exists|a: &str, x: &str, out: String|
            #[trigger] f.ensures((a, x), out) && a@ == n && x@ == b && new == TokenView::Tag(n, Some(out@)),
        _ => new == old,
    }
}

/// Markup text split into tokens.
pub struct Parsed {
    tokens: Vec<Token>,
    rewritten: bool,
}

/// What a parse holds: its tokens, and whether their arguments were rewritten.
pub struct ParsedView {
    pub tokens: Seq<TokenView>,
    pub rewritten: bool,
}

impl View for Parsed {
    type V = ParsedView;

    closed spec fn view(&self) -> ParsedView {
        ParsedView { tokens: tokens_view(self.tokens@), rewritten: self.rewritten }
    }
}

fn name_len(s: &str, n: usize, k: usize) -> (r: usize)
    requires
        n == s@.len(),
        k < n,
    ensures
        r as int == name_len_at(s@, k as int),
{
    if n - k > 2 && s.get_char(k) == '^' {
        let a = s.get_char(k + 1);
        if a >= 'a' && a <= 'z' {
            let b = s.get_char(k + 2);
            if b == '(' {
                return 1;
            } else if n - k > 3 && b >= 'a' && b <= 'z' && s.get_char(k + 3) == '(' {
                return 2;
            }
        }
    }
    0
}

fn find_head(s: &str, n: usize, i: usize) -> (r: Option<usize>)
    requires
        n == s@.len(),
        i <= n,
    ensures
        match r {
            Some(k) => next_head(s@, i as int) == Some(k as int),
            None => next_head(s@, i as int) is None,
        },
{
    let mut k = i;
    while k < n
        invariant
            i <= k <= n,
            n == s@.len(),
            next_head(s@, i as int) == next_head(s@, k as int),
        decreases n - k,
    {
        if name_len(s, n, k) > 0 && (k == 0 || s.get_char(k - 1) != '^') {
            return Some(k);
        }
        k += 1;
    }
    None
}

/// The position of the parenthesis that closes an opening one just before
/// `j`, if any.
fn find_end_par(s: &str, n: usize, j: usize) -> (r: Option<usize>)
    requires
        n == s@.len(),
        j <= n,
    ensures
        match r {
            Some(c) => close_at(s@, j as int, 1) == Some(c as int),
            None => close_at(s@, j as int, 1) is None,
        },
{
    let mut depth: u128 = 1;
    let mut p = j;
    while p < n
        invariant
            j <= p <= n,
            n == s@.len(),
            1 <= depth <= 1 + (p - j),
            close_at(s@, j as int, 1) == close_at(s@, p as int, depth as int),
        decreases n - p,
    {
        let c = s.get_char(p);
        if c == ')' {
            depth -= 1;
        } else if c == '(' {
            depth += 1;
        }
        if depth == 0 {
            return Some(p);
        }
        p += 1;
    }
    None
}

fn slice_of(s: &str, from: usize, to: usize) -> (r: String)
    requires
        from <= to <= s@.len(),
    ensures
        r@ == s@.subrange(from as int, to as int),
{
    copy_string(s.substring_char(from, to))
}

impl Parsed {
    /// Splits markup text into tokens.
    pub fn parse(s: &str) -> (r: Self)
        ensures
            r@.tokens == tokenize(s@, 0),
            !r@.rewritten,
    {
        let n = s.unicode_len();
        let mut tokens: Vec<Token> = Vec::new();
        let mut i: usize = 0;
        while i < n
            invariant
                i <= n,
                n == s@.len(),
                tokens_view(tokens@) + tokenize(s@, i as int) == tokenize(s@, 0),
            decreases n - i,
        {
            let ghost t0 = tokens@;
            proof {
                lemma_next_head(s@, i as int);
            }
            match find_head(s, n, i) {
                None => {
                    tokens.push(Token::Text(slice_of(s, i, n)));
                    assert(tokens_view(tokens@) =~= tokens_view(t0) + tokenize(s@, i as int));
                    i = n;
                    assert(tokenize(s@, i as int) =~= Seq::<TokenView>::empty());
                    assert(tokens_view(tokens@) + tokenize(s@, i as int) =~= tokens_view(tokens@));
                },
                Some(k) => {
                    let ghost pre = if k > i {
                        seq![TokenView::Text(s@.subrange(i as int, k as int))]
                    } else {
                        Seq::<TokenView>::empty()
                    };
                    if k > i {
                        tokens.push(Token::Text(slice_of(s, i, k)));
                    }
                    assert(tokens_view(tokens@) =~= tokens_view(t0) + pre);
                    let ghost t1 = tokens@;
                    let nl = name_len(s, n, k);
                    let j = k + nl + 2;
                    let name = slice_of(s, k + 1, k + 1 + nl);
                    proof {
                        lemma_close_at(s@, j as int, 1);
                    }
                    match find_end_par(s, n, j) {
                        Some(c) => {
                            let body = slice_of(s, j, c);
                            tokens.push(Token::Tag(name, Some(body)));
                            assert(tokens_view(tokens@) =~= tokens_view(t1).push(
                                TokenView::Tag(name@, Some(body@)),
                            ));
                            assert(tokenize(s@, i as int) == pre + seq![TokenView::Tag(name@, Some(body@))]
                                + tokenize(s@, c + 1));
                            assert(tokens_view(tokens@) + tokenize(s@, c + 1) =~= tokens_view(t0)
                                + tokenize(s@, i as int));
                            i = c + 1;
                        },
                        None => {
                            tokens.push(Token::Tag(name, None));
                            assert(tokens_view(tokens@) =~= tokens_view(t1).push(TokenView::Tag(name@, None)));
                            assert(tokenize(s@, i as int) == pre + seq![TokenView::Tag(name@, None)]
                                + tokenize(s@, j as int));
                            assert(tokens_view(tokens@) + tokenize(s@, j as int) =~= tokens_view(t0)
                                + tokenize(s@, i as int));
                            i = j;
                        },
                    }
                },
            }
        }
        proof {
            assert(tokenize(s@, i as int) =~= Seq::<TokenView>::empty());
            assert(tokens_view(tokens@) =~= tokens_view(tokens@) + tokenize(s@, i as int));
        }
        Parsed { tokens, rewritten: false }
    }

    /// Replaces the argument of every closed tag by what `f` returns for the
    /// tag's name and argument. A parse is rewritten at most once.
    pub fn map_tag<F: Fn(&str, &str) -> String>(&mut self, f: F)
        requires
            !old(self)@.rewritten,
            forall|a: &str, b: &str| #[trigger] f.requires((a, b)),
        ensures
            final(self)@.rewritten,
            final(self)@.tokens.len() == old(self)@.tokens.len(),
            forall|i: int|
                0 <= i < old(self)@.tokens.len() ==> rewritten_by(
                    f,
                    #[trigger] old(self)@.tokens[i],
                    final(self)@.tokens[i],
                ),
    {
        let mut out: Vec<Token> = Vec::new();
        let mut i: usize = 0;
        while i < self.tokens.len()
            invariant
                i <= self.tokens@.len(),
                out@.len() == i,
                forall|k: int|
                    0 <= k < i ==> rewritten_by(
                        f,
                        #[trigger] tokens_view(self.tokens@)[k],
                        tokens_view(out@)[k],
                    ),
                forall|a: &str, b: &str| #[trigger] f.requires((a, b)),
            decreases self.tokens.len() - i,
        {
            let ghost o0 = out@;
            match &self.tokens[i] {
                Token::Text(t) => {
                    out.push(Token::Text(t.clone()));
                },
                Token::Tag(name, None) => {
                    out.push(Token::Tag(name.clone(), None));
                },
                Token::Tag(name, Some(body)) => {
                    let a = name.as_str();
                    let x = body.as_str();
                    let r = f(a, x);
                    proof {
                        assert(f.ensures((a, x), r));
                    }
                    out.push(Token::Tag(name.clone(), Some(r)));
                },
            }
            proof {
                assert(out@ == o0.push(out@[i as int]));
                assert forall|k: int| 0 <= k < i + 1 implies rewritten_by(
                    f,
                    #[trigger] tokens_view(self.tokens@)[k],
                    tokens_view(out@)[k],
                ) by {
                    if k < i {
                        assert(out@[k] == o0[k]);
                    }
                }
            }
            i += 1;
        }
        self.tokens = out;
        self.rewritten = true;
    }

    /// The markup text the tokens stand for.
    pub fn to_string(&self) -> (r: String)
        ensures
            r@ == render_tokens(self@.tokens),
    {
        let mut out = String::new();
        let mut i: usize = 0;
        while i < self.tokens.len()
            invariant
                i <= self.tokens@.len(),
                out@ == render_tokens(tokens_view(self.tokens@).take(i as int)),
            decreases self.tokens.len() - i,
        {
            let ghost before = out@;
            match &self.tokens[i] {
                Token::Text(t) => {
                    out.append(t.as_str());
                },
                Token::Tag(name, body) => {
                    out.append("^");
                    out.append(name.as_str());
                    out.append("(");
                    match body {
                        Some(b) => {
                            out.append(b.as_str());
                            out.append(")");
                        },
                        None => {},
                    }
                },
            }
            proof {
                reveal_strlit("^");
                reveal_strlit("(");
                reveal_strlit(")");
                let tv = tokens_view(self.tokens@);
                lemma_render_push(tv.take(i as int), tv[i as int]);
                assert(tv.take(i + 1) =~= tv.take(i as int).push(tv[i as int]));
                assert(out@ =~= before + token_text(tv[i as int]));
            }
            i += 1;
        }
        assert(tokens_view(self.tokens@).take(i as int) =~= tokens_view(self.tokens@));
        out
    }
}

} // verus!
