//! Scope tags come in pairs: a builder's pieces open and close color,
//! background and click-region scopes in properly nested order.

use vstd::prelude::*;
use crate::text::{decimal, signed_decimal};
use crate::dzen_format::{icon_pieces, scoped, BuilderView};
use crate::dzen_format::config::{resolve, ThemeView};
use crate::dzen_format::utils::truncated;

verus! {

/// The tags that open a scope and close it with an empty argument.
pub open spec fn is_scope_tag(t: Seq<char>) -> bool {
    t == "fg"@ || t == "bg"@ || t == "ca"@
}

pub open spec fn opener(t: Seq<char>) -> Seq<char> {
    seq!['^'] + t + seq!['(']
}

pub open spec fn closer(t: Seq<char>) -> Seq<char> {
    seq!['^'] + t + "()"@
}

/// How a piece changes the nesting depth of tag `t`.
pub open spec fn delta(p: Seq<char>, t: Seq<char>) -> int {
    if p == opener(t) {
        1
    } else if p == closer(t) {
        -1
    } else {
        0
    }
}

/// The nesting depth of `t` after the pieces.
pub open spec fn net(ps: Seq<Seq<char>>, t: Seq<char>) -> int
    decreases ps.len(),
{
    if ps.len() == 0 {
        0
    } else {
        net(ps.drop_last(), t) + delta(ps.last(), t)
    }
}

/// Every scope tag is closed as often as it is opened, and never closed
/// before it is opened, counting whole pieces: a piece that is exactly a
/// scope's opening or closing tag.
pub open spec fn balanced(ps: Seq<Seq<char>>) -> bool {
    forall|t: Seq<char>|
        is_scope_tag(t) ==> net(ps, t) == 0 && forall|k: int| 0 <= k <= ps.len() ==> #[trigger] net(ps.take(k), t) >= 0
}

/// Text with no `^`: it can hold no tag at all.
pub open spec fn plain(s: Seq<char>) -> bool {
    forall|i: int| 0 <= i < s.len() ==> s[i] != '^'
}

pub proof fn lemma_plain_neutral(s: Seq<char>)
    requires
        plain(s),
    ensures
        neutral(s),
{
    if s.len() > 0 {
        assert(s[0] != '^');
    }
    lemma_first_not_caret(s);
}

/// A piece that neither opens nor closes a scope.
pub open spec fn neutral(p: Seq<char>) -> bool {
    forall|t: Seq<char>| is_scope_tag(t) ==> #[trigger] delta(p, t) == 0
}

pub open spec fn all_neutral(ps: Seq<Seq<char>>) -> bool {
    forall|i: int| 0 <= i < ps.len() ==> neutral(#[trigger] ps[i])
}

impl BuilderView {
    /// Both the frozen pieces and the current section are balanced.
    pub open spec fn nested(self) -> bool {
        balanced(self.res) && balanced(self.work)
    }
}

pub proof fn lemma_net_append(a: Seq<Seq<char>>, b: Seq<Seq<char>>, t: Seq<char>)
    ensures
        net(a + b, t) == net(a, t) + net(b, t),
    decreases b.len(),
{
    if b.len() == 0 {
        assert(a + b =~= a);
    } else {
        lemma_net_append(a, b.drop_last(), t);
        assert((a + b).drop_last() =~= a + b.drop_last());
        assert((a + b).last() == b.last());
    }
}

pub proof fn lemma_net_neutral(ps: Seq<Seq<char>>, t: Seq<char>)
    requires
        all_neutral(ps),
        is_scope_tag(t),
    ensures
        net(ps, t) == 0,
    decreases ps.len(),
{
    if ps.len() > 0 {
        assert(neutral(ps[ps.len() - 1]));
        assert(all_neutral(ps.drop_last())) by {
            assert forall|i: int| 0 <= i < ps.drop_last().len() implies neutral(#[trigger] ps.drop_last()[i]) by {
                assert(ps.drop_last()[i] == ps[i]);
            }
        }
        lemma_net_neutral(ps.drop_last(), t);
    }
}

pub proof fn lemma_neutral_balanced(ps: Seq<Seq<char>>)
    requires
        all_neutral(ps),
    ensures
        balanced(ps),
{
    assert forall|t: Seq<char>| is_scope_tag(t) implies net(ps, t) == 0 && forall|k: int| 0 <= k <= ps.len() ==> #[trigger] net(ps.take(k), t) >= 0 by {
        lemma_net_neutral(ps, t);
        assert forall|k: int| 0 <= k <= ps.len() implies #[trigger] net(ps.take(k), t) >= 0 by {
            assert(all_neutral(ps.take(k))) by {
                assert forall|i: int| 0 <= i < ps.take(k).len() implies neutral(#[trigger] ps.take(k)[i]) by {
                    assert(ps.take(k)[i] == ps[i]);
                }
            }
            lemma_net_neutral(ps.take(k), t);
        }
    }
}

pub proof fn lemma_balanced_append(a: Seq<Seq<char>>, b: Seq<Seq<char>>)
    requires
        balanced(a),
        balanced(b),
    ensures
        balanced(a + b),
{
    assert forall|t: Seq<char>| is_scope_tag(t) implies net(a + b, t) == 0 && forall|k: int| 0 <= k <= (a + b).len() ==> #[trigger] net((a + b).take(k), t) >= 0 by {
        lemma_net_append(a, b, t);
        assert forall|k: int| 0 <= k <= (a + b).len() implies #[trigger] net((a + b).take(k), t) >= 0 by {
            if k <= a.len() {
                assert((a + b).take(k) =~= a.take(k));
            } else {
                assert((a + b).take(k) =~= a + b.take(k - a.len()));
                lemma_net_append(a, b.take(k - a.len()), t);
                assert(net(b.take(k - a.len()), t) >= 0);
            }
        }
    }
}

/// Wrapping balanced pieces in a scope keeps them balanced.
pub proof fn lemma_wrap_balanced(tag: Seq<char>, mid: Seq<Seq<char>>, w: Seq<Seq<char>>)
    requires
        is_scope_tag(tag),
        all_neutral(mid),
        balanced(w),
    ensures
        balanced(seq![opener(tag)] + mid + w + seq![closer(tag)]),
{
    let head = seq![opener(tag)] + mid;
    let tail = seq![closer(tag)];
    let all = head + w + tail;
    assert forall|t: Seq<char>| is_scope_tag(t) implies net(all, t) == 0 && forall|k: int| 0 <= k <= all.len() ==> #[trigger] net(all.take(k), t) >= 0 by {
        let d = if t == tag { 1int } else { 0int };
        assert(tag.len() == 2 && t.len() == 2) by { reveal_strlit("fg"); reveal_strlit("bg"); reveal_strlit("ca"); }
        assert(opener(tag).len() == 4 && closer(tag).len() == 5 && opener(t).len() == 4 && closer(t).len() == 5) by { reveal_strlit("()"); }
        assert(delta(opener(tag), t) == d) by {
            if t != tag {
                assert(opener(tag).subrange(1, 3) =~= tag);
                assert(opener(t).subrange(1, 3) =~= t);
            }
        }
        assert(delta(closer(tag), t) == -d) by {
            if t != tag {
                assert(closer(tag).subrange(1, 3) =~= tag);
                assert(closer(t).subrange(1, 3) =~= t);
            }
        }
        let h1 = seq![opener(tag)];
        assert(h1.drop_last() =~= Seq::<Seq<char>>::empty());
        assert(net(Seq::<Seq<char>>::empty(), t) == 0);
        assert(net(h1, t) == net(h1.drop_last(), t) + delta(h1.last(), t));
        assert(net(h1, t) == d);
        lemma_net_neutral(mid, t);
        lemma_net_append(h1, mid, t);
        assert(tail.drop_last() =~= Seq::<Seq<char>>::empty());
        assert(net(tail, t) == net(tail.drop_last(), t) + delta(tail.last(), t));
        assert(net(tail, t) == -d);
        lemma_net_append(head, w, t);
        lemma_net_append(head + w, tail, t);
        assert forall|k: int| 0 <= k <= all.len() implies #[trigger] net(all.take(k), t) >= 0 by {
            if k == 0 {
                assert(all.take(0) =~= Seq::<Seq<char>>::empty());
            } else if k <= head.len() {
                assert(all.take(k) =~= h1 + mid.take(k - 1));
                assert(all_neutral(mid.take(k - 1))) by {
                    assert forall|i: int| 0 <= i < mid.take(k - 1).len() implies neutral(#[trigger] mid.take(k - 1)[i]) by {
                        assert(mid.take(k - 1)[i] == mid[i]);
                    }
                }
                lemma_net_neutral(mid.take(k - 1), t);
                lemma_net_append(h1, mid.take(k - 1), t);
            } else if k <= head.len() + w.len() {
                assert(all.take(k) =~= head + w.take(k - head.len()));
                lemma_net_append(head, w.take(k - head.len()), t);
            } else {
                assert(all.take(k) =~= all);
            }
        }
    }
}

/// A piece whose second character is not that of a scope tag is neutral.
pub proof fn lemma_neutral_second(p: Seq<char>)
    requires
        p.len() >= 2,
        p[1] != 'f' && p[1] != 'b' && p[1] != 'c',
    ensures
        neutral(p),
{
    assert forall|t: Seq<char>| is_scope_tag(t) implies #[trigger] delta(p, t) == 0 by {
        reveal_strlit("fg");
        reveal_strlit("bg");
        reveal_strlit("ca");
        assert(opener(t)[1] == t[0]);
        assert(closer(t)[1] == t[0]);
    }
}

/// Pieces kept balanced when neutral pieces are added at either end.
pub proof fn lemma_add_neutral(w: Seq<Seq<char>>, ps: Seq<Seq<char>>)
    requires
        balanced(w),
        all_neutral(ps),
    ensures
        balanced(w + ps),
        balanced(ps + w),
{
    lemma_neutral_balanced(ps);
    lemma_balanced_append(w, ps);
    lemma_balanced_append(ps, w);
}

pub proof fn lemma_decimal_neutral(n: nat)
    ensures
        neutral(decimal(n)),
        decimal(n).len() > 0,
        decimal(n)[0] != '^',
    decreases n,
{
    if n >= 10 {
        lemma_decimal_neutral(n / 10);
    }
    lemma_first_not_caret(decimal(n));
}

pub proof fn lemma_signed_decimal_neutral(x: int)
    ensures
        neutral(signed_decimal(x)),
{
    lemma_decimal_neutral((if x < 0 { -x } else { x }) as nat);
    lemma_first_not_caret(signed_decimal(x));
}

/// A piece that does not start with `^` is neutral.
pub proof fn lemma_first_not_caret(p: Seq<char>)
    requires
        p.len() > 0 ==> p[0] != '^',
    ensures
        neutral(p),
{
    assert forall|t: Seq<char>| is_scope_tag(t) implies #[trigger] delta(p, t) == 0 by {
        assert(opener(t)[0] == '^');
        assert(closer(t)[0] == '^');
    }
}

pub proof fn lemma_lit_neutral()
    ensures
        neutral(")"@) && neutral(", "@) && neutral(";"@) && neutral("x"@) && neutral("%"@) && neutral("/"@) && neutral("\n"@)
            && neutral("^p("@) && neutral("^pa("@) && neutral("^r("@) && neutral("^i("@) && neutral(".xpm"@) && neutral(" ("@)
            && neutral("/s"@) && neutral(" / "@) && neutral(" "@) && neutral("…"@) && neutral("xx"@),
{
    reveal_strlit(")");
    reveal_strlit(", ");
    reveal_strlit(";");
    reveal_strlit("x");
    reveal_strlit("%");
    reveal_strlit("/");
    reveal_strlit("\n");
    reveal_strlit("^p(");
    reveal_strlit("^pa(");
    reveal_strlit("^r(");
    reveal_strlit("^i(");
    reveal_strlit(".xpm");
    reveal_strlit(" (");
    reveal_strlit("/s");
    reveal_strlit(" / ");
    reveal_strlit(" ");
    reveal_strlit("…");
    reveal_strlit("xx");
    lemma_first_not_caret(")"@);
    lemma_first_not_caret(", "@);
    lemma_first_not_caret(";"@);
    lemma_first_not_caret("x"@);
    lemma_first_not_caret("%"@);
    lemma_first_not_caret("/"@);
    lemma_first_not_caret("\n"@);
    lemma_neutral_second("^p("@);
    lemma_neutral_second("^pa("@);
    lemma_neutral_second("^r("@);
    lemma_neutral_second("^i("@);
    lemma_first_not_caret(".xpm"@);
    lemma_first_not_caret(" ("@);
    lemma_first_not_caret("/s"@);
    lemma_first_not_caret(" / "@);
    lemma_first_not_caret(" "@);
    lemma_first_not_caret("…"@);
    lemma_first_not_caret("xx"@);
}

/// Adding neutral pieces after the current section keeps a builder nested.
pub proof fn lemma_nested_after(v: BuilderView, ps: Seq<Seq<char>>)
    requires
        v.nested(),
        all_neutral(ps),
    ensures
        v.with_work(v.work + ps).nested(),
{
    lemma_add_neutral(v.work, ps);
}

/// Adding neutral pieces before the current section keeps a builder nested.
pub proof fn lemma_nested_before(v: BuilderView, ps: Seq<Seq<char>>)
    requires
        v.nested(),
        all_neutral(ps),
    ensures
        v.with_work(ps + v.work).nested(),
{
    lemma_add_neutral(v.work, ps);
}

/// Adding one neutral piece after the current section keeps a builder nested.
pub proof fn lemma_nested_push(v: BuilderView, p: Seq<char>)
    requires
        v.nested(),
        neutral(p),
    ensures
        v.with_work(v.work.push(p)).nested(),
        v.with_work(seq![p] + v.work).nested(),
{
    assert(all_neutral(seq![p]));
    lemma_add_neutral(v.work, seq![p]);
    assert(v.work + seq![p] =~= v.work.push(p));
}

/// Wrapping the current section in a scope keeps a builder nested.
pub proof fn lemma_nested_wrap(v: BuilderView, tag: Seq<char>, mid: Seq<Seq<char>>)
    requires
        v.nested(),
        is_scope_tag(tag),
        all_neutral(mid),
    ensures
        v.with_work(seq![opener(tag)] + mid + v.work + seq![closer(tag)]).nested(),
{
    lemma_wrap_balanced(tag, mid, v.work);
}

/// Coloring the current section keeps a builder nested.
pub proof fn lemma_nested_scoped(v: BuilderView, tag: Seq<char>, arg: Seq<char>)
    requires
        v.nested(),
        is_scope_tag(tag),
        neutral(arg),
    ensures
        v.with_work(scoped(tag, arg, v.work)).nested(),
{
    lemma_lit_neutral();
    assert(all_neutral(seq![arg, ")"@]));
    lemma_wrap_balanced(tag, seq![arg, ")"@], v.work);
    assert(scoped(tag, arg, v.work) =~= seq![opener(tag)] + seq![arg, ")"@] + v.work + seq![closer(tag)]);
}

/// Freezing or unfreezing sections keeps a builder nested.
pub proof fn lemma_nested_sections(v: BuilderView)
    requires
        v.nested(),
    ensures
        balanced(v.res + v.work),
        balanced(Seq::<Seq<char>>::empty()),
{
    lemma_balanced_append(v.res, v.work);
    lemma_neutral_balanced(Seq::<Seq<char>>::empty());
}

/// An icon reference whose directory, home directory and file name hold no
/// `^` opens and closes no scope.
pub proof fn lemma_icon_neutral(t: ThemeView, name: Seq<char>)
    requires
        plain(t.home),
        plain(t.icon_path),
        plain(resolve(t.icon, name)),
    ensures
        all_neutral(icon_pieces(t, name)),
{
    lemma_lit_neutral();
    reveal_strlit("/");
    lemma_first_not_caret("/"@);
    lemma_plain_neutral(t.home);
    lemma_plain_neutral(t.icon_path);
    lemma_plain_neutral(resolve(t.icon, name));
    if t.icon_path.len() > 0 {
        assert(plain(t.icon_path.drop_first())) by {
            assert forall|i: int| 0 <= i < t.icon_path.drop_first().len() implies #[trigger] t.icon_path.drop_first()[i] != '^' by {
                assert(t.icon_path.drop_first()[i] == t.icon_path[i + 1]);
            }
        }
        lemma_plain_neutral(t.icon_path.drop_first());
    }
    let ps = icon_pieces(t, name);
    assert forall|i: int| 0 <= i < ps.len() implies neutral(#[trigger] ps[i]) by {}
}

/// Text with no `^`, cut or not, opens and closes no scope.
pub proof fn lemma_truncated_neutral(max_len: nat, s: Seq<char>)
    requires
        plain(s),
        max_len > 0 || s.len() == 0,
    ensures
        all_neutral(truncated(max_len, s)),
{
    lemma_lit_neutral();
    lemma_plain_neutral(s);
    if s.len() > max_len {
        assert(plain(s.take(max_len - 1))) by {
            assert forall|i: int| 0 <= i < s.take(max_len - 1).len() implies #[trigger] s.take(max_len - 1)[i] != '^' by {
                assert(s.take(max_len - 1)[i] == s[i]);
            }
        }
        lemma_plain_neutral(s.take(max_len - 1));
    }
    let ps = truncated(max_len, s);
    assert forall|i: int| 0 <= i < ps.len() implies neutral(#[trigger] ps[i]) by {}
}

/// Decimal digits hold no `^`.
pub proof fn lemma_decimal_no_caret(n: nat)
    ensures
        plain(decimal(n)),
    decreases n,
{
    if n >= 10 {
        lemma_decimal_no_caret(n / 10);
        let a = decimal(n / 10);
        let b = seq![crate::text::digit_char(n % 10)];
        assert forall|i: int| 0 <= i < (a + b).len() implies (a + b)[i] != '^' by {
            if i < a.len() {
                assert((a + b)[i] == a[i]);
            }
        }
    }
}

/// Two texts with no `^` make one with no `^`.
pub proof fn lemma_plain_concat(a: Seq<char>, b: Seq<char>)
    requires
        plain(a),
        plain(b),
    ensures
        plain(a + b),
{
    assert forall|i: int| 0 <= i < (a + b).len() implies (a + b)[i] != '^' by {
        if i < a.len() {
            assert((a + b)[i] == a[i]);
        } else {
            assert((a + b)[i] == b[i - a.len()]);
        }
    }
}

} // verus!
