//! The bar renderer's decisions: which generator texts a bar holds, when a
//! debounced flush is due, and the two lines written to the bar's halves.

use vstd::prelude::*;
use crate::text::{concat, decimal, lemma_concat_push};
use crate::bar::{first_entry, BarConfig, BarView};
use crate::dzen_format::DzenBuilder;
use crate::tasks::{ExitReason, Msg};
use crate::tasks::generator::GenId;

verus! {

/// The text a bar holds for `id`; empty when it has none.
pub open spec fn text_of(texts: Seq<(GenId, Seq<char>)>, id: GenId) -> Seq<char> {
    match first_entry(texts, id) {
        Some(t) => t,
        None => Seq::empty(),
    }
}

/// The non-empty texts of `ids`, in order.
pub open spec fn field_texts(ids: Seq<GenId>, texts: Seq<(GenId, Seq<char>)>) -> Seq<Seq<char>>
    decreases ids.len(),
{
    if ids.len() == 0 {
        Seq::empty()
    } else if text_of(texts, ids.last()).len() == 0 {
        field_texts(ids.drop_last(), texts)
    } else {
        field_texts(ids.drop_last(), texts).push(text_of(texts, ids.last()))
    }
}

/// The fields with `sep` between each two.
pub open spec fn join(fs: Seq<Seq<char>>, sep: Seq<char>) -> Seq<char>
    decreases fs.len(),
{
    if fs.len() == 0 {
        Seq::empty()
    } else if fs.len() == 1 {
        fs[0]
    } else {
        join(fs.drop_last(), sep) + sep + fs.last()
    }
}

/// One half's text: the non-empty fields joined by the separator.
pub open spec fn side_text(ids: Seq<GenId>, texts: Seq<(GenId, Seq<char>)>, sep: Seq<char>) -> Seq<char> {
    join(field_texts(ids, texts), sep)
}

/// The line for the left half: padding, then the fields.
pub open spec fn left_line(b: BarView, texts: Seq<(GenId, Seq<char>)>) -> Seq<char> {
    "^p("@ + decimal(b.padding as nat) + ")"@ + side_text(b.left, texts, b.separator) + "\n"@
}

/// The line for the right half: the fields, then padding.
pub open spec fn right_line(b: BarView, texts: Seq<(GenId, Seq<char>)>) -> Seq<char> {
    side_text(b.right, texts, b.separator) + "^p("@ + decimal(b.padding as nat) + ")"@ + "\n"@
}

pub open spec fn texts_view(v: Seq<(GenId, String)>) -> Seq<(GenId, Seq<char>)> {
    v.map_values(|e: (GenId, String)| (e.0, e.1@))
}

fn text_entry(texts: &Vec<(GenId, String)>, id: GenId) -> (r: Option<usize>)
    ensures
        match r {
            Some(i) => i < texts@.len() && texts@[i as int].0 == id && first_entry(texts_view(texts@), id) == Some(
                texts@[i as int].1@,
            ) && forall|k: int| 0 <= k < i ==> texts@[k].0 != id,
            None => first_entry(texts_view(texts@), id) is None && forall|k: int| 0 <= k < texts@.len() ==> texts@[k].0 != id,
        },
{
    let mut i: usize = 0;
    assert(texts_view(texts@).skip(0) =~= texts_view(texts@));
    while i < texts.len()
        invariant
            i <= texts@.len(),
            first_entry(texts_view(texts@), id) == first_entry(texts_view(texts@).skip(i as int), id),
            forall|k: int| 0 <= k < i ==> texts@[k].0 != id,
        decreases texts.len() - i,
    {
        let ghost t = texts_view(texts@).skip(i as int);
        assert(t[0] == (texts@[i as int].0, texts@[i as int].1@));
        if texts[i].0 == id {
            return Some(i);
        }
        assert(t.drop_first() =~= texts_view(texts@).skip(i + 1));
        i += 1;
    }
    None
}

/// The builder of one half: the non-empty texts of `ids` with `sep` between them.
pub fn build_side(ids: &Vec<GenId>, texts: &Vec<(GenId, String)>, sep: &str) -> (r: DzenBuilder)
    ensures
        r@.theme is None,
        r@.res.len() == 0,
        concat(r@.work) == side_text(ids@, texts_view(texts@), sep@),
{
    let mut b = DzenBuilder::new();
    let mut j: usize = 0;
    while j < ids.len()
        invariant
            j <= ids@.len(),
            b@.theme is None,
            b@.res.len() == 0,
            concat(b@.work) == side_text(ids@.take(j as int), texts_view(texts@), sep@),
            (b@.work.len() == 0) == (field_texts(ids@.take(j as int), texts_view(texts@)).len() == 0),
        decreases ids.len() - j,
    {
        let ghost tv = texts_view(texts@);
        let ghost before = field_texts(ids@.take(j as int), tv);
        proof {
            assert(ids@.take(j + 1).drop_last() =~= ids@.take(j as int));
            assert(ids@.take(j + 1).last() == ids@[j as int]);
        }
        match text_entry(texts, ids[j]) {
            Some(k) => {
                let t = texts[k].1.as_str();
                if t.unicode_len() > 0 {
                    let ghost w0 = b@.work;
                    b = b.add_not_empty(sep).add(t);
                    proof {
                        let after = before.push(t@);
                        assert(field_texts(ids@.take(j + 1), tv) == after);
                        if before.len() == 0 {
                            assert(b@.work =~= seq![t@]);
                            assert(seq![t@].drop_last() =~= Seq::<Seq<char>>::empty());
                            lemma_concat_push(Seq::<Seq<char>>::empty(), t@);
                            assert(Seq::<Seq<char>>::empty().push(t@) =~= seq![t@]);
                            assert(concat(Seq::<Seq<char>>::empty()) =~= Seq::<char>::empty());
                            assert(concat(b@.work) =~= t@);
                            assert(after =~= seq![t@]);
                        } else {
                            assert(after.drop_last() =~= before);
                            lemma_concat_push(w0, sep@);
                            lemma_concat_push(w0.push(sep@), t@);
                        }
                    }
                } else {
                    assert(field_texts(ids@.take(j + 1), tv) == before);
                }
            },
            None => {
                assert(text_of(tv, ids@[j as int]) =~= Seq::<char>::empty());
                assert(field_texts(ids@.take(j + 1), tv) == before);
            },
        }
        j += 1;
    }
    assert(ids@.take(j as int) =~= ids@);
    b
}

/// What a bar's task receives.
pub enum BarEvent {
    /// A message from the bus.
    Received(Msg),
    /// The task fell behind and the bus skipped messages.
    Lagged,
    /// The bus is closed.
    Closed,
    /// The debounce timer ran out.
    DebounceElapsed,
}

/// What a bar's task does next.
pub enum BarAction {
    /// Keep receiving.
    Idle,
    /// Start the debounce timer, then keep receiving.
    ArmDebounce,
    /// Write the left line and the right line to the bar's halves.
    Write(String, String),
    /// Restart the tray helper, then write the two lines.
    TrayAndWrite(String, String),
    /// End the task.
    Stop(ExitReason),
}

/// The texts a bar shows and whether a flush is pending.
pub struct BarState {
    texts: Vec<(GenId, String)>,
    waiting: bool,
}

pub struct BarStateView {
    pub texts: Seq<(GenId, Seq<char>)>,
    pub waiting: bool,
}

impl View for BarState {
    type V = BarStateView;

    closed spec fn view(&self) -> BarStateView {
        BarStateView { texts: texts_view(self.texts@), waiting: self.waiting }
    }
}

/// Whether the bar shows `id`.
pub open spec fn shows(texts: Seq<(GenId, Seq<char>)>, id: GenId) -> bool {
    exists|i: int| 0 <= i < texts.len() && texts[i].0 == id
}

/// The texts with the first entry for `id` set to `t`.
pub open spec fn set_text(texts: Seq<(GenId, Seq<char>)>, id: GenId, t: Seq<char>) -> Seq<(GenId, Seq<char>)>
    decreases texts.len(),
{
    if texts.len() == 0 {
        texts
    } else if texts[0].0 == id {
        texts.update(0, (id, t))
    } else {
        seq![texts[0]] + set_text(texts.drop_first(), id, t)
    }
}

impl BarState {
    /// Every id of the bar with an empty text, and no flush pending.
    pub fn new(config: &BarConfig) -> (r: Self)
        ensures
            r@.waiting == false,
            r@.texts.len() == config@.left.len() + config@.right.len(),
            forall|i: int| 0 <= i < r@.texts.len() ==> #[trigger] r@.texts[i] == ((config@.left + config@.right)[i], Seq::<char>::empty()),
    {
        let ids = config.iter();
        let mut texts: Vec<(GenId, String)> = Vec::new();
        let mut i: usize = 0;
        while i < ids.len()
            invariant
                i <= ids@.len(),
                texts@.len() == i,
                forall|k: int| 0 <= k < i ==> #[trigger] texts_view(texts@)[k] == (ids@[k], Seq::<char>::empty()),
            decreases ids.len() - i,
        {
            let ghost t0 = texts@;
            texts.push((ids[i], String::new()));
            assert forall|k: int| 0 <= k < i + 1 implies #[trigger] texts_view(texts@)[k] == (ids@[k], Seq::<char>::empty()) by {
                if k < i {
                    assert(texts@[k] == t0[k]);
                    assert(texts_view(t0)[k] == (ids@[k], Seq::<char>::empty()));
                }
            }
            i += 1;
        }
        BarState { texts, waiting: false }
    }

    /// The text the bar holds for `id`.
    pub fn text(&self, id: GenId) -> (r: Option<&String>)
        ensures
            match r {
                Some(t) => first_entry(self@.texts, id) == Some(t@),
                None => first_entry(self@.texts, id) is None,
            },
    {
        match text_entry(&self.texts, id) {
            Some(k) => Some(&self.texts[k].1),
            None => None,
        }
    }

    fn lines(&self, config: &BarConfig) -> (r: (String, String))
        ensures
            r.0@ == left_line(config@, self@.texts),
            r.1@ == right_line(config@, self@.texts),
    {
        let pad = config.get_padding();
        let l = build_side(config.iter_left(), &self.texts, config.get_separator());
        let ghost lw = l@.work;
        let left = l.lpad(pad).to_stringln();
        let r = build_side(config.iter_right(), &self.texts, config.get_separator());
        let ghost rw = r@.work;
        let right = r.rpad(pad).to_stringln();
        proof {
            assert(l@.res =~= Seq::<Seq<char>>::empty());
            assert(r@.res =~= Seq::<Seq<char>>::empty());
            let a = seq![")"@] + lw;
            let bb = seq![decimal(pad as nat)] + a;
            let c = seq!["^p("@] + bb;
            crate::text::lemma_concat_prepend(")"@, lw);
            crate::text::lemma_concat_prepend(decimal(pad as nat), a);
            crate::text::lemma_concat_prepend("^p("@, bb);
            assert(seq!["^p("@, decimal(pad as nat), ")"@] + lw =~= c);
            assert(concat(c) =~= "^p("@ + decimal(pad as nat) + ")"@ + concat(lw));
            assert(concat(Seq::<Seq<char>>::empty()) =~= Seq::<char>::empty());
            crate::text::lemma_concat_append(rw, seq!["^p("@, decimal(pad as nat), ")"@]);
            assert(seq!["^p("@, decimal(pad as nat), ")"@] =~= Seq::<Seq<char>>::empty().push("^p("@).push(decimal(pad as nat)).push(")"@));
            lemma_concat_push(Seq::<Seq<char>>::empty(), "^p("@);
            lemma_concat_push(seq!["^p("@], decimal(pad as nat));
            assert(seq!["^p("@].push(decimal(pad as nat)) =~= seq!["^p("@, decimal(pad as nat)]);
            lemma_concat_push(seq!["^p("@, decimal(pad as nat)], ")"@);
            assert(seq!["^p("@, decimal(pad as nat)].push(")"@) =~= seq!["^p("@, decimal(pad as nat), ")"@]);
            assert(left@ =~= left_line(config@, self@.texts));
            assert(right@ =~= right_line(config@, self@.texts));
        }
        (left, right)
    }

    /// Handles one event. A text for a shown id is stored and, if no flush
    /// is pending, the debounce timer is armed; the timer's end writes both
    /// lines; a tray request restarts the tray (if the bar has one) and
    /// writes; a lag is ignored; a closed bus ends the task normally.
    pub fn step(&mut self, config: &BarConfig, ev: BarEvent) -> (r: BarAction)
        ensures
            match ev {
                BarEvent::Received(Msg::Gen(id, t)) => if shows(old(self)@.texts, id) {
                    &&& final(self)@.texts == set_text(old(self)@.texts, id, t@)
                    &&& final(self)@.waiting
                    &&& if old(self)@.waiting { r is Idle } else { r is ArmDebounce }
                } else {
                    final(self)@ == old(self)@ && r is Idle
                },
                BarEvent::Received(Msg::Tray) => {
                    &&& final(self)@ == (BarStateView { waiting: false, ..old(self)@ })
                    &&& config@.tray ==> (r matches BarAction::TrayAndWrite(a, b) && a@ == left_line(config@, old(self)@.texts) && b@ == right_line(config@, old(self)@.texts))
                    &&& !config@.tray ==> (r matches BarAction::Write(a, b) && a@ == left_line(config@, old(self)@.texts) && b@ == right_line(config@, old(self)@.texts))
                },
                BarEvent::Lagged => final(self)@ == old(self)@ && r is Idle,
                BarEvent::Closed => final(self)@ == old(self)@ && r == BarAction::Stop(ExitReason::Normal),
                BarEvent::DebounceElapsed => if old(self)@.waiting {
                    &&& final(self)@ == (BarStateView { waiting: false, ..old(self)@ })
                    &&& r matches BarAction::Write(a, b) && a@ == left_line(config@, old(self)@.texts) && b@ == right_line(config@, old(self)@.texts)
                } else {
                    final(self)@ == old(self)@ && r is Idle
                },
            },
    {
        match ev {
            BarEvent::Received(Msg::Gen(id, t)) => {
                match text_entry(&self.texts, id) {
                    Some(k) => {
                        let ghost tv = self@.texts;
                        assert(tv[k as int].0 == id);
                        assert forall|m: int| 0 <= m < k implies tv[m].0 != id by {
                            assert(tv[m].0 == self.texts@[m].0);
                        }
                        self.texts.set(k, (id, t));
                        proof {
                            lemma_set_text(tv, id, t@, k as int);
                            assert(self@.texts =~= tv.update(k as int, (id, t@)));
                        }
                        if self.waiting {
                            BarAction::Idle
                        } else {
                            self.waiting = true;
                            BarAction::ArmDebounce
                        }
                    },
                    None => {
                        assert forall|i: int| 0 <= i < self@.texts.len() implies self@.texts[i].0 != id by {
                            assert(self@.texts[i].0 == self.texts@[i].0);
                        }
                        BarAction::Idle
                    },
                }
            },
            BarEvent::Received(Msg::Tray) => {
                self.waiting = false;
                let (a, b) = self.lines(config);
                if config.wants_tray() {
                    BarAction::TrayAndWrite(a, b)
                } else {
                    BarAction::Write(a, b)
                }
            },
            BarEvent::Lagged => BarAction::Idle,
            BarEvent::Closed => BarAction::Stop(ExitReason::Normal),
            BarEvent::DebounceElapsed => {
                if self.waiting {
                    self.waiting = false;
                    let (a, b) = self.lines(config);
                    BarAction::Write(a, b)
                } else {
                    BarAction::Idle
                }
            },
        }
    }
}

proof fn lemma_set_text(texts: Seq<(GenId, Seq<char>)>, id: GenId, t: Seq<char>, k: int)
    requires
        0 <= k < texts.len(),
        texts[k].0 == id,
        forall|m: int| 0 <= m < k ==> texts[m].0 != id,
    ensures
        set_text(texts, id, t) == texts.update(k, (id, t)),
    decreases texts.len(),
{
    if k > 0 {
        lemma_set_text(texts.drop_first(), id, t, k - 1);
        assert(seq![texts[0]] + texts.drop_first().update(k - 1, (id, t)) =~= texts.update(k, (id, t)));
    }
}

/// The widths of a bar's left and right halves for a split point in
/// thousandths of the width; the left half gets at most the whole width.
pub fn split_widths(width: u16, permille: u32) -> (r: (u16, u16))
    ensures
        r.0 as int == if (width as int) * (permille as int) / 1000 <= width as int {
            (width as int) * (permille as int) / 1000
        } else {
            width as int
        },
        r.0 as int + r.1 as int == width as int,
{
    assert((width as u64) * (permille as u64) <= 65535 * 4294967295) by (nonlinear_arith)
        requires width <= 65535, permille <= 4294967295;
    let l: u64 = (width as u64) * (permille as u64) / 1000;
    let left: u16 = if l <= width as u64 { l as u16 } else { width };
    (left, width - left)
}

/// A generator whose text is empty adds nothing to its half, not even a
/// separator; one with text is joined after the others with one separator.
pub proof fn lemma_side_text_step(ids: Seq<GenId>, texts: Seq<(GenId, Seq<char>)>, sep: Seq<char>, id: GenId)
    ensures
        text_of(texts, id).len() == 0 ==> side_text(ids.push(id), texts, sep) == side_text(ids, texts, sep),
        text_of(texts, id).len() > 0 && field_texts(ids, texts).len() == 0 ==> side_text(ids.push(id), texts, sep)
            == text_of(texts, id),
        text_of(texts, id).len() > 0 && field_texts(ids, texts).len() > 0 ==> side_text(ids.push(id), texts, sep)
            == side_text(ids, texts, sep) + sep + text_of(texts, id),
{
    assert(ids.push(id).drop_last() =~= ids);
    let f = field_texts(ids, texts);
    if text_of(texts, id).len() > 0 {
        assert(f.push(text_of(texts, id)).drop_last() =~= f);
    }
}

} // verus!
