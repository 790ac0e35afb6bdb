//! The bar layout: which generators each bar shows, and the set of
//! generator instances, where equal requests share one instance.

use vstd::prelude::*;
use itertools::Itertools;
use crate::text::{copy_string, decimal, u64_to_string};
use crate::dzen_format::{BuilderView, DzenBuilder};
use crate::tasks::generator::{GenArg, GenArgView, GenId, GenType};
use crate::x::{find_output, Rectangle, XSetup};

verus! {

/// Discriminators from here on are given to generators that have an
/// argument or a name; below it each kind has its default instance.
pub const FIRST_CUSTOM_ID: u8 = 100;

/// One bar on one output.
pub struct BarConfig {
    left: Vec<GenId>,
    right: Vec<GenId>,
    tray: bool,
    separator: String,
    padding: usize,
    split: u32,
    xinerama: usize,
    output: String,
    rect: Rectangle,
}

pub struct BarView {
    pub left: Seq<GenId>,
    pub right: Seq<GenId>,
    pub tray: bool,
    pub separator: Seq<char>,
    pub padding: usize,
    /// Where the bar is split into its left and right halves, in thousandths of its width.
    pub split: u32,
    pub xinerama: usize,
    pub output: Seq<char>,
    pub rect: Rectangle,
}

impl View for BarConfig {
    type V = BarView;

    closed spec fn view(&self) -> BarView {
        BarView {
            left: self.left@,
            right: self.right@,
            tray: self.tray,
            separator: self.separator@,
            padding: self.padding,
            split: self.split,
            xinerama: self.xinerama,
            output: self.output@,
            rect: self.rect,
        }
    }
}

impl BarConfig {
    /// A bar on `output` with no generators, " | " between fields, padding
    /// 10, split in the middle and no tray; `None` when the output is not
    /// connected.
    pub fn new(output: String, setup: &XSetup) -> (r: Option<Self>)
        ensures
            match find_output(setup@, output@) {
                Some(i) => r is Some && r.unwrap()@ == (BarView {
                    left: Seq::empty(),
                    right: Seq::empty(),
                    tray: false,
                    separator: " | "@,
                    padding: 10,
                    split: 500,
                    xinerama: setup@[i].1,
                    output: output@,
                    rect: setup@[i].2,
                }),
                None => r is None,
            },
    {
        let xin = setup.get_xinerama(output.as_str());
        let rect = setup.get_rect(output.as_str());
        match (xin, rect) {
            (Some(x), Some(rc)) => {
                let b = BarConfig {
                    left: Vec::new(),
                    right: Vec::new(),
                    separator: String::from_str(" | "),
                    tray: false,
                    padding: 10,
                    split: 500,
                    output: output,
                    xinerama: x,
                    rect: rc,
                };
                assert(b@.left =~= Seq::<GenId>::empty());
                assert(b@.right =~= Seq::<GenId>::empty());
                Some(b)
            },
            _ => None,
        }
    }

    pub fn add_left(&mut self, id: GenId)
        ensures
            final(self)@ == (BarView { left: old(self)@.left.push(id), ..old(self)@ }),
    {
        self.left.push(id);
    }

    pub fn add_right(&mut self, id: GenId)
        ensures
            final(self)@ == (BarView { right: old(self)@.right.push(id), ..old(self)@ }),
    {
        self.right.push(id);
    }

    /// The generators of the left half, then those of the right half.
    pub fn iter(&self) -> (r: Vec<GenId>)
        ensures
            r@ == self@.left + self@.right,
    {
        let mut r: Vec<GenId> = Vec::new();
        let mut i: usize = 0;
        while i < self.left.len()
            invariant
                i <= self.left@.len(),
                r@ == self.left@.take(i as int),
            decreases self.left.len() - i,
        {
            r.push(self.left[i]);
            assert(r@ =~= self.left@.take(i + 1));
            i += 1;
        }
        let mut j: usize = 0;
        while j < self.right.len()
            invariant
                j <= self.right@.len(),
                i == self.left@.len(),
                r@ == self.left@.take(i as int) + self.right@.take(j as int),
            decreases self.right.len() - j,
        {
            r.push(self.right[j]);
            assert(r@ =~= self.left@.take(i as int) + self.right@.take(j + 1));
            j += 1;
        }
        assert(self.left@.take(i as int) =~= self.left@);
        assert(self.right@.take(j as int) =~= self.right@);
        r
    }

    pub fn get_xinerama(&self) -> (r: usize)
        ensures
            r == self@.xinerama,
    {
        self.xinerama
    }

    pub fn get_separator(&self) -> (r: &str)
        ensures
            r@ == self@.separator,
    {
        self.separator.as_str()
    }

    pub fn iter_left(&self) -> (r: &Vec<GenId>)
        ensures
            r@ == self@.left,
    {
        &self.left
    }

    pub fn iter_right(&self) -> (r: &Vec<GenId>)
        ensures
            r@ == self@.right,
    {
        &self.right
    }

    pub fn get_output(&self) -> (r: &str)
        ensures
            r@ == self@.output,
    {
        self.output.as_str()
    }

    pub fn get_padding(&self) -> (r: usize)
        ensures
            r == self@.padding,
    {
        self.padding
    }

    /// The split point in thousandths of the bar's width.
    pub fn get_split(&self) -> (r: u32)
        ensures
            r == self@.split,
    {
        self.split
    }

    pub fn get_screen_width(&self) -> (r: u16)
        ensures
            r == self@.rect.2,
    {
        self.rect.2
    }

    pub fn wants_tray(&self) -> (r: bool)
        ensures
            r == self@.tray,
    {
        self.tray
    }

    /// A copy of the bar.
    pub fn duplicate(&self) -> (r: Self)
        ensures
            r@ == self@,
    {
        BarConfig {
            left: copy_ids(&self.left),
            right: copy_ids(&self.right),
            tray: self.tray,
            separator: self.separator.clone(),
            padding: self.padding,
            split: self.split,
            xinerama: self.xinerama,
            output: self.output.clone(),
            rect: self.rect,
        }
    }
}

fn copy_ids(v: &Vec<GenId>) -> (r: Vec<GenId>)
    ensures
        r@ == v@,
{
    let mut r: Vec<GenId> = Vec::new();
    let mut i: usize = 0;
    while i < v.len()
        invariant
            i <= v@.len(),
            r@ == v@.take(i as int),
        decreases v.len() - i,
    {
        r.push(v[i]);
        assert(r@ =~= v@.take(i + 1));
        i += 1;
    }
    assert(v@.take(i as int) =~= v@);
    r
}

/// What a generator request asks for: a kind, a name and an argument.
pub struct ModuleKey {
    pub gen: GenType,
    pub name: Option<Seq<char>>,
    pub arg: Option<GenArgView>,
}

/// The resolved configuration: generator instances with their arguments
/// and names, and the bars.
pub struct SetupConfig {
    arguments: Vec<(GenId, GenArg)>,
    names: Vec<(GenId, String)>,
    bars: Vec<BarConfig>,
    modules: Vec<GenId>,
    id: u8,
}

pub struct SetupView {
    pub arguments: Seq<(GenId, GenArgView)>,
    pub names: Seq<(GenId, Seq<char>)>,
    pub bars: Seq<BarView>,
    /// Every instance, in order of creation.
    pub modules: Seq<GenId>,
    /// The next discriminator to try for a new instance.
    pub id: u8,
}

impl View for SetupConfig {
    type V = SetupView;

    closed spec fn view(&self) -> SetupView {
        SetupView {
            arguments: self.arguments@.map_values(|e: (GenId, GenArg)| (e.0, e.1@)),
            names: self.names@.map_values(|e: (GenId, String)| (e.0, e.1@)),
            bars: self.bars@.map_values(|b: BarConfig| b@),
            modules: self.modules@,
            id: self.id,
        }
    }
}

/// The value of the first entry for `g`.
pub open spec fn first_entry<V>(t: Seq<(GenId, V)>, g: GenId) -> Option<V>
    decreases t.len(),
{
    if t.len() == 0 {
        None
    } else if t[0].0 == g {
        Some(t[0].1)
    } else {
        first_entry(t.drop_first(), g)
    }
}

/// Whether instance `m` was created for request `k`.
pub open spec fn key_matches(v: SetupView, m: GenId, k: ModuleKey) -> bool {
    m.gen == k.gen && first_entry(v.names, m) == k.name && first_entry(v.arguments, m) == k.arg
}

pub open spec fn find_in(v: SetupView, ms: Seq<GenId>, k: ModuleKey) -> Option<GenId>
    decreases ms.len(),
{
    if ms.len() == 0 {
        None
    } else if key_matches(v, ms[0], k) {
        Some(ms[0])
    } else {
        find_in(v, ms.drop_first(), k)
    }
}

/// The first instance created for request `k`.
pub open spec fn find_module(v: SetupView, k: ModuleKey) -> Option<GenId> {
    find_in(v, v.modules, k)
}

/// The instance a request names when it has neither argument nor name.
pub open spec fn is_default_request(k: ModuleKey) -> bool {
    k.name is None && k.arg is None
}

impl SetupView {
    /// Default instances carry no name or argument, and every entry
    /// belongs to an instance.
    pub open spec fn wf(self) -> bool {
        &&& forall|i: int|
            0 <= i < self.modules.len() && (#[trigger] self.modules[i]).id < FIRST_CUSTOM_ID ==> first_entry(
                self.names,
                self.modules[i],
            ) is None && first_entry(self.arguments, self.modules[i]) is None
        &&& forall|i: int| 0 <= i < self.names.len() ==> self.modules.contains(#[trigger] self.names[i].0)
        &&& forall|i: int| 0 <= i < self.arguments.len() ==> self.modules.contains(#[trigger] self.arguments[i].0)
    }
}

/// `v1` is `v` with instance `g` added for request `k`.
pub open spec fn registered(v: SetupView, g: GenId, k: ModuleKey, v1: SetupView) -> bool {
    &&& v1.modules == v.modules.push(g)
    &&& v1.names == (match k.name {
        Some(n) => seq![(g, n)] + v.names,
        None => v.names,
    })
    &&& v1.arguments == (match k.arg {
        Some(a) => seq![(g, a)] + v.arguments,
        None => v.arguments,
    })
    &&& v1.bars == v.bars
}

/// The instance that a previous configuration has for the request.
pub open spec fn prev_find(p: Option<SetupView>, k: ModuleKey) -> Option<GenId> {
    match p {
        Some(pv) => find_module(pv, k),
        None => None,
    }
}

pub open spec fn prev_uses(p: Option<SetupView>, g: GenId) -> bool {
    match p {
        Some(pv) => pv.modules.contains(g),
        None => false,
    }
}

/// What creating an instance for request `k` does: an existing instance for
/// the same request is reused; otherwise the default instance, or the
/// previous configuration's instance, or a fresh discriminator from
/// `FIRST_CUSTOM_ID` on that neither configuration uses, is added. `None`
/// when the discriminators have run out.
pub open spec fn created(
    v: SetupView,
    p: Option<SetupView>,
    k: ModuleKey,
    r: Option<GenId>,
    v1: SetupView,
) -> bool {
    match find_module(v, k) {
        Some(m) => r == Some(m) && v1 == v,
        None => match r {
            None => {
                &&& !is_default_request(k)
                &&& v1.modules == v.modules && v1.names == v.names && v1.arguments == v.arguments && v1.bars == v.bars
                &&& discriminators_used(v, p, k.gen)
            },
            Some(g) => {
                &&& g.gen == k.gen
                &&& !v.modules.contains(g)
                &&& registered(v, g, k, v1)
                &&& is_default_request(k) ==> g == GenId { gen: k.gen, id: k.gen.spec_ordinal() }
                &&& !is_default_request(k) ==> if prev_find(p, k) is Some && !v.modules.contains(
                    prev_find(p, k).unwrap(),
                ) {
                    g == prev_find(p, k).unwrap()
                } else {
                    g.id >= FIRST_CUSTOM_ID && !prev_uses(p, g)
                }
            },
        },
    }
}

/// Whether `g` is an instance here or in the previous configuration.
pub open spec fn taken(v: SetupView, p: Option<SetupView>, g: GenId) -> bool {
    v.modules.contains(g) || prev_uses(p, g)
}

/// Every discriminator from `FIRST_CUSTOM_ID` on is taken for kind `t`.
pub open spec fn discriminators_used(v: SetupView, p: Option<SetupView>, t: GenType) -> bool {
    forall|d: u8| FIRST_CUSTOM_ID <= d ==> #[trigger] taken(v, p, GenId { gen: t, id: d })
}

/// How many instances of kind `t` have a discriminator from
/// `FIRST_CUSTOM_ID` on.
pub open spec fn custom_count(ms: Seq<GenId>, t: GenType) -> nat
    decreases ms.len(),
{
    if ms.len() == 0 {
        0
    } else {
        custom_count(ms.drop_last(), t) + (if ms.last().gen == t && ms.last().id >= FIRST_CUSTOM_ID { 1nat } else { 0nat })
    }
}

pub open spec fn prev_count(p: Option<SetupView>, t: GenType) -> nat {
    match p {
        Some(pv) => custom_count(pv.modules, t),
        None => 0,
    }
}

/// The discriminators of kind `t` from `FIRST_CUSTOM_ID` on.
pub open spec fn custom_ids(ms: Seq<GenId>, t: GenType) -> Set<int>
    decreases ms.len(),
{
    if ms.len() == 0 {
        Set::empty()
    } else if ms.last().gen == t && ms.last().id >= FIRST_CUSTOM_ID {
        custom_ids(ms.drop_last(), t).insert(ms.last().id as int)
    } else {
        custom_ids(ms.drop_last(), t)
    }
}

proof fn lemma_custom_ids(ms: Seq<GenId>, t: GenType)
    ensures
        custom_ids(ms, t).finite(),
        custom_ids(ms, t).len() <= custom_count(ms, t),
        forall|d: u8| FIRST_CUSTOM_ID <= d && #[trigger] ms.contains(GenId { gen: t, id: d }) ==> custom_ids(ms, t).contains(d as int),
    decreases ms.len(),
{
    if ms.len() > 0 {
        lemma_custom_ids(ms.drop_last(), t);
        assert forall|d: u8| FIRST_CUSTOM_ID <= d && #[trigger] ms.contains(GenId { gen: t, id: d }) implies custom_ids(ms, t).contains(d as int) by {
            let w = choose|w: int| 0 <= w < ms.len() && ms[w] == GenId { gen: t, id: d };
            if w < ms.len() - 1 {
                assert(ms.drop_last()[w] == ms[w]);
                assert(ms.drop_last().contains(GenId { gen: t, id: d }));
            }
        }
    }
}

/// With every discriminator of kind `t` taken, there are at least as many
/// instances of kind `t` here and in the previous configuration as there
/// are discriminators from `FIRST_CUSTOM_ID` on.
proof fn lemma_exhausted(v: SetupView, p: Option<SetupView>, t: GenType)
    requires
        discriminators_used(v, p, t),
    ensures
        custom_count(v.modules, t) + prev_count(p, t) >= 256 - FIRST_CUSTOM_ID,
{
    let pm = match p {
        Some(pv) => pv.modules,
        None => Seq::<GenId>::empty(),
    };
    lemma_custom_ids(v.modules, t);
    lemma_custom_ids(pm, t);
    assert(custom_count(Seq::<GenId>::empty(), t) == 0);
    let a = custom_ids(v.modules, t);
    let b = custom_ids(pm, t);
    let range = vstd::set_lib::set_int_range(FIRST_CUSTOM_ID as int, 256);
    vstd::set_lib::lemma_int_range(FIRST_CUSTOM_ID as int, 256);
    assert forall|x: int| range.contains(x) implies a.union(b).contains(x) by {
        let d = x as u8;
        assert(taken(v, p, GenId { gen: t, id: d }));
        assert(d as int == x);
    }
    assert(range.subset_of(a.union(b)));
    vstd::set_lib::lemma_len_union(a, b);
    vstd::set_lib::lemma_len_subset(range, a.union(b));
}

/// The requests and instances agree: a default instance is the kind's
/// own; any other has a name or an argument, and when the previous
/// configuration has it, it is that configuration's instance for the same
/// request.
pub open spec fn key_of(v: SetupView, m: GenId) -> ModuleKey {
    ModuleKey { gen: m.gen, name: first_entry(v.names, m), arg: first_entry(v.arguments, m) }
}

pub open spec fn ids_sound(v: SetupView, p: Option<SetupView>) -> bool {
    forall|i: int|
        #![trigger v.modules[i]]
        0 <= i < v.modules.len() ==> {
            let m = v.modules[i];
            &&& m.id < FIRST_CUSTOM_ID ==> m == GenId { gen: m.gen, id: m.gen.spec_ordinal() }
            &&& m.id >= FIRST_CUSTOM_ID ==> !is_default_request(key_of(v, m))
            &&& m.id >= FIRST_CUSTOM_ID && prev_uses(p, m) ==> prev_find(p, key_of(v, m)) == Some(m)
        }
}

/// What the instance `g` given for request `k` is: the kind's default
/// instance for a bare request; else a discriminator from
/// `FIRST_CUSTOM_ID` on, which the previous configuration uses only for
/// the same request.
pub open spec fn id_fits(p: Option<SetupView>, k: ModuleKey, g: GenId) -> bool {
    &&& g.gen == k.gen
    &&& is_default_request(k) ==> g == GenId { gen: k.gen, id: k.gen.spec_ordinal() }
    &&& !is_default_request(k) ==> g.id >= FIRST_CUSTOM_ID && (prev_uses(p, g) ==> prev_find(p, k) == Some(g))
}

proof fn lemma_found_fits(v: SetupView, p: Option<SetupView>, k: ModuleKey)
    requires
        v.wf(),
        ids_sound(v, p),
        find_module(v, k) is Some,
    ensures
        id_fits(p, k, find_module(v, k).unwrap()),
{
    lemma_find_in_found(v, v.modules, k);
    let m = find_module(v, k).unwrap();
    let w = choose|w: int| 0 <= w < v.modules.len() && v.modules[w] == m;
    assert(key_of(v, m) == k);
    assert(v.modules[w] == m);
}

proof fn lemma_created_sound(v: SetupView, p: Option<SetupView>, k: ModuleKey, r: Option<GenId>, v1: SetupView)
    requires
        v.wf(),
        p is Some ==> p.unwrap().wf(),
        ids_sound(v, p),
        created(v, p, k, r, v1),
    ensures
        ids_sound(v1, p),
        forall|t: GenType| #[trigger] custom_count(v1.modules, t) <= custom_count(v.modules, t) + (if t == k.gen
            && !is_default_request(k) { 1nat } else { 0nat }),
        r is None ==> custom_count(v.modules, k.gen) + prev_count(p, k.gen) >= 256 - FIRST_CUSTOM_ID,
        r is Some ==> id_fits(p, k, r.unwrap()),
{
    match find_module(v, k) {
        Some(m) => {
            lemma_found_fits(v, p, k);
        },
        None => match r {
            None => {
                lemma_exhausted(v, p, k.gen);
                assert(v1.modules == v.modules);
                assert forall|i: int| #![trigger v1.modules[i]] 0 <= i < v1.modules.len() implies ({
                    let m = v1.modules[i];
                    &&& m.id < FIRST_CUSTOM_ID ==> m == GenId { gen: m.gen, id: m.gen.spec_ordinal() }
                    &&& m.id >= FIRST_CUSTOM_ID ==> !is_default_request(key_of(v1, m))
                    &&& m.id >= FIRST_CUSTOM_ID && prev_uses(p, m) ==> prev_find(p, key_of(v1, m)) == Some(m)
                }) by {
                    assert(v.modules[i] == v1.modules[i]);
                    assert(key_of(v1, v1.modules[i]) == key_of(v, v.modules[i]));
                }
            },
            Some(g) => {
                if !is_default_request(k) && prev_find(p, k) is Some {
                    lemma_find_in_found(p.unwrap(), p.unwrap().modules, k);
                }
                lemma_register(v, g, k, v1, k);
                lemma_register_entries(v, g, k, v1);
                assert(v1.modules.drop_last() =~= v.modules);
                assert forall|i: int| #![trigger v1.modules[i]] 0 <= i < v1.modules.len() implies ({
                    let m = v1.modules[i];
                    &&& m.id < FIRST_CUSTOM_ID ==> m == GenId { gen: m.gen, id: m.gen.spec_ordinal() }
                    &&& m.id >= FIRST_CUSTOM_ID ==> !is_default_request(key_of(v1, m))
                    &&& m.id >= FIRST_CUSTOM_ID && prev_uses(p, m) ==> prev_find(p, key_of(v1, m)) == Some(m)
                }) by {
                    if i < v.modules.len() {
                        assert(v.modules[i] == v1.modules[i]);
                        assert(v.modules.contains(v.modules[i]));
                        assert(key_of(v1, v1.modules[i]) == key_of(v, v.modules[i]));
                    } else {
                        assert(v1.modules[i] == g);
                        lemma_find_in_found(v1, v1.modules, k);
                        assert(key_matches(v1, g, k));
                        assert(key_of(v1, g) == k);
                    }
                }
            },
        },
    }
}

pub open spec fn opt_name_view(o: Option<String>) -> Option<Seq<char>> {
    match o {
        Some(s) => Some(s@),
        None => None,
    }
}

pub open spec fn opt_arg_view(o: Option<GenArg>) -> Option<GenArgView> {
    match o {
        Some(a) => Some(a@),
        None => None,
    }
}

proof fn lemma_first_entry_some<V>(t: Seq<(GenId, V)>, g: GenId)
    ensures
        first_entry(t, g) is Some <==> exists|i: int| 0 <= i < t.len() && t[i].0 == g,
        first_entry(t, g) is Some ==> exists|i: int| 0 <= i < t.len() && t[i].0 == g && t[i].1 == first_entry(t, g).unwrap(),
    decreases t.len(),
{
    if t.len() > 0 {
        lemma_first_entry_some(t.drop_first(), g);
        if exists|i: int| 0 <= i < t.len() && t[i].0 == g {
            let i = choose|i: int| 0 <= i < t.len() && t[i].0 == g;
            if i > 0 {
                assert(t.drop_first()[i - 1].0 == g);
            }
        }
        if first_entry(t.drop_first(), g) is Some && t[0].0 != g {
            let i = choose|i: int| 0 <= i < t.len() - 1 && t.drop_first()[i].0 == g && t.drop_first()[i].1 == first_entry(t.drop_first(), g).unwrap();
            assert(t[i + 1] == t.drop_first()[i]);
        }
    }
}

proof fn lemma_first_entry_other<V>(t: Seq<(GenId, V)>, g: GenId, x: V, h: GenId)
    requires
        g != h,
    ensures
        first_entry(seq![(g, x)] + t, h) == first_entry(t, h),
{
    assert((seq![(g, x)] + t).drop_first() =~= t);
}

proof fn lemma_find_in_same_keys(v: SetupView, v1: SetupView, ms: Seq<GenId>, k: ModuleKey)
    requires
        forall|i: int| 0 <= i < ms.len() ==> (key_matches(v, #[trigger] ms[i], k) <==> key_matches(v1, ms[i], k)),
    ensures
        find_in(v, ms, k) == find_in(v1, ms, k),
    decreases ms.len(),
{
    if ms.len() > 0 {
        assert forall|i: int| 0 <= i < ms.drop_first().len() implies (key_matches(v, #[trigger] ms.drop_first()[i], k)
            <==> key_matches(v1, ms.drop_first()[i], k)) by {
            assert(ms.drop_first()[i] == ms[i + 1]);
        }
        lemma_find_in_same_keys(v, v1, ms.drop_first(), k);
    }
}

proof fn lemma_find_in_push(v: SetupView, ms: Seq<GenId>, g: GenId, k: ModuleKey)
    ensures
        find_in(v, ms.push(g), k) == (match find_in(v, ms, k) {
            Some(m) => Some(m),
            None => if key_matches(v, g, k) {
                Some(g)
            } else {
                None
            },
        }),
    decreases ms.len(),
{
    if ms.len() > 0 {
        assert(ms.push(g).drop_first() =~= ms.drop_first().push(g));
        assert(ms.push(g)[0] == ms[0]);
        lemma_find_in_push(v, ms.drop_first(), g, k);
        if !key_matches(v, ms[0], k) {
            assert(find_in(v, ms.push(g), k) == find_in(v, ms.drop_first().push(g), k));
            assert(find_in(v, ms, k) == find_in(v, ms.drop_first(), k));
        }
    } else {
        assert(ms.push(g).drop_first() =~= Seq::<GenId>::empty());
        assert(ms.push(g)[0] == g);
        assert(find_in(v, ms, k) is None);
        assert(find_in(v, ms.push(g).drop_first(), k) is None);
    }
}

proof fn lemma_find_in_found(v: SetupView, ms: Seq<GenId>, k: ModuleKey)
    ensures
        match find_in(v, ms, k) {
            Some(m) => ms.contains(m) && key_matches(v, m, k),
            None => forall|i: int| 0 <= i < ms.len() ==> !key_matches(v, #[trigger] ms[i], k),
        },
    decreases ms.len(),
{
    if ms.len() > 0 {
        lemma_find_in_found(v, ms.drop_first(), k);
        if find_in(v, ms, k) is Some && !key_matches(v, ms[0], k) {
            let m = find_in(v, ms, k).unwrap();
            let j = choose|j: int| 0 <= j < ms.drop_first().len() && ms.drop_first()[j] == m;
            assert(ms[j + 1] == m);
        }
        if find_in(v, ms, k) is None {
            assert forall|i: int| 0 <= i < ms.len() implies !key_matches(v, #[trigger] ms[i], k) by {
                if i > 0 {
                    assert(ms[i] == ms.drop_first()[i - 1]);
                }
            }
        }
    }
}

/// Adding an instance that was not there keeps every other instance's
/// name and argument.
proof fn lemma_register_entries(v: SetupView, g: GenId, k: ModuleKey, v1: SetupView)
    requires
        !v.modules.contains(g),
        registered(v, g, k, v1),
    ensures
        forall|m: GenId| #[trigger] v.modules.contains(m) ==> first_entry(v1.names, m) == first_entry(v.names, m)
            && first_entry(v1.arguments, m) == first_entry(v.arguments, m),
{
    assert forall|m: GenId| #[trigger] v.modules.contains(m) implies first_entry(v1.names, m) == first_entry(v.names, m)
        && first_entry(v1.arguments, m) == first_entry(v.arguments, m) by {
        match k.name {
            Some(n) => lemma_first_entry_other(v.names, g, n, m),
            None => {},
        }
        match k.arg {
            Some(a) => lemma_first_entry_other(v.arguments, g, a, m),
            None => {},
        }
    }
}

/// Adding an instance that was not there keeps the instance found for any
/// request that already had one, and the new instance is found for its own.
proof fn lemma_register(v: SetupView, g: GenId, k: ModuleKey, v1: SetupView, q: ModuleKey)
    requires
        v.wf(),
        !v.modules.contains(g),
        g.gen == k.gen,
        find_module(v, k) is None,
        registered(v, g, k, v1),
        g.id < FIRST_CUSTOM_ID ==> is_default_request(k),
    ensures
        find_module(v, q) is Some ==> find_module(v1, q) == find_module(v, q),
        find_module(v1, k) == Some(g),
        v1.wf(),
{
    assert forall|i: int| 0 <= i < v.modules.len() implies first_entry(v1.names, #[trigger] v.modules[i])
        == first_entry(v.names, v.modules[i]) && first_entry(v1.arguments, v.modules[i]) == first_entry(
        v.arguments,
        v.modules[i],
    ) by {
        let m = v.modules[i];
        assert(v.modules.contains(m));
        assert(m != g);
        match k.name {
            Some(n) => lemma_first_entry_other(v.names, g, n, m),
            None => {},
        }
        match k.arg {
            Some(a) => lemma_first_entry_other(v.arguments, g, a, m),
            None => {},
        }
    }
    lemma_find_in_same_keys(v, v1, v.modules, q);
    lemma_find_in_push(v1, v.modules, g, q);
    lemma_find_in_same_keys(v, v1, v.modules, k);
    lemma_find_in_push(v1, v.modules, g, k);
    // the new instance's entries are the ones just added
    lemma_first_entry_some(v.names, g);
    lemma_first_entry_some(v.arguments, g);
    assert(first_entry(v.names, g) is None);
    assert(first_entry(v.arguments, g) is None);
    match k.name {
        Some(n) => {
            assert((seq![(g, n)] + v.names)[0] == (g, n));
        },
        None => {},
    }
    match k.arg {
        Some(a) => {
            assert((seq![(g, a)] + v.arguments)[0] == (g, a));
        },
        None => {},
    }
    assert(key_matches(v1, g, k));
    // well-formedness
    assert forall|i: int|
        0 <= i < v1.modules.len() && (#[trigger] v1.modules[i]).id < FIRST_CUSTOM_ID implies first_entry(
        v1.names,
        v1.modules[i],
    ) is None && first_entry(v1.arguments, v1.modules[i]) is None by {
        if i < v.modules.len() {
            let m = v.modules[i];
            assert(v.modules.contains(m));
            match k.name {
                Some(n) => lemma_first_entry_other(v.names, g, n, m),
                None => {},
            }
            match k.arg {
                Some(a) => lemma_first_entry_other(v.arguments, g, a, m),
                None => {},
            }
        }
    }
    assert forall|i: int| 0 <= i < v1.names.len() implies v1.modules.contains(#[trigger] v1.names[i].0) by {
        if k.name is Some && i == 0 {
            assert(v1.modules[v.modules.len() as int] == g);
        } else {
            let j = if k.name is Some { i - 1 } else { i };
            assert(v1.names[i] == v.names[j]);
            let w = choose|w: int| 0 <= w < v.modules.len() && v.modules[w] == v.names[j].0;
            assert(v1.modules[w] == v.modules[w]);
        }
    }
    assert forall|i: int| 0 <= i < v1.arguments.len() implies v1.modules.contains(#[trigger] v1.arguments[i].0) by {
        if k.arg is Some && i == 0 {
            assert(v1.modules[v.modules.len() as int] == g);
        } else {
            let j = if k.arg is Some { i - 1 } else { i };
            assert(v1.arguments[i] == v.arguments[j]);
            let w = choose|w: int| 0 <= w < v.modules.len() && v.modules[w] == v.arguments[j].0;
            assert(v1.modules[w] == v.modules[w]);
        }
    }
}

/// Creating an instance keeps every instance already found for a request,
/// and afterwards the request finds the instance that was returned.
pub proof fn lemma_created(v: SetupView, p: Option<SetupView>, k: ModuleKey, r: Option<GenId>, v1: SetupView, q: ModuleKey)
    requires
        v.wf(),
        p is Some ==> p.unwrap().wf(),
        created(v, p, k, r, v1),
    ensures
        v1.wf(),
        find_module(v, q) is Some ==> find_module(v1, q) == find_module(v, q),
        r is Some ==> find_module(v1, k) == r,
{
    match find_module(v, k) {
        Some(m) => {},
        None => match r {
            None => {
                assert(v1 == SetupView { id: v1.id, ..v });
                lemma_find_in_same_keys(v, v1, v.modules, q);
            },
            Some(g) => {
                if !is_default_request(k) && prev_find(p, k) is Some {
                    lemma_find_in_found(p.unwrap(), p.unwrap().modules, k);
                }
                lemma_register(v, g, k, v1, q);
            },
        },
    }
}

/// Two requests for the same kind with the same argument and name get the
/// same instance.
pub proof fn lemma_same_request_same_instance(
    v: SetupView,
    p: Option<SetupView>,
    k: ModuleKey,
    r1: Option<GenId>,
    v1: SetupView,
    r2: Option<GenId>,
    v2: SetupView,
)
    requires
        v.wf(),
        p is Some ==> p.unwrap().wf(),
        created(v, p, k, r1, v1),
        created(v1, p, k, r2, v2),
        r1 is Some,
    ensures
        r2 == r1,
{
    lemma_created(v, p, k, r1, v1, k);
}

impl SetupConfig {
    /// A configuration with no instances and no bars.
    pub fn new() -> (r: Self)
        ensures
            r@.modules.len() == 0 && r@.names.len() == 0 && r@.arguments.len() == 0 && r@.bars.len() == 0,
            r@.id == FIRST_CUSTOM_ID,
            r@.wf(),
    {
        let r = SetupConfig {
            arguments: Vec::new(),
            names: Vec::new(),
            bars: Vec::new(),
            modules: Vec::new(),
            id: FIRST_CUSTOM_ID,
        };
        assert(r@.names =~= Seq::<(GenId, Seq<char>)>::empty());
        assert(r@.arguments =~= Seq::<(GenId, GenArgView)>::empty());
        assert(r@.bars =~= Seq::<BarView>::empty());
        r
    }

    fn name_entry(&self, g: GenId) -> (r: Option<&String>)
        ensures
            match r { Some(s) => first_entry(self@.names, g) == Some(s@), None => first_entry(self@.names, g) is None },
    {
        let mut i: usize = 0;
        assert(self@.names.skip(0) =~= self@.names);
        while i < self.names.len()
            invariant
                i <= self.names@.len(),
                first_entry(self@.names, g) == first_entry(self@.names.skip(i as int), g),
            decreases self.names.len() - i,
        {
            let ghost t = self@.names.skip(i as int);
            assert(t[0] == (self.names@[i as int].0, self.names@[i as int].1@));
            if self.names[i].0 == g {
                return Some(&self.names[i].1);
            }
            assert(t.drop_first() =~= self@.names.skip(i + 1));
            i += 1;
        }
        None
    }

    fn arg_entry(&self, g: GenId) -> (r: Option<&GenArg>)
        ensures
            match r { Some(a) => first_entry(self@.arguments, g) == Some(a@), None => first_entry(self@.arguments, g) is None },
    {
        let mut i: usize = 0;
        assert(self@.arguments.skip(0) =~= self@.arguments);
        while i < self.arguments.len()
            invariant
                i <= self.arguments@.len(),
                first_entry(self@.arguments, g) == first_entry(self@.arguments.skip(i as int), g),
            decreases self.arguments.len() - i,
        {
            let ghost t = self@.arguments.skip(i as int);
            assert(t[0] == (self.arguments@[i as int].0, self.arguments@[i as int].1@));
            if self.arguments[i].0 == g {
                return Some(&self.arguments[i].1);
            }
            assert(t.drop_first() =~= self@.arguments.skip(i + 1));
            i += 1;
        }
        None
    }
}

impl SetupConfig {
    fn matches(&self, m: GenId, gen: GenType, name: &Option<String>, arg: &Option<GenArg>) -> (r: bool)
        ensures
            r == key_matches(self@, m, ModuleKey { gen, name: opt_name_view(*name), arg: opt_arg_view(*arg) }),
    {
        if m.gen != gen {
            return false;
        }
        let n = match (self.name_entry(m), name) {
            (Some(a), Some(b)) => *a == *b,
            (None, None) => true,
            _ => false,
        };
        let a = match (self.arg_entry(m), arg) {
            (Some(x), Some(y)) => x.same_as(y),
            (None, None) => true,
            _ => false,
        };
        n && a
    }

    /// The first instance created for the request, here or in `prev`.
    fn module_exists(
        &self,
        gen: GenType,
        arg: &Option<GenArg>,
        name: &Option<String>,
        prev: Option<&SetupConfig>,
    ) -> (r: Option<GenId>)
        ensures
            ({
                let k = ModuleKey { gen, name: opt_name_view(*name), arg: opt_arg_view(*arg) };
                r == match find_module(self@, k) {
                    Some(m) => Some(m),
                    None => match prev {
                        Some(p) => find_module(p@, k),
                        None => None,
                    },
                }
            }),
        decreases (if prev is Some { 1int } else { 0int }),
    {
        let ghost k = ModuleKey { gen, name: opt_name_view(*name), arg: opt_arg_view(*arg) };
        let mut i: usize = 0;
        assert(self@.modules.skip(0) =~= self@.modules);
        while i < self.modules.len()
            invariant
                i <= self@.modules.len(),
                self@.modules == self.modules@,
                k == (ModuleKey { gen, name: opt_name_view(*name), arg: opt_arg_view(*arg) }),
                find_module(self@, k) == find_in(self@, self@.modules.skip(i as int), k),
            decreases self.modules.len() - i,
        {
            let m = self.modules[i];
            let ghost t = self@.modules.skip(i as int);
            assert(t[0] == m);
            if self.matches(m, gen, name, arg) {
                return Some(m);
            }
            assert(t.drop_first() =~= self@.modules.skip(i + 1));
            i += 1;
        }
        match prev {
            Some(p) => p.module_exists(gen, arg, name, None),
            None => None,
        }
    }

    /// Whether `id` is one of the instances.
    fn uses_id(&self, id: GenId) -> (r: bool)
        ensures
            r == self@.modules.contains(id),
    {
        let mut i: usize = 0;
        while i < self.modules.len()
            invariant
                i <= self.modules@.len(),
                forall|k: int| 0 <= k < i ==> self.modules@[k] != id,
            decreases self.modules.len() - i,
        {
            if self.modules[i] == id {
                return true;
            }
            i += 1;
        }
        false
    }

    fn register(&mut self, g: GenId, name: Option<String>, arg: Option<GenArg>)
        ensures
            registered(old(self)@, g, ModuleKey { gen: g.gen, name: opt_name_view(name), arg: opt_arg_view(arg) }, final(self)@),
            final(self)@.id == old(self)@.id,
    {
        self.modules.push(g);
        match name {
            Some(n) => {
                self.names.insert(0, (g, n));
            },
            None => {},
        }
        match arg {
            Some(a) => {
                self.arguments.insert(0, (g, a));
            },
            None => {},
        }
        assert(self@.names =~= (match opt_name_view(name) {
            Some(n) => seq![(g, n)] + old(self)@.names,
            None => old(self)@.names,
        }));
        assert(self@.arguments =~= (match opt_arg_view(arg) {
            Some(a) => seq![(g, a)] + old(self)@.arguments,
            None => old(self)@.arguments,
        }));
        assert(self@.bars =~= old(self)@.bars);
    }

    /// Gives the instance for a request: an existing one for the same kind,
    /// name and argument, else a new one. `None` when no discriminator is left.
    fn create_module(
        &mut self,
        gen: GenType,
        arg: Option<GenArg>,
        name: Option<String>,
        prev: Option<&SetupConfig>,
    ) -> (r: Option<GenId>)
        requires
            old(self)@.wf(),
            prev is Some ==> prev.unwrap()@.wf(),
        ensures
            created(
                old(self)@,
                match prev {
                    Some(p) => Some(p@),
                    None => None,
                },
                ModuleKey { gen, name: opt_name_view(name), arg: opt_arg_view(arg) },
                r,
                final(self)@,
            ),
            final(self)@.wf(),
    {
        let ghost k = ModuleKey { gen, name: opt_name_view(name), arg: opt_arg_view(arg) };
        let ghost pv: Option<SetupView> = match prev {
            Some(p) => Some(p@),
            None => None,
        };
        match self.module_exists(gen, &arg, &name, None) {
            Some(id) => {
                return Some(id);
            },
            None => {},
        }
        proof {
            lemma_find_in_found(self@, self@.modules, k);
        }
        let id = if arg.is_none() && name.is_none() {
            let g = GenId::from_gen(gen);
            proof {
                if self@.modules.contains(g) {
                    let w = choose|w: int| 0 <= w < self@.modules.len() && self@.modules[w] == g;
                    assert(key_matches(self@, self@.modules[w], k));
                }
            }
            g
        } else {
            let from_prev = match prev {
                Some(p) => p.module_exists(gen, &arg, &name, None),
                None => None,
            };
            proof {
                if from_prev is Some {
                    lemma_find_in_found(pv.unwrap(), pv.unwrap().modules, k);
                }
            }
            let reuse = match from_prev {
                Some(m) => if self.uses_id(m) {
                    None
                } else {
                    Some(m)
                },
                None => None,
            };
            match reuse {
                Some(m) => m,
                None => {
                    let mut found: Option<GenId> = None;
                    // the next discriminator in sequence first
                    let mut c: u16 = self.id as u16;
                    while found.is_none() && c <= 255
                        invariant
                            found matches Some(g) ==> g.gen == gen && g.id >= FIRST_CUSTOM_ID && !self@.modules.contains(g)
                                && !prev_uses(pv, g),
                            pv == (match prev {
                                Some(p) => Some(p@),
                                None => None,
                            }),
                        decreases 256 - c,
                    {
                        if c >= FIRST_CUSTOM_ID as u16 {
                            let g = GenId::new(gen, c as u8);
                            let used_before = match prev {
                                Some(p) => p.uses_id(g),
                                None => false,
                            };
                            if !self.uses_id(g) && !used_before {
                                found = Some(g);
                            }
                        }
                        c = c + 1;
                    }
                    // then any free one
                    let mut d: u16 = FIRST_CUSTOM_ID as u16;
                    while found.is_none() && d <= 255
                        invariant
                            FIRST_CUSTOM_ID <= d <= 256,
                            found matches Some(g) ==> g.gen == gen && g.id >= FIRST_CUSTOM_ID && !self@.modules.contains(g)
                                && !prev_uses(pv, g),
                            found is None ==> forall|e: u8| FIRST_CUSTOM_ID <= e < d ==> #[trigger] taken(self@, pv, GenId { gen, id: e }),
                            pv == (match prev {
                                Some(p) => Some(p@),
                                None => None,
                            }),
                        decreases 256 - d,
                    {
                        let g = GenId::new(gen, d as u8);
                        let used_before = match prev {
                            Some(p) => p.uses_id(g),
                            None => false,
                        };
                        if !self.uses_id(g) && !used_before {
                            found = Some(g);
                        }
                        d = d + 1;
                    }
                    let ghost before_id = self@;
                    self.id = if c > 255 { 255 } else { c as u8 };
                    proof {
                        if found is None {
                            assert forall|e: u8| FIRST_CUSTOM_ID <= e implies #[trigger] taken(self@, pv, GenId { gen, id: e }) by {
                                assert(taken(before_id, pv, GenId { gen, id: e }));
                                assert(self@.modules == before_id.modules);
                            }
                        }
                    }
                    match found {
                        Some(g) => g,
                        None => {
                            assert(self@.modules =~= old(self)@.modules);
                            assert(self@.names =~= old(self)@.names);
                            assert(self@.arguments =~= old(self)@.arguments);
                            assert(self@.bars =~= old(self)@.bars);
                            return None;
                        },
                    }
                },
            }
        };
        assert(find_module(old(self)@, k) is None);
        assert(id.gen == gen);
        assert(!old(self)@.modules.contains(id));
        assert(is_default_request(k) ==> id == GenId { gen: k.gen, id: k.gen.spec_ordinal() });
        assert(!is_default_request(k) ==> if prev_find(pv, k) is Some && !old(self)@.modules.contains(
                    prev_find(pv, k).unwrap(),
                ) {
                    id == prev_find(pv, k).unwrap()
                } else {
                    id.id >= FIRST_CUSTOM_ID && !prev_uses(pv, id)
                });
        self.register(id, name, arg);
        proof {
            lemma_created(old(self)@, pv, k, Some(id), self@, k);
        }
        Some(id)
    }

    /// Gives an instance with a discriminator from `FIRST_CUSTOM_ID` on the
    /// display name `name`.
    pub fn name_module(&mut self, id: GenId, name: String)
        requires
            old(self)@.wf(),
            old(self)@.modules.contains(id),
            id.id >= FIRST_CUSTOM_ID,
        ensures
            final(self)@ == (SetupView { names: seq![(id, name@)] + old(self)@.names, ..old(self)@ }),
            first_entry(final(self)@.names, id) == Some(name@),
            final(self)@.wf(),
    {
        let ghost n = name@;
        self.names.insert(0, (id, name));
        assert(self@.names =~= seq![(id, n)] + old(self)@.names);
        proof {
            let v = old(self)@;
            let v1 = self@;
            assert(v1.names[0] == (id, n));
            assert forall|i: int| 0 <= i < v1.modules.len() && (#[trigger] v1.modules[i]).id < FIRST_CUSTOM_ID implies first_entry(
                v1.names,
                v1.modules[i],
            ) is None && first_entry(v1.arguments, v1.modules[i]) is None by {
                lemma_first_entry_other(v.names, id, n, v.modules[i]);
            }
            assert forall|i: int| 0 <= i < v1.names.len() implies v1.modules.contains(#[trigger] v1.names[i].0) by {
                if i > 0 {
                    assert(v1.names[i] == v.names[i - 1]);
                }
            }
        }
    }

    /// Adds a bar.
    pub fn add_bar(&mut self, bar: BarConfig)
        ensures
            final(self)@ == (SetupView { bars: old(self)@.bars.push(bar@), ..old(self)@ }),
    {
        self.bars.push(bar);
        assert(self@.bars =~= old(self)@.bars.push(bar@));
    }

    /// The argument of an instance.
    pub fn get_arg(&self, id: &GenId) -> (r: Option<&GenArg>)
        ensures
            match r {
                Some(a) => first_entry(self@.arguments, *id) == Some(a@),
                None => first_entry(self@.arguments, *id) is None,
            },
    {
        self.arg_entry(*id)
    }

    /// The display name of an instance.
    pub fn get_name(&self, id: GenId) -> (r: Option<&String>)
        ensures
            match r {
                Some(s) => first_entry(self@.names, id) == Some(s@),
                None => first_entry(self@.names, id) is None,
            },
    {
        self.name_entry(id)
    }

    /// The first bar on `output`.
    pub fn bar_from_output(&self, output: &str) -> (r: Option<&BarConfig>)
        ensures
            match r {
                Some(b) => exists|i: int| 0 <= i < self@.bars.len() && self@.bars[i] == b@
                    && b@.output == output@ && forall|k: int| 0 <= k < i ==> self@.bars[k].output != output@,
                None => forall|k: int| 0 <= k < self@.bars.len() ==> self@.bars[k].output != output@,
            },
    {
        let mut i: usize = 0;
        while i < self.bars.len()
            invariant
                i <= self.bars@.len(),
                forall|k: int| 0 <= k < i ==> self@.bars[k].output != output@,
            decreases self.bars.len() - i,
        {
            assert(self@.bars[i as int] == self.bars@[i as int]@);
            if crate::text::str_eq(self.bars[i].get_output(), output) {
                return Some(&self.bars[i]);
            }
            i += 1;
        }
        None
    }

    /// The bars.
    pub fn bars(&self) -> (r: &Vec<BarConfig>)
        ensures
            r@.map_values(|b: BarConfig| b@) == self@.bars,
    {
        &self.bars
    }
}

/// Why a configuration could not be built.
#[derive(PartialEq, Eq, Structural, Clone, Copy, Debug)]
pub enum SetupError {
    /// A bar names an output that is not connected.
    OutputNotConnected,
    /// The discriminators for new instances ran out.
    TooManyGenerators,
    /// Two different generator requests have the same name.
    DuplicateName,
}

/// A request for one generator on a bar.
pub struct GenBuilder {
    typ: GenType,
    name: Option<String>,
    arg: Option<String>,
    prepend: Option<DzenBuilder>,
    timeout: Option<u64>,
}

pub struct GenBuilderView {
    pub typ: GenType,
    pub name: Option<Seq<char>>,
    pub arg: Option<Seq<char>>,
    pub prepend: Option<BuilderView>,
    pub timeout: Option<u64>,
}

impl View for GenBuilder {
    type V = GenBuilderView;

    closed spec fn view(&self) -> GenBuilderView {
        GenBuilderView {
            typ: self.typ,
            name: opt_name_view(self.name),
            arg: opt_name_view(self.arg),
            prepend: match self.prepend {
                Some(p) => Some(p@),
                None => None,
            },
            timeout: self.timeout,
        }
    }
}

/// The request a generator entry makes: no argument when it sets none of
/// timeout, argument and prepended markup.
pub open spec fn request_of(g: GenBuilderView) -> ModuleKey {
    ModuleKey {
        gen: g.typ,
        name: g.name,
        arg: if g.timeout is None && g.arg is None && g.prepend is None {
            None
        } else {
            Some(GenArgView { timeout: g.timeout, arg: g.arg, prepend: g.prepend })
        },
    }
}

impl GenBuilder {
    pub fn new(typ: GenType) -> (r: Self)
        ensures
            r@ == (GenBuilderView { typ, name: None, arg: None, prepend: None, timeout: None }),
    {
        GenBuilder { typ: typ, name: None, arg: None, prepend: None, timeout: None }
    }

    /// The name the control channel reaches the generator by.
    pub fn name(self, n: &str) -> (r: Self)
        ensures
            r@ == (GenBuilderView { name: Some(n@), ..self@ }),
    {
        GenBuilder { name: Some(copy_string(n)), ..self }
    }

    pub fn argument(self, arg: &str) -> (r: Self)
        ensures
            r@ == (GenBuilderView { arg: Some(arg@), ..self@ }),
    {
        GenBuilder { arg: Some(copy_string(arg)), ..self }
    }

    pub fn prepend(self, pre: DzenBuilder) -> (r: Self)
        ensures
            r@ == (GenBuilderView { prepend: Some(pre@), ..self@ }),
    {
        GenBuilder { prepend: Some(pre), ..self }
    }

    pub fn timeout(self, tim: u64) -> (r: Self)
        ensures
            r@ == (GenBuilderView { timeout: Some(tim), ..self@ }),
    {
        GenBuilder { timeout: Some(tim), ..self }
    }

    fn request(&self) -> (r: (GenType, Option<GenArg>, Option<String>))
        ensures
            request_of(self@) == (ModuleKey { gen: r.0, name: opt_name_view(r.2), arg: opt_arg_view(r.1) }),
    {
        let args = if self.timeout.is_none() && self.arg.is_none() && self.prepend.is_none() {
            None
        } else {
            Some(GenArg {
                timeout: self.timeout,
                arg: match &self.arg {
                    Some(a) => Some(a.clone()),
                    None => None,
                },
                prepend: match &self.prepend {
                    Some(p) => Some(p.duplicate()),
                    None => None,
                },
            })
        };
        let name = match &self.name {
            Some(n) => Some(n.clone()),
            None => None,
        };
        (self.typ, args, name)
    }
}

/// The bar wanted on one output.
pub struct BarBuilder {
    output: String,
    left: Vec<GenBuilder>,
    right: Vec<GenBuilder>,
    tray: bool,
    sep: Option<String>,
    pad: Option<usize>,
    split: Option<u32>,
}

pub struct BarBuilderView {
    pub output: Seq<char>,
    pub left: Seq<GenBuilderView>,
    pub right: Seq<GenBuilderView>,
    pub tray: bool,
    pub sep: Option<Seq<char>>,
    pub pad: Option<usize>,
    pub split: Option<u32>,
}

pub open spec fn gens_view(v: Seq<GenBuilder>) -> Seq<GenBuilderView> {
    v.map_values(|g: GenBuilder| g@)
}

impl View for BarBuilder {
    type V = BarBuilderView;

    closed spec fn view(&self) -> BarBuilderView {
        BarBuilderView {
            output: self.output@,
            left: gens_view(self.left@),
            right: gens_view(self.right@),
            tray: self.tray,
            sep: opt_name_view(self.sep),
            pad: self.pad,
            split: self.split,
        }
    }
}

impl BarBuilder {
    pub fn new(output: &str) -> (r: Self)
        ensures
            r@ == (BarBuilderView {
                output: output@,
                left: Seq::empty(),
                right: Seq::empty(),
                tray: false,
                sep: None,
                pad: None,
                split: None,
            }),
    {
        let r = BarBuilder {
            output: copy_string(output),
            left: Vec::new(),
            right: Vec::new(),
            tray: false,
            sep: None,
            pad: None,
            split: None,
        };
        assert(r@.left =~= Seq::<GenBuilderView>::empty());
        assert(r@.right =~= Seq::<GenBuilderView>::empty());
        r
    }

    pub fn add_left(self, gen: GenBuilder) -> (r: Self)
        ensures
            r@ == (BarBuilderView { left: self@.left.push(gen@), ..self@ }),
    {
        let mut l = self.left;
        l.push(gen);
        let r = BarBuilder { left: l, ..self };
        assert(r@.left =~= self@.left.push(gen@));
        r
    }

    pub fn add_right(self, gen: GenBuilder) -> (r: Self)
        ensures
            r@ == (BarBuilderView { right: self@.right.push(gen@), ..self@ }),
    {
        let mut l = self.right;
        l.push(gen);
        let r = BarBuilder { right: l, ..self };
        assert(r@.right =~= self@.right.push(gen@));
        r
    }

    pub fn tray(self, t: bool) -> (r: Self)
        ensures
            r@ == (BarBuilderView { tray: t, ..self@ }),
    {
        BarBuilder { tray: t, ..self }
    }

    pub fn separator(self, sep: &str) -> (r: Self)
        ensures
            r@ == (BarBuilderView { sep: Some(sep@), ..self@ }),
    {
        BarBuilder { sep: Some(copy_string(sep)), ..self }
    }

    pub fn padding(self, pad: usize) -> (r: Self)
        ensures
            r@ == (BarBuilderView { pad: Some(pad), ..self@ }),
    {
        BarBuilder { pad: Some(pad), ..self }
    }

    /// The split point in thousandths of the bar's width.
    pub fn split(self, split: u32) -> (r: Self)
        ensures
            r@ == (BarBuilderView { split: Some(split), ..self@ }),
    {
        BarBuilder { split: Some(split), ..self }
    }
}

/// The whole wanted layout, with settings that bars without their own take.
pub struct SetupBuilder {
    bars: Vec<BarBuilder>,
    global_sep: Option<String>,
    global_pad: Option<usize>,
    global_split: Option<u32>,
}

pub struct SetupBuilderView {
    pub bars: Seq<BarBuilderView>,
    pub sep: Option<Seq<char>>,
    pub pad: Option<usize>,
    pub split: Option<u32>,
}

impl View for SetupBuilder {
    type V = SetupBuilderView;

    closed spec fn view(&self) -> SetupBuilderView {
        SetupBuilderView {
            bars: self.bars@.map_values(|b: BarBuilder| b@),
            sep: opt_name_view(self.global_sep),
            pad: self.global_pad,
            split: self.global_split,
        }
    }
}

/// Whether some bar is on `output`.
pub open spec fn has_output(bars: Seq<BarBuilderView>, output: Seq<char>) -> bool {
    exists|i: int| 0 <= i < bars.len() && bars[i].output == output
}

/// The bar that `b` becomes on a connected output, with `s`'s defaults.
pub open spec fn bar_fits(s: SetupBuilderView, b: BarBuilderView, x: Seq<(Seq<char>, usize, Rectangle)>, c: SetupView, bar: BarView) -> bool {
    &&& find_output(x, b.output) matches Some(o) && bar.xinerama == x[o].1 && bar.rect == x[o].2
    &&& bar.output == b.output
    &&& bar.tray == b.tray
    &&& bar.separator == (match b.sep {
        Some(v) => v,
        None => match s.sep {
            Some(v) => v,
            None => " | "@,
        },
    })
    &&& bar.padding == (match b.pad {
        Some(v) => v,
        None => match s.pad {
            Some(v) => v,
            None => 10,
        },
    })
    &&& bar.split == (match b.split {
        Some(v) => v,
        None => match s.split {
            Some(v) => v,
            None => 500,
        },
    })
    &&& bar.left.len() == b.left.len()
    &&& bar.right.len() == b.right.len()
    &&& forall|j: int| 0 <= j < b.left.len() ==> find_module(c, request_of(#[trigger] b.left[j])) == Some(bar.left[j])
    &&& forall|j: int| 0 <= j < b.right.len() ==> find_module(c, request_of(#[trigger] b.right[j])) == Some(bar.right[j])
}

/// `b` is what `f` gave for the output `out`.
pub open spec fn bar_for<F: Fn(&str) -> BarBuilder>(f: F, out: Seq<char>, b: BarBuilderView) -> bool {
    exists|o: &str, x: BarBuilder| #[trigger] f.ensures((o,), x) && o@ == out && b == x@
}

/// `b` is what `f` gave for an output that none of `bars` is on.
pub open spec fn other_bar<F: Fn(&str) -> BarBuilder>(f: F, bars: Seq<BarBuilderView>, b: BarBuilderView) -> bool {
    exists|o: &str, x: BarBuilder| #[trigger] f.ensures((o,), x) && b == x@ && !has_output(bars, o@)
}

impl SetupBuilder {
    pub fn new() -> (r: Self)
        ensures
            r@ == (SetupBuilderView { bars: Seq::empty(), sep: None, pad: None, split: None }),
    {
        let r = SetupBuilder { bars: Vec::new(), global_sep: None, global_pad: None, global_split: None };
        assert(r@.bars =~= Seq::<BarBuilderView>::empty());
        r
    }

    pub fn add_bar(self, bar: BarBuilder) -> (r: Self)
        ensures
            r@ == (SetupBuilderView { bars: self@.bars.push(bar@), ..self@ }),
    {
        let mut b = self.bars;
        b.push(bar);
        let r = SetupBuilder { bars: b, ..self };
        assert(r@.bars =~= self@.bars.push(bar@));
        r
    }

    /// Adds the bar `f` gives for each output in `outputs` that no bar is on yet.
    pub fn map_other<F: Fn(&str) -> BarBuilder>(self, outputs: &Vec<String>, f: F) -> (r: Self)
        requires
            forall|o: &str| #[trigger] f.requires((o,)),
        ensures
            r@.sep == self@.sep && r@.pad == self@.pad && r@.split == self@.split,
            r@.bars.len() >= self@.bars.len(),
            r@.bars.take(self@.bars.len() as int) == self@.bars,
            forall|i: int| #![trigger r@.bars[i]] self@.bars.len() <= i < r@.bars.len() ==> other_bar(f, self@.bars, r@.bars[i]),
            forall|k: int| 0 <= k < outputs@.len() && !has_output(self@.bars, #[trigger] outputs@[k]@) ==> exists|i: int|
                #![trigger r@.bars[i]] self@.bars.len() <= i < r@.bars.len() && bar_for(f, outputs@[k]@, r@.bars[i]),
    {
        let n0 = self.bars.len();
        let mut bars = self.bars;
        let ghost old_bars = bars@.map_values(|b: BarBuilder| b@);
        let mut k: usize = 0;
        while k < outputs.len()
            invariant
                n0 == old_bars.len(),
                forall|o: &str| #[trigger] f.requires((o,)),
                k <= outputs@.len(),
                bars@.len() >= n0,
                forall|i: int| 0 <= i < n0 ==> #[trigger] bars@[i]@ == old_bars[i],
                forall|i: int| #![trigger bars@[i]] n0 <= i < bars@.len() ==> other_bar(f, old_bars, bars@[i]@),
                forall|m: int| 0 <= m < k && !has_output(old_bars, #[trigger] outputs@[m]@) ==> exists|i: int|
                    #![trigger bars@[i]] n0 <= i < bars@.len() && bar_for(f, outputs@[m]@, bars@[i]@),
            decreases outputs.len() - k,
        {
            let o = outputs[k].as_str();
            let mut used = false;
            let mut i: usize = 0;
            while i < n0
                invariant
                    i <= n0,
                    n0 <= bars@.len(),
                    n0 == old_bars.len(),
                    forall|i: int| 0 <= i < n0 ==> #[trigger] bars@[i]@ == old_bars[i],
                    used == exists|j: int| 0 <= j < i && old_bars[j].output == o@,
                decreases n0 - i,
            {
                assert(old_bars[i as int] == bars@[i as int]@);
                if crate::text::str_eq(bars[i].output.as_str(), o) {
                    used = true;
                }
                i += 1;
            }
            if !used {
                let ghost b0 = bars@;
                let b = f(o);
                bars.push(b);
                proof {
                    assert(other_bar(f, old_bars, b@)) by {
                        assert(f.ensures((o,), b));
                    }
                    assert forall|i: int| #![trigger bars@[i]] n0 <= i < bars@.len() implies other_bar(f, old_bars, bars@[i]@) by {
                        if i < b0.len() {
                            assert(bars@[i] == b0[i]);
                        }
                    }
                    assert forall|i: int| 0 <= i < n0 implies #[trigger] bars@[i]@ == old_bars[i] by {
                        assert(bars@[i] == b0[i]);
                    }
                    assert(bar_for(f, outputs@[k as int]@, bars@[b0.len() as int]@)) by {
                        assert(f.ensures((o,), b));
                        assert(bars@[b0.len() as int] == b);
                    }
                    assert forall|m: int| 0 <= m < k + 1 && !has_output(old_bars, #[trigger] outputs@[m]@) implies exists|i: int|
                        #![trigger bars@[i]] n0 <= i < bars@.len() && bar_for(f, outputs@[m]@, bars@[i]@) by {
                        if m < k {
                            let i = choose|i: int| #![trigger b0[i]] n0 <= i < b0.len() && bar_for(f, outputs@[m]@, b0[i]@);
                            assert(bars@[i] == b0[i]);
                        } else {
                            assert(bars@[b0.len() as int]@ == b@);
                        }
                    }
                }
            } else {
                proof {
                    assert(has_output(old_bars, outputs@[k as int]@));
                }
            }
            k += 1;
        }
        let ghost fb = bars@;
        let r = SetupBuilder { bars, ..self };
        proof {
            assert(r@.bars.take(n0 as int) =~= old_bars);
            assert forall|k: int| 0 <= k < outputs@.len() && !has_output(old_bars, #[trigger] outputs@[k]@) implies exists|i: int|
                #![trigger r@.bars[i]] n0 <= i < r@.bars.len() && bar_for(f, outputs@[k]@, r@.bars[i]) by {
                let i = choose|i: int| #![trigger fb[i]] n0 <= i < fb.len() && bar_for(f, outputs@[k]@, fb[i]@);
                assert(r@.bars[i] == fb[i]@);
            }
        }
        r
    }

    pub fn separator(self, sep: &str) -> (r: Self)
        ensures
            r@ == (SetupBuilderView { sep: Some(sep@), ..self@ }),
    {
        SetupBuilder { global_sep: Some(copy_string(sep)), ..self }
    }

    pub fn padding(self, pad: usize) -> (r: Self)
        ensures
            r@ == (SetupBuilderView { pad: Some(pad), ..self@ }),
    {
        SetupBuilder { global_pad: Some(pad), ..self }
    }

    /// The split point, in thousandths of a bar's width, of bars without their own.
    pub fn split(self, split: u32) -> (r: Self)
        ensures
            r@ == (SetupBuilderView { split: Some(split), ..self@ }),
    {
        SetupBuilder { global_split: Some(split), ..self }
    }
}

pub open spec fn opt_view(p: Option<&SetupConfig>) -> Option<SetupView> {
    match p {
        Some(c) => Some(c@),
        None => None,
    }
}

/// How many of the entries ask for a kind-`t` generator with a name or an
/// argument.
pub open spec fn req_count(rs: Seq<GenBuilderView>, t: GenType) -> nat
    decreases rs.len(),
{
    if rs.len() == 0 {
        0
    } else {
        req_count(rs.drop_last(), t) + (if rs.last().typ == t && !is_default_request(request_of(rs.last())) {
            1nat
        } else {
            0nat
        })
    }
}

proof fn lemma_req_count_append(a: Seq<GenBuilderView>, b: Seq<GenBuilderView>, t: GenType)
    ensures
        req_count(a + b, t) == req_count(a, t) + req_count(b, t),
    decreases b.len(),
{
    if b.len() == 0 {
        assert(a + b =~= a);
    } else {
        lemma_req_count_append(a, b.drop_last(), t);
        assert((a + b).drop_last() =~= a + b.drop_last());
        assert((a + b).last() == b.last());
    }
}

/// Counting a prefix through one more entry counts at most the whole.
proof fn lemma_req_count_prefix(rs: Seq<GenBuilderView>, j: int, t: GenType)
    requires
        0 <= j < rs.len(),
    ensures
        req_count(rs.take(j), t) + (if rs[j].typ == t && !is_default_request(request_of(rs[j])) { 1nat } else { 0nat })
            <= req_count(rs, t),
{
    assert(rs.take(j + 1).drop_last() =~= rs.take(j));
    assert(rs =~= rs.take(j + 1) + rs.skip(j + 1));
    lemma_req_count_append(rs.take(j + 1), rs.skip(j + 1), t);
}

/// Every generator entry of the bars: each bar's left side, then its right side.
pub open spec fn all_requests(bars: Seq<BarBuilderView>) -> Seq<GenBuilderView>
    decreases bars.len(),
{
    if bars.len() == 0 {
        Seq::empty()
    } else {
        all_requests(bars.drop_last()) + bars.last().left + bars.last().right
    }
}

proof fn lemma_all_requests_prefix(bars: Seq<BarBuilderView>, k: int, t: GenType)
    requires
        0 <= k <= bars.len(),
    ensures
        req_count(all_requests(bars.take(k)), t) <= req_count(all_requests(bars), t),
    decreases bars.len() - k,
{
    if k == bars.len() {
        assert(bars.take(k) =~= bars);
    } else {
        lemma_all_requests_prefix(bars, k + 1, t);
        let p = bars.take(k + 1);
        assert(p.drop_last() =~= bars.take(k));
        lemma_req_count_append(all_requests(bars.take(k)) + p.last().left, p.last().right, t);
        lemma_req_count_append(all_requests(bars.take(k)), p.last().left, t);
    }
}

/// The layout asks for more kind-`t` instances with a name or an argument
/// than the discriminators from `FIRST_CUSTOM_ID` on can hold, counting
/// those the previous configuration keeps.
pub open spec fn too_many(bars: Seq<BarBuilderView>, p: Option<SetupView>, t: GenType) -> bool {
    req_count(all_requests(bars), t) + prev_count(p, t) >= 256 - FIRST_CUSTOM_ID
}

/// Two different requests of the layout share a name.
pub open spec fn name_clash(bars: Seq<BarBuilderView>) -> bool {
    let rs = all_requests(bars);
    exists|i: int, j: int|
        0 <= i < j < rs.len() && (#[trigger] rs[i]).name is Some && rs[i].name == (#[trigger] rs[j]).name
            && request_of(rs[i]) != request_of(rs[j])
}

pub open spec fn kview(x: (GenType, Option<GenArg>, Option<String>)) -> ModuleKey {
    ModuleKey { gen: x.0, name: opt_name_view(x.2), arg: opt_arg_view(x.1) }
}

pub open spec fn keys_view(v: Seq<(GenType, Option<GenArg>, Option<String>)>) -> Seq<ModuleKey> {
    v.map_values(|x: (GenType, Option<GenArg>, Option<String>)| kview(x))
}

fn same_key(a: &(GenType, Option<GenArg>, Option<String>), b: &(GenType, Option<GenArg>, Option<String>)) -> (r: bool)
    ensures
        r == (kview(*a) == kview(*b)),
{
    let n = match (&a.2, &b.2) {
        (Some(x), Some(y)) => *x == *y,
        (None, None) => true,
        _ => false,
    };
    let g = match (&a.1, &b.1) {
        (Some(x), Some(y)) => x.same_as(y),
        (None, None) => true,
        _ => false,
    };
    a.0 == b.0 && n && g
}

fn push_requests(out: &mut Vec<(GenType, Option<GenArg>, Option<String>)>, gens: &Vec<GenBuilder>)
    ensures
        keys_view(final(out)@) == keys_view(old(out)@) + gens_view(gens@).map_values(|g: GenBuilderView| request_of(g)),
{
    let ghost o0 = keys_view(out@);
    let mut j: usize = 0;
    while j < gens.len()
        invariant
            j <= gens@.len(),
            keys_view(out@) == o0 + gens_view(gens@).map_values(|g: GenBuilderView| request_of(g)).take(j as int),
        decreases gens.len() - j,
    {
        let x = gens[j].request();
        let ghost before = out@;
        out.push(x);
        assert(keys_view(out@) =~= keys_view(before).push(kview(x)));
        assert(gens_view(gens@).map_values(|g: GenBuilderView| request_of(g)).take(j + 1) =~= gens_view(gens@).map_values(
            |g: GenBuilderView| request_of(g),
        ).take(j as int).push(request_of(gens@[j as int]@)));
        j += 1;
    }
    assert(gens_view(gens@).map_values(|g: GenBuilderView| request_of(g)).take(j as int) =~= gens_view(gens@).map_values(
        |g: GenBuilderView| request_of(g),
    ));
}

/// Gives an instance for each request of a bar side, in order.
fn build_side(gens: &Vec<GenBuilder>, setup: &mut SetupConfig, prev: Option<&SetupConfig>) -> (r: Option<Vec<GenId>>)
    requires
        old(setup)@.wf(),
        prev is Some ==> prev.unwrap()@.wf(),
        ids_sound(old(setup)@, opt_view(prev)),
    ensures
        final(setup)@.wf(),
        ids_sound(final(setup)@, opt_view(prev)),
        forall|t: GenType| #[trigger] custom_count(final(setup)@.modules, t) <= custom_count(old(setup)@.modules, t)
            + req_count(gens_view(gens@), t),
        r is None ==> exists|t: GenType| custom_count(old(setup)@.modules, t) + req_count(gens_view(gens@), t)
            + prev_count(opt_view(prev), t) >= 256 - FIRST_CUSTOM_ID,
        final(setup)@.bars == old(setup)@.bars,
        forall|q: ModuleKey| find_module(old(setup)@, q) is Some ==> #[trigger] find_module(final(setup)@, q) == find_module(old(setup)@, q),
        match r {
            Some(ids) => ids@.len() == gens@.len() && forall|j: int| 0 <= j < gens@.len() ==> find_module(
                final(setup)@,
                request_of(#[trigger] gens@[j]@),
            ) == Some(ids@[j]),
            None => exists|j: int| 0 <= j < gens@.len() && !is_default_request(request_of(#[trigger] gens@[j]@)),
        },
{
    let ghost pv: Option<SetupView> = match prev {
        Some(p) => Some(p@),
        None => None,
    };
    let mut ids: Vec<GenId> = Vec::new();
    let mut j: usize = 0;
    while j < gens.len()
        invariant
            j <= gens@.len(),
            ids@.len() == j,
            setup@.wf(),
            prev is Some ==> prev.unwrap()@.wf(),
            pv == (match prev {
                Some(p) => Some(p@),
                None => None,
            }),
            setup@.bars == old(setup)@.bars,
            pv == opt_view(prev),
            ids_sound(setup@, pv),
            forall|t: GenType| #[trigger] custom_count(setup@.modules, t) <= custom_count(old(setup)@.modules, t)
                + req_count(gens_view(gens@).take(j as int), t),
            forall|q: ModuleKey| find_module(old(setup)@, q) is Some ==> #[trigger] find_module(setup@, q) == find_module(old(setup)@, q),
            forall|m: int| 0 <= m < j ==> find_module(setup@, request_of(#[trigger] gens@[m]@)) == Some(ids@[m]),
        decreases gens.len() - j,
    {
        let (gen, arg, name) = gens[j].request();
        let ghost before = setup@;
        let ghost k = ModuleKey { gen, name: opt_name_view(name), arg: opt_arg_view(arg) };
        let r = setup.create_module(gen, arg, name, prev);
        proof {
            assert forall|q: ModuleKey| find_module(before, q) is Some implies #[trigger] find_module(setup@, q) == find_module(before, q) by {
                lemma_created(before, pv, k, r, setup@, q);
            }
            lemma_created(before, pv, k, r, setup@, k);
            lemma_created_sound(before, pv, k, r, setup@);
            let gv = gens_view(gens@);
            assert(gv.take(j + 1).drop_last() =~= gv.take(j as int));
            assert(gv.take(j + 1).last() == gens@[j as int]@);
            assert(k == request_of(gens@[j as int]@));
        }
        match r {
            Some(id) => {
                ids.push(id);
                proof {
                    assert forall|m: int| 0 <= m < j + 1 implies find_module(setup@, request_of(#[trigger] gens@[m]@)) == Some(ids@[m]) by {
                        if m < j {
                            assert(find_module(before, request_of(gens@[m]@)) == Some(ids@[m]));
                        }
                    }
                }
            },
            None => {
                assert(!is_default_request(request_of(gens@[j as int]@)));
                proof {
                    assert forall|t: GenType| #[trigger] custom_count(setup@.modules, t) <= custom_count(old(setup)@.modules, t)
                        + req_count(gens_view(gens@), t) by {
                        lemma_req_count_prefix(gens_view(gens@), j as int, t);
                    }
                    lemma_req_count_prefix(gens_view(gens@), j as int, k.gen);
                    assert(gens_view(gens@)[j as int] == gens@[j as int]@);
                }
                return None;
            },
        }
        j += 1;
    }
    assert(gens_view(gens@).take(j as int) =~= gens_view(gens@));
    Some(ids)
}

impl SetupBuilder {
    /// Resolves the layout against the connected outputs: each bar gets its
    /// output's screen and rectangle, the settings it or the layout gives,
    /// and one instance per request, equal requests sharing one. Two
    /// different requests with one name are refused first; then a bar on
    /// an output that is not connected; then a layout whose named or
    /// argument-carrying requests of one kind outnumber the discriminators.
    pub fn build_custom(self, xsetup: &XSetup, prev: Option<&SetupConfig>) -> (r: Result<SetupConfig, SetupError>)
        requires
            prev is Some ==> prev.unwrap()@.wf(),
        ensures
            (r == Err::<SetupConfig, SetupError>(SetupError::DuplicateName)) == name_clash(self@.bars),
            match r {
                Ok(c) => {
                    &&& c@.wf()
                    &&& c@.bars.len() == self@.bars.len()
                    &&& forall|i: int| 0 <= i < self@.bars.len() ==> bar_fits(self@, #[trigger] self@.bars[i], xsetup@, c@, c@.bars[i])
                    &&& forall|i: int, j: int| 0 <= i < self@.bars.len() && 0 <= j < self@.bars[i].left.len() ==> id_fits(
                        opt_view(prev),
                        request_of(#[trigger] self@.bars[i].left[j]),
                        c@.bars[i].left[j],
                    )
                    &&& forall|i: int, j: int| 0 <= i < self@.bars.len() && 0 <= j < self@.bars[i].right.len() ==> id_fits(
                        opt_view(prev),
                        request_of(#[trigger] self@.bars[i].right[j]),
                        c@.bars[i].right[j],
                    )
                },
                Err(SetupError::OutputNotConnected) => exists|i: int| 0 <= i < self@.bars.len() && find_output(xsetup@, #[trigger] self@.bars[i].output) is None,
                Err(SetupError::TooManyGenerators) => exists|t: GenType| too_many(self@.bars, opt_view(prev), t),
                Err(SetupError::DuplicateName) => true,
            },
            !name_clash(self@.bars) && (forall|i: int| 0 <= i < self@.bars.len() ==> find_output(xsetup@, #[trigger] self@.bars[i].output) is Some)
                ==> r != Err::<SetupConfig, SetupError>(SetupError::OutputNotConnected),
    {
        if self.has_name_clash() {
            return Err(SetupError::DuplicateName);
        }
        let ghost sv = self@;
        let r = self.resolve(xsetup, prev);
        proof {
            match &r {
                Ok(c) => {
                    assert forall|i: int, j: int| 0 <= i < sv.bars.len() && 0 <= j < sv.bars[i].left.len() implies id_fits(
                        opt_view(prev),
                        request_of(#[trigger] sv.bars[i].left[j]),
                        c@.bars[i].left[j],
                    ) by {
                        assert(bar_fits(sv, sv.bars[i], xsetup@, c@, c@.bars[i]));
                        lemma_found_fits(c@, opt_view(prev), request_of(sv.bars[i].left[j]));
                    }
                    assert forall|i: int, j: int| 0 <= i < sv.bars.len() && 0 <= j < sv.bars[i].right.len() implies id_fits(
                        opt_view(prev),
                        request_of(#[trigger] sv.bars[i].right[j]),
                        c@.bars[i].right[j],
                    ) by {
                        assert(bar_fits(sv, sv.bars[i], xsetup@, c@, c@.bars[i]));
                        lemma_found_fits(c@, opt_view(prev), request_of(sv.bars[i].right[j]));
                    }
                },
                Err(_) => {},
            }
        }
        r
    }

    /// Whether two different requests of the layout share a name.
    pub fn has_name_clash(&self) -> (r: bool)
        ensures
            r == name_clash(self@.bars),
    {
        let mut keys: Vec<(GenType, Option<GenArg>, Option<String>)> = Vec::new();
        let mut i: usize = 0;
        assert(self@.bars.take(0) =~= Seq::<BarBuilderView>::empty());
        assert(keys_view(keys@) =~= Seq::<ModuleKey>::empty());
        while i < self.bars.len()
            invariant
                i <= self@.bars.len(),
                self@.bars.len() == self.bars@.len(),
                keys_view(keys@) == all_requests(self@.bars.take(i as int)).map_values(|g: GenBuilderView| request_of(g)),
            decreases self.bars.len() - i,
        {
            let b = &self.bars[i];
            push_requests(&mut keys, &b.left);
            push_requests(&mut keys, &b.right);
            proof {
                assert(self@.bars[i as int] == b@);
                let p1 = self@.bars.take(i + 1);
                assert(p1.drop_last() =~= self@.bars.take(i as int));
                assert(p1.last() == b@);
                assert(all_requests(p1).map_values(|g: GenBuilderView| request_of(g)) =~= all_requests(
                    self@.bars.take(i as int),
                ).map_values(|g: GenBuilderView| request_of(g)) + b@.left.map_values(|g: GenBuilderView| request_of(g))
                    + b@.right.map_values(|g: GenBuilderView| request_of(g)));
            }
            i += 1;
        }
        assert(self@.bars.take(i as int) =~= self@.bars);
        let ghost rs = all_requests(self@.bars);
        assert forall|k: int| 0 <= k < keys@.len() implies #[trigger] kview(keys@[k]) == request_of(rs[k]) by {
            assert(keys_view(keys@)[k] == kview(keys@[k]));
        }
        let mut b: usize = 0;
        while b < keys.len()
            invariant
                b <= keys@.len(),
                keys@.len() == rs.len(),
                rs == all_requests(self@.bars),
                forall|k: int| 0 <= k < keys@.len() ==> #[trigger] kview(keys@[k]) == request_of(rs[k]),
                forall|x: int, y: int| 0 <= x < y < b ==> !((#[trigger] rs[x]).name is Some && rs[x].name == (#[trigger] rs[y]).name
                    && request_of(rs[x]) != request_of(rs[y])),
            decreases keys.len() - b,
        {
            let mut a: usize = 0;
            while a < b
                invariant
                    a <= b < keys@.len(),
                    keys@.len() == rs.len(),
                    rs == all_requests(self@.bars),
                    forall|k: int| 0 <= k < keys@.len() ==> #[trigger] kview(keys@[k]) == request_of(rs[k]),
                    forall|x: int, y: int| 0 <= x < y < b ==> !((#[trigger] rs[x]).name is Some && rs[x].name == (#[trigger] rs[y]).name
                        && request_of(rs[x]) != request_of(rs[y])),
                    forall|x: int| 0 <= x < a ==> !((#[trigger] rs[x]).name is Some && rs[x].name == rs[b as int].name
                        && request_of(rs[x]) != request_of(rs[b as int])),
                decreases b - a,
            {
                let named_alike = match (&keys[a].2, &keys[b].2) {
                    (Some(x), Some(y)) => *x == *y,
                    _ => false,
                };
                proof {
                    assert(kview(keys@[a as int]) == request_of(rs[a as int]));
                    assert(kview(keys@[b as int]) == request_of(rs[b as int]));
                }
                if named_alike && !same_key(&keys[a], &keys[b]) {
                    assert(rs[a as int].name is Some && rs[a as int].name == rs[b as int].name
                        && request_of(rs[a as int]) != request_of(rs[b as int]));
                    return true;
                }
                a += 1;
            }
            b += 1;
        }
        false
    }

    fn resolve(self, xsetup: &XSetup, prev: Option<&SetupConfig>) -> (r: Result<SetupConfig, SetupError>)
        requires
            prev is Some ==> prev.unwrap()@.wf(),
        ensures
            match r {
                Ok(c) => {
                    &&& c@.wf()
                    &&& ids_sound(c@, opt_view(prev))
                    &&& c@.bars.len() == self@.bars.len()
                    &&& forall|i: int| 0 <= i < self@.bars.len() ==> bar_fits(self@, #[trigger] self@.bars[i], xsetup@, c@, c@.bars[i])
                },
                Err(SetupError::OutputNotConnected) => exists|i: int| 0 <= i < self@.bars.len() && find_output(xsetup@, #[trigger] self@.bars[i].output) is None,
                Err(SetupError::TooManyGenerators) => exists|t: GenType| too_many(self@.bars, opt_view(prev), t),
                Err(SetupError::DuplicateName) => false,
            },
            (forall|i: int| 0 <= i < self@.bars.len() ==> find_output(xsetup@, #[trigger] self@.bars[i].output) is Some)
                ==> r != Err::<SetupConfig, SetupError>(SetupError::OutputNotConnected),
    {
        let mut setup = SetupConfig::new();
        let mut i: usize = 0;
        let ghost sv = self@;
        let ghost pv = opt_view(prev);
        assert(self@.bars.take(0) =~= Seq::<BarBuilderView>::empty());
        while i < self.bars.len()
            invariant
                sv == self@,
                pv == opt_view(prev),
                ids_sound(setup@, pv),
                forall|t: GenType| #[trigger] custom_count(setup@.modules, t) <= req_count(all_requests(self@.bars.take(i as int)), t),
                i <= self@.bars.len(),
                self@.bars.len() == self.bars@.len(),
                setup@.wf(),
                prev is Some ==> prev.unwrap()@.wf(),
                setup@.bars.len() == i,
                forall|b: int| 0 <= b < i ==> bar_fits(self@, #[trigger] self@.bars[b], xsetup@, setup@, setup@.bars[b]),
            decreases self.bars.len() - i,
        {
            let b = &self.bars[i];
            assert(self@.bars[i as int] == b@);
            let mut bar = match BarConfig::new(copy_string(b.output.as_str()), xsetup) {
                Some(bar) => bar,
                None => {
                    assert(find_output(xsetup@, self@.bars[i as int].output) is None);
                    return Err(SetupError::OutputNotConnected);
                },
            };
            bar.tray = b.tray;
            match &b.sep {
                Some(s) => {
                    bar.separator = s.clone();
                },
                None => match &self.global_sep {
                    Some(s) => {
                        bar.separator = s.clone();
                    },
                    None => {},
                },
            }
            match b.pad {
                Some(p) => {
                    bar.padding = p;
                },
                None => match self.global_pad {
                    Some(p) => {
                        bar.padding = p;
                    },
                    None => {},
                },
            }
            match b.split {
                Some(p) => {
                    bar.split = p;
                },
                None => match self.global_split {
                    Some(p) => {
                        bar.split = p;
                    },
                    None => {},
                },
            }
            let ghost s0 = setup@;
            proof {
                let p1 = self@.bars.take(i + 1);
                assert(p1.drop_last() =~= self@.bars.take(i as int));
                assert(p1.last() == b@);
                assert(gens_view(b.left@) == b@.left);
                assert(gens_view(b.right@) == b@.right);
                assert forall|t: GenType| req_count(all_requests(self@.bars.take(i as int)), t) + req_count(b@.left, t)
                    + req_count(b@.right, t) <= #[trigger] req_count(all_requests(self@.bars), t) by {
                    lemma_req_count_append(all_requests(self@.bars.take(i as int)) + b@.left, b@.right, t);
                    lemma_req_count_append(all_requests(self@.bars.take(i as int)), b@.left, t);
                    lemma_all_requests_prefix(self@.bars, i + 1, t);
                }
            }
            let left = match build_side(&b.left, &mut setup, prev) {
                Some(ids) => ids,
                None => {
                    proof {
                        let t = choose|t: GenType| custom_count(s0.modules, t) + req_count(gens_view(b.left@), t)
                            + prev_count(opt_view(prev), t) >= 256 - FIRST_CUSTOM_ID;
                        assert(custom_count(s0.modules, t) <= req_count(all_requests(self@.bars.take(i as int)), t));
                        assert(req_count(all_requests(self@.bars.take(i as int)), t) + req_count(b@.left, t)
                            + req_count(b@.right, t) <= req_count(all_requests(self@.bars), t));
                        assert(too_many(self@.bars, pv, t));
                    }
                    return Err(SetupError::TooManyGenerators);
                },
            };
            let ghost s1 = setup@;
            let right = match build_side(&b.right, &mut setup, prev) {
                Some(ids) => ids,
                None => {
                    proof {
                        let t = choose|t: GenType| custom_count(s1.modules, t) + req_count(gens_view(b.right@), t)
                            + prev_count(opt_view(prev), t) >= 256 - FIRST_CUSTOM_ID;
                        assert(custom_count(s1.modules, t) <= custom_count(s0.modules, t) + req_count(gens_view(b.left@), t));
                        assert(custom_count(s0.modules, t) <= req_count(all_requests(self@.bars.take(i as int)), t));
                        assert(req_count(all_requests(self@.bars.take(i as int)), t) + req_count(b@.left, t)
                            + req_count(b@.right, t) <= req_count(all_requests(self@.bars), t));
                        assert(too_many(self@.bars, pv, t));
                    }
                    return Err(SetupError::TooManyGenerators);
                },
            };
            bar.left = left;
            bar.right = right;
            proof {
                assert forall|j: int| 0 <= j < b@.left.len() implies find_module(setup@, request_of(#[trigger] b@.left[j]))
                    == Some(bar@.left[j]) by {
                    assert(b@.left[j] == b.left@[j]@);
                    assert(find_module(s1, request_of(b.left@[j]@)) == Some(bar@.left[j]));
                }
                assert forall|j: int| 0 <= j < b@.right.len() implies find_module(setup@, request_of(#[trigger] b@.right[j]))
                    == Some(bar@.right[j]) by {
                    assert(b@.right[j] == b.right@[j]@);
                }
                assert(bar_fits(self@, b@, xsetup@, setup@, bar@));
                assert forall|c: int| 0 <= c < i implies bar_fits(self@, #[trigger] self@.bars[c], xsetup@, setup@, setup@.bars[c]) by {
                    let bb = self@.bars[c];
                    assert(bar_fits(self@, bb, xsetup@, s0, s0.bars[c]));
                    assert forall|j: int| 0 <= j < bb.left.len() implies find_module(setup@, request_of(#[trigger] bb.left[j]))
                        == Some(setup@.bars[c].left[j]) by {
                        assert(find_module(s0, request_of(bb.left[j])) == Some(s0.bars[c].left[j]));
                        assert(find_module(s1, request_of(bb.left[j])) == Some(s0.bars[c].left[j]));
                    }
                    assert forall|j: int| 0 <= j < bb.right.len() implies find_module(setup@, request_of(#[trigger] bb.right[j]))
                        == Some(setup@.bars[c].right[j]) by {
                        assert(find_module(s0, request_of(bb.right[j])) == Some(s0.bars[c].right[j]));
                        assert(find_module(s1, request_of(bb.right[j])) == Some(s0.bars[c].right[j]));
                    }
                }
            }
            let ghost s2 = setup@;
            setup.add_bar(bar);
            proof {
                assert(setup@.bars[i as int] == bar@);
                assert(setup@.modules == s2.modules && setup@.names == s2.names && setup@.arguments == s2.arguments);
                assert(key_of(setup@, GenId { gen: GenType::CPU, id: 0 }) == key_of(s2, GenId { gen: GenType::CPU, id: 0 }));
                assert forall|m: GenId| key_of(setup@, m) == key_of(s2, m) by {}
                let p1 = self@.bars.take(i + 1);
                assert(p1.drop_last() =~= self@.bars.take(i as int));
                assert(p1.last() == b@);
                assert forall|t: GenType| #[trigger] custom_count(setup@.modules, t) <= req_count(all_requests(self@.bars.take(i + 1)), t) by {
                    assert(custom_count(s2.modules, t) <= custom_count(s1.modules, t) + req_count(gens_view(b.right@), t));
                    assert(custom_count(s1.modules, t) <= custom_count(s0.modules, t) + req_count(gens_view(b.left@), t));
                    lemma_req_count_append(all_requests(self@.bars.take(i as int)) + b@.left, b@.right, t);
                    lemma_req_count_append(all_requests(self@.bars.take(i as int)), b@.left, t);
                }
                assert forall|c: int| 0 <= c < i + 1 implies bar_fits(self@, #[trigger] self@.bars[c], xsetup@, setup@, setup@.bars[c]) by {
                    let bb = self@.bars[c];
                    assert(setup@.bars[c] == if c < i { s2.bars[c] } else { bar@ });
                    assert(bar_fits(self@, bb, xsetup@, s2, setup@.bars[c]));
                    assert forall|j: int| 0 <= j < bb.left.len() implies find_module(setup@, request_of(#[trigger] bb.left[j]))
                        == Some(setup@.bars[c].left[j]) by {
                        lemma_find_in_same_keys(s2, setup@, s2.modules, request_of(bb.left[j]));
                    }
                    assert forall|j: int| 0 <= j < bb.right.len() implies find_module(setup@, request_of(#[trigger] bb.right[j]))
                        == Some(setup@.bars[c].right[j]) by {
                        lemma_find_in_same_keys(s2, setup@, s2.modules, request_of(bb.right[j]));
                    }
                }
            }
            i += 1;
        }
        Ok(setup)
    }
}

/// The sequence without repeats, each element kept where it first occurs.
pub open spec fn dedup(s: Seq<GenId>) -> Seq<GenId>
    decreases s.len(),
{
    if s.len() == 0 {
        Seq::empty()
    } else if dedup(s.drop_last()).contains(s.last()) {
        dedup(s.drop_last())
    } else {
        dedup(s.drop_last()).push(s.last())
    }
}

/// The ids of all bars, left half then right half, bar after bar.
pub open spec fn all_bar_ids(bars: Seq<BarView>) -> Seq<GenId>
    decreases bars.len(),
{
    if bars.len() == 0 {
        Seq::empty()
    } else {
        all_bar_ids(bars.drop_last()) + bars.last().left + bars.last().right
    }
}

/// Distinct ids have distinct keys.
pub proof fn lemma_key_injective(a: GenId, b: GenId)
    ensures
        (a.gen.spec_ordinal() as u16 * 256 + a.id as u16 == b.gen.spec_ordinal() as u16 * 256 + b.id as u16) ==> a == b,
{
}

/// Relies on `Itertools::unique_by`: the items in their order, each kept
/// where it first occurs, items being the same when their keys are equal;
/// `GenId::key` is injective (`lemma_key_injective`).
#[verifier::external_body]
fn unique_ids(v: &Vec<GenId>) -> (r: Vec<GenId>)
    ensures
        r@ == dedup(v@),
{
    v.iter().copied().unique_by(|g| g.key()).collect()
}

impl SetupConfig {
    /// Every id that a bar shows, once, in order of first appearance.
    pub fn iter(&self) -> (r: Vec<GenId>)
        ensures
            r@ == dedup(all_bar_ids(self@.bars)),
    {
        let mut all: Vec<GenId> = Vec::new();
        let mut i: usize = 0;
        while i < self.bars.len()
            invariant
                i <= self.bars@.len(),
                all@ == all_bar_ids(self@.bars.take(i as int)),
            decreases self.bars.len() - i,
        {
            let ids = self.bars[i].iter();
            let mut j: usize = 0;
            let ghost a0 = all@;
            while j < ids.len()
                invariant
                    j <= ids@.len(),
                    all@ == a0 + ids@.take(j as int),
                decreases ids.len() - j,
            {
                all.push(ids[j]);
                assert(all@ =~= a0 + ids@.take(j + 1));
                j += 1;
            }
            proof {
                assert(ids@.take(j as int) =~= ids@);
                assert(self@.bars.take(i + 1).drop_last() =~= self@.bars.take(i as int));
                assert(self@.bars[i as int] == self.bars@[i as int]@);
                assert(all@ =~= all_bar_ids(self@.bars.take(i + 1)));
            }
            i += 1;
        }
        assert(self@.bars.take(i as int) =~= self@.bars);
        unique_ids(&all)
    }
}

/// The kind's name as `Debug` writes it.
pub open spec fn gen_type_name(g: GenType) -> Seq<char> {
    match g {
        GenType::CPU => "CPU"@,
        GenType::RAM => "RAM"@,
        GenType::ECHO => "ECHO"@,
        GenType::TIME => "TIME"@,
        GenType::NET => "NET"@,
        GenType::DISK => "DISK"@,
        GenType::TEMP => "TEMP"@,
        GenType::IP => "IP"@,
        GenType::ONE => "ONE"@,
        GenType::BAT => "BAT"@,
    }
}

/// The lines describing an argument's timeout, argument and prepended markup, where set.
pub open spec fn arg_lines(a: GenArgView) -> Seq<char> {
    (match a.timeout {
        Some(t) => "      timeout="@ + decimal(t as nat) + "\n"@,
        None => Seq::empty(),
    }) + (match a.arg {
        Some(x) => "      arg="@ + x + "\n"@,
        None => Seq::empty(),
    }) + (match a.prepend {
        Some(p) => "      prepend="@ + p.rendered() + "\n"@,
        None => Seq::empty(),
    })
}

/// The lines describing one generator: kind and discriminator, then its
/// timeout, argument, prepended markup and name, where set.
pub open spec fn gen_lines(v: SetupView, g: GenId) -> Seq<char> {
    let head = "    "@ + gen_type_name(g.gen) + "("@ + decimal(g.id as nat) + ")\n"@;
    let args = match first_entry(v.arguments, g) {
        Some(a) => arg_lines(a),
        None => Seq::empty(),
    };
    let name = match first_entry(v.names, g) {
        Some(n) => "      name="@ + n + "\n"@,
        None => Seq::empty(),
    };
    head + args + name
}

pub open spec fn gens_lines(v: SetupView, ids: Seq<GenId>) -> Seq<char>
    decreases ids.len(),
{
    if ids.len() == 0 {
        Seq::empty()
    } else {
        gens_lines(v, ids.drop_last()) + gen_lines(v, ids.last())
    }
}

/// The lines describing bars: each output, then its left and right generators.
pub open spec fn bars_lines(v: SetupView, bars: Seq<BarView>) -> Seq<char>
    decreases bars.len(),
{
    if bars.len() == 0 {
        Seq::empty()
    } else {
        let b = bars.last();
        bars_lines(v, bars.drop_last()) + b.output + "\n"@ + "  left:\n"@ + gens_lines(v, b.left) + "  right:\n"@
            + gens_lines(v, b.right)
    }
}

fn kind_name(g: GenType) -> (r: String)
    ensures
        r@ == gen_type_name(g),
{
    let s = match g {
        GenType::CPU => "CPU",
        GenType::RAM => "RAM",
        GenType::ECHO => "ECHO",
        GenType::TIME => "TIME",
        GenType::NET => "NET",
        GenType::DISK => "DISK",
        GenType::TEMP => "TEMP",
        GenType::IP => "IP",
        GenType::ONE => "ONE",
        GenType::BAT => "BAT",
    };
    String::from_str(s)
}

impl SetupConfig {
    fn describe_arg(a: &GenArg) -> (r: String)
        ensures
            r@ == arg_lines(a@),
    {
        let mut out = String::new();
        match a.timeout {
            Some(t) => {
                out.append("      timeout=");
                out.append(u64_to_string(t).as_str());
                out.append("\n");
            },
            None => {},
        }
        match &a.arg {
            Some(x) => {
                out.append("      arg=");
                out.append(x.as_str());
                out.append("\n");
            },
            None => {},
        }
        match &a.prepend {
            Some(p) => {
                out.append("      prepend=");
                out.append(p.to_string().as_str());
                out.append("\n");
            },
            None => {},
        }
        proof {
            reveal_strlit("");
        }
        assert(out@ =~= arg_lines(a@));
        out
    }

    fn describe_gen(&self, out: &mut String, g: GenId)
        ensures
            final(out)@ == old(out)@ + gen_lines(self@, g),
    {
        let ghost o0 = out@;
        out.append("    ");
        out.append(kind_name(g.gen).as_str());
        out.append("(");
        out.append(g.to_string().as_str());
        out.append(")\n");
        let args = match self.arg_entry(g) {
            Some(a) => Self::describe_arg(a),
            None => String::new(),
        };
        out.append(args.as_str());
        let name = match self.name_entry(g) {
            Some(n) => {
                let mut t = String::from_str("      name=");
                t.append(n.as_str());
                t.append("\n");
                t
            },
            None => String::new(),
        };
        out.append(name.as_str());
        assert(out@ =~= o0 + gen_lines(self@, g));
    }

    fn describe_gens(&self, out: &mut String, ids: &Vec<GenId>)
        ensures
            final(out)@ == old(out)@ + gens_lines(self@, ids@),
    {
        let ghost o0 = out@;
        let mut i: usize = 0;
        while i < ids.len()
            invariant
                i <= ids@.len(),
                out@ == o0 + gens_lines(self@, ids@.take(i as int)),
            decreases ids.len() - i,
        {
            self.describe_gen(out, ids[i]);
            assert(ids@.take(i + 1).drop_last() =~= ids@.take(i as int));
            assert(out@ =~= o0 + gens_lines(self@, ids@.take(i + 1)));
            i += 1;
        }
        assert(ids@.take(i as int) =~= ids@);
    }

    /// A readable listing of the bars and their generators.
    pub fn describe(&self) -> (r: String)
        ensures
            r@ == bars_lines(self@, self@.bars),
    {
        let mut out = String::new();
        let mut i: usize = 0;
        while i < self.bars.len()
            invariant
                i <= self.bars@.len(),
                out@ == bars_lines(self@, self@.bars.take(i as int)),
            decreases self.bars.len() - i,
        {
            let b = &self.bars[i];
            out.append(b.get_output());
            out.append("\n");
            out.append("  left:\n");
            self.describe_gens(&mut out, b.iter_left());
            out.append("  right:\n");
            self.describe_gens(&mut out, b.iter_right());
            proof {
                assert(self@.bars[i as int] == b@);
                assert(self@.bars.take(i + 1).drop_last() =~= self@.bars.take(i as int));
                assert(out@ =~= bars_lines(self@, self@.bars.take(i + 1)));
            }
            i += 1;
        }
        assert(self@.bars.take(i as int) =~= self@.bars);
        out
    }
}

/// What differs between two configurations: the bars on outputs that only
/// one of them has (the first bar of each such output), and the generators
/// that only one of them shows.
pub struct SetupDiff<'a> {
    pub bar_minus: Vec<&'a BarConfig>,
    pub bar_plus: Vec<&'a BarConfig>,
    pub gen_minus: Vec<GenId>,
    pub gen_plus: Vec<GenId>,
}

pub open spec fn outputs_of(bars: Seq<BarView>) -> Seq<Seq<char>> {
    bars.map_values(|b: BarView| b.output)
}

/// The first bar of each output of `bars` that `others` lacks, in order.
pub open spec fn bars_missing(bars: Seq<BarView>, others: Seq<Seq<char>>) -> Seq<BarView>
    decreases bars.len(),
{
    if bars.len() == 0 {
        Seq::empty()
    } else {
        let rest = bars_missing(bars.drop_last(), others);
        let b = bars.last();
        if !others.contains(b.output) && !outputs_of(bars.drop_last()).contains(b.output) {
            rest.push(b)
        } else {
            rest
        }
    }
}

fn has_output_in(bars: &Vec<BarConfig>, upto: usize, o: &str) -> (r: bool)
    requires
        upto <= bars@.len(),
    ensures
        r == outputs_of(bars@.map_values(|b: BarConfig| b@).take(upto as int)).contains(o@),
{
    let ghost bv = bars@.map_values(|b: BarConfig| b@).take(upto as int);
    let mut i: usize = 0;
    while i < upto
        invariant
            i <= upto <= bars@.len(),
            bv == bars@.map_values(|b: BarConfig| b@).take(upto as int),
            forall|k: int| 0 <= k < i ==> outputs_of(bv)[k] != o@,
        decreases upto - i,
    {
        assert(outputs_of(bv)[i as int] == bars@[i as int]@.output);
        if crate::text::str_eq(bars[i].get_output(), o) {
            return true;
        }
        i += 1;
    }
    false
}

fn missing_bars<'a>(bars: &'a Vec<BarConfig>, others: &Vec<BarConfig>) -> (r: Vec<&'a BarConfig>)
    ensures
        r@.map_values(|b: &BarConfig| b@) == bars_missing(
            bars@.map_values(|b: BarConfig| b@),
            outputs_of(others@.map_values(|b: BarConfig| b@)),
        ),
{
    let ghost bv = bars@.map_values(|b: BarConfig| b@);
    let ghost ov = outputs_of(others@.map_values(|b: BarConfig| b@));
    let mut r: Vec<&'a BarConfig> = Vec::new();
    let mut i: usize = 0;
    while i < bars.len()
        invariant
            i <= bars@.len(),
            bv == bars@.map_values(|b: BarConfig| b@),
            ov == outputs_of(others@.map_values(|b: BarConfig| b@)),
            r@.map_values(|b: &BarConfig| b@) == bars_missing(bv.take(i as int), ov),
        decreases bars.len() - i,
    {
        let b = &bars[i];
        let in_others = has_output_in(others, others.len(), b.get_output());
        let earlier = has_output_in(bars, i, b.get_output());
        proof {
            assert(bv.take(i + 1).drop_last() =~= bv.take(i as int));
            assert(bv.take(i + 1).last() == b@);
            assert(others@.map_values(|b: BarConfig| b@).take(others@.len() as int) =~= others@.map_values(|b: BarConfig| b@));
        }
        if !in_others && !earlier {
            let ghost r0 = r@;
            r.push(b);
            assert(r@.map_values(|b: &BarConfig| b@) =~= r0.map_values(|b: &BarConfig| b@).push(b@));
        }
        i += 1;
    }
    assert(bv.take(i as int) =~= bv);
    r
}

fn ids_missing(ids: &Vec<GenId>, others: &Vec<GenId>) -> (r: Vec<GenId>)
    ensures
        r@ == ids@.filter(|g: GenId| !others@.contains(g)),
{
    let mut r: Vec<GenId> = Vec::new();
    let mut i: usize = 0;
    while i < ids.len()
        invariant
            i <= ids@.len(),
            r@ == ids@.take(i as int).filter(|g: GenId| !others@.contains(g)),
        decreases ids.len() - i,
    {
        let g = ids[i];
        let mut found = false;
        let mut k: usize = 0;
        while k < others.len()
            invariant
                k <= others@.len(),
                found == exists|m: int| 0 <= m < k && others@[m] == g,
            decreases others.len() - k,
        {
            if others[k] == g {
                found = true;
            }
            k += 1;
        }
        proof {
            assert(ids@.take(i + 1).drop_last() =~= ids@.take(i as int));
            assert(ids@.take(i + 1).last() == g);
            vstd::seq_lib::lemma_seq_take_len(ids@, i as int);
            reveal(Seq::filter);
        }
        if !found {
            r.push(g);
        }
        i += 1;
    }
    assert(ids@.take(i as int) =~= ids@);
    r
}

impl SetupConfig {
    /// What changes from this configuration to `new`.
    pub fn diff<'a>(&'a self, new: &'a Self) -> (r: SetupDiff<'a>)
        ensures
            r.gen_minus@ == dedup(all_bar_ids(self@.bars)).filter(|g: GenId| !dedup(all_bar_ids(new@.bars)).contains(g)),
            r.gen_plus@ == dedup(all_bar_ids(new@.bars)).filter(|g: GenId| !dedup(all_bar_ids(self@.bars)).contains(g)),
            r.bar_minus@.map_values(|b: &BarConfig| b@) == bars_missing(self@.bars, outputs_of(new@.bars)),
            r.bar_plus@.map_values(|b: &BarConfig| b@) == bars_missing(new@.bars, outputs_of(self@.bars)),
    {
        let mine = self.iter();
        let theirs = new.iter();
        SetupDiff {
            bar_minus: missing_bars(&self.bars, &new.bars),
            bar_plus: missing_bars(&new.bars, &self.bars),
            gen_minus: ids_missing(&mine, &theirs),
            gen_plus: ids_missing(&theirs, &mine),
        }
    }
}

} // verus!
