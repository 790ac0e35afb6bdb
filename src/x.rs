//! The display outputs: each output's name, its Xinerama screen index and
//! its rectangle on the screen.

use vstd::prelude::*;

verus! {

/// x, y, width, height.
pub type Rectangle = (i16, i16, u16, u16);

pub struct XSetup {
    outputs: Vec<(String, usize, Rectangle)>,
}

pub open spec fn outputs_view(v: Seq<(String, usize, Rectangle)>) -> Seq<(Seq<char>, usize, Rectangle)> {
    v.map_values(|o: (String, usize, Rectangle)| (o.0@, o.1, o.2))
}

/// The index of the first output named `name`.
pub open spec fn find_output(v: Seq<(Seq<char>, usize, Rectangle)>, name: Seq<char>) -> Option<int>
    decreases v.len(),
{
    if v.len() == 0 {
        None
    } else if v[0].0 == name {
        Some(0)
    } else {
        match find_output(v.drop_first(), name) {
            Some(i) => Some(i + 1),
            None => None,
        }
    }
}

pub proof fn lemma_find_output(v: Seq<(Seq<char>, usize, Rectangle)>, name: Seq<char>)
    ensures
        match find_output(v, name) {
            Some(i) => 0 <= i < v.len() && v[i].0 == name && forall|k: int| 0 <= k < i ==> v[k].0 != name,
            None => forall|k: int| 0 <= k < v.len() ==> v[k].0 != name,
        },
    decreases v.len(),
{
    if v.len() > 0 {
        lemma_find_output(v.drop_first(), name);
        assert forall|k: int| 1 <= k < v.len() implies v[k] == v.drop_first()[k - 1] by {}
    }
}

/// The index of the first output with Xinerama index `xin`.
pub open spec fn find_xinerama(v: Seq<(Seq<char>, usize, Rectangle)>, xin: usize) -> Option<int>
    decreases v.len(),
{
    if v.len() == 0 {
        None
    } else if v[0].1 == xin {
        Some(0)
    } else {
        match find_xinerama(v.drop_first(), xin) {
            Some(i) => Some(i + 1),
            None => None,
        }
    }
}

impl View for XSetup {
    type V = Seq<(Seq<char>, usize, Rectangle)>;

    closed spec fn view(&self) -> Seq<(Seq<char>, usize, Rectangle)> {
        outputs_view(self.outputs@)
    }
}

impl XSetup {
    /// The outputs as (name, Xinerama index, rectangle).
    pub fn from_outputs(outputs: Vec<(String, usize, Rectangle)>) -> (r: Self)
        ensures
            r@ == outputs_view(outputs@),
    {
        XSetup { outputs }
    }

    fn position_of(&self, name: &str) -> (r: Option<usize>)
        ensures
            match r {
                Some(i) => find_output(self@, name@) == Some(i as int),
                None => find_output(self@, name@) is None,
            },
    {
        let mut i: usize = 0;
        while i < self.outputs.len()
            invariant
                i <= self@.len(),
                self@.len() == self.outputs@.len(),
                forall|k: int| 0 <= k < i ==> self@[k].0 != name@,
            decreases self.outputs.len() - i,
        {
            assert(self@[i as int] == (self.outputs@[i as int].0@, self.outputs@[i as int].1, self.outputs@[i as int].2));
            if crate::text::str_eq(self.outputs[i].0.as_str(), name) {
                proof {
                    lemma_find_output(self@, name@);
                    assert(self@[i as int].0 == name@);
                }
                return Some(i);
            }
            assert(self@[i as int].0 != name@);
            i += 1;
        }
        proof {
            lemma_find_output(self@, name@);
        }
        None
    }

    /// The Xinerama index of the first output named `name`.
    pub fn get_xinerama(&self, name: &str) -> (r: Option<usize>)
        ensures
            r == (match find_output(self@, name@) {
                Some(i) => Some(self@[i].1),
                None => None,
            }),
    {
        proof {
            lemma_find_output(self@, name@);
        }
        match self.position_of(name) {
            Some(i) => {
                assert(self@[i as int] == (self.outputs@[i as int].0@, self.outputs@[i as int].1, self.outputs@[i as int].2));
                Some(self.outputs[i].1)
            },
            None => None,
        }
    }

    /// The rectangle of the first output named `name`.
    pub fn get_rect(&self, name: &str) -> (r: Option<Rectangle>)
        ensures
            r == (match find_output(self@, name@) {
                Some(i) => Some(self@[i].2),
                None => None,
            }),
    {
        proof {
            lemma_find_output(self@, name@);
        }
        match self.position_of(name) {
            Some(i) => {
                assert(self@[i as int] == (self.outputs@[i as int].0@, self.outputs@[i as int].1, self.outputs@[i as int].2));
                Some(self.outputs[i].2)
            },
            None => None,
        }
    }

    /// The name of the first output with Xinerama index `xinerama`.
    pub fn get_name(&self, xinerama: usize) -> (r: Option<String>)
        ensures
            match find_xinerama(self@, xinerama) {
                Some(i) => r is Some && r.unwrap()@ == self@[i].0,
                None => r is None,
            },
    {
        let mut i: usize = 0;
        while i < self.outputs.len()
            invariant
                i <= self@.len(),
                self@.len() == self.outputs@.len(),
                forall|k: int| 0 <= k < i ==> self@[k].1 != xinerama,
            decreases self.outputs.len() - i,
        {
            assert(self@[i as int] == (self.outputs@[i as int].0@, self.outputs@[i as int].1, self.outputs@[i as int].2));
            if self.outputs[i].1 == xinerama {
                proof {
                    lemma_find_xinerama(self@, xinerama);
                }
                return Some(self.outputs[i].0.clone());
            }
            i += 1;
        }
        proof {
            lemma_find_xinerama(self@, xinerama);
        }
        None
    }

    /// The names of all outputs, in order.
    pub fn outputs(&self) -> (r: Vec<String>)
        ensures
            r@.len() == self@.len(),
            forall|i: int| 0 <= i < r@.len() ==> #[trigger] r@[i]@ == self@[i].0,
    {
        let mut r: Vec<String> = Vec::new();
        let mut i: usize = 0;
        while i < self.outputs.len()
            invariant
                i <= self@.len(),
                self@.len() == self.outputs@.len(),
                r@.len() == i,
                forall|k: int| 0 <= k < i ==> #[trigger] r@[k]@ == self@[k].0,
            decreases self.outputs.len() - i,
        {
            assert(self@[i as int] == (self.outputs@[i as int].0@, self.outputs@[i as int].1, self.outputs@[i as int].2));
            r.push(self.outputs[i].0.clone());
            i += 1;
        }
        r
    }
}

pub proof fn lemma_find_xinerama(v: Seq<(Seq<char>, usize, Rectangle)>, xin: usize)
    ensures
        match find_xinerama(v, xin) {
            Some(i) => 0 <= i < v.len() && v[i].1 == xin && forall|k: int| 0 <= k < i ==> v[k].1 != xin,
            None => forall|k: int| 0 <= k < v.len() ==> v[k].1 != xin,
        },
    decreases v.len(),
{
    if v.len() > 0 {
        lemma_find_xinerama(v.drop_first(), xin);
        assert forall|k: int| 1 <= k < v.len() implies v[k] == v.drop_first()[k - 1] by {}
    }
}

/// The index of the first screen with rectangle `r`.
pub open spec fn find_rect(v: Seq<(usize, Rectangle)>, r: Rectangle) -> Option<int>
    decreases v.len(),
{
    if v.len() == 0 {
        None
    } else if v[0].1 == r {
        Some(0)
    } else {
        match find_rect(v.drop_first(), r) {
            Some(i) => Some(i + 1),
            None => None,
        }
    }
}

pub proof fn lemma_find_rect(v: Seq<(usize, Rectangle)>, r: Rectangle)
    ensures
        match find_rect(v, r) {
            Some(i) => 0 <= i < v.len() && v[i].1 == r && forall|k: int| 0 <= k < i ==> v[k].1 != r,
            None => forall|k: int| 0 <= k < v.len() ==> v[k].1 != r,
        },
    decreases v.len(),
{
    if v.len() > 0 {
        lemma_find_rect(v.drop_first(), r);
        assert forall|k: int| 1 <= k < v.len() implies v[k] == v.drop_first()[k - 1] by {}
    }
}

fn same_rect(a: Rectangle, b: Rectangle) -> (r: bool)
    ensures
        r == (a == b),
{
    a.0 == b.0 && a.1 == b.1 && a.2 == b.2 && a.3 == b.3
}

/// The index of the first screen with rectangle `r`, if any.
pub open spec fn screen_of(v: Seq<(usize, Rectangle)>, r: Rectangle) -> Option<usize> {
    match find_rect(v, r) {
        Some(j) => Some(v[j].0),
        None => None,
    }
}

/// Whether `x` pairs each output of `outputs` with the first screen of the
/// same rectangle.
pub open spec fn combined(
    outputs: Seq<(Seq<char>, Rectangle)>,
    screens: Seq<(usize, Rectangle)>,
    x: Seq<(Seq<char>, usize, Rectangle)>,
) -> bool {
    &&& x.len() == outputs.len()
    &&& forall|i: int| #![trigger x[i]] 0 <= i < x.len() ==> x[i].0 == outputs[i].0 && x[i].2 == outputs[i].1
        && screen_of(screens, outputs[i].1) == Some(x[i].1)
}

impl XSetup {
    /// Pairs each output (name and rectangle) with the Xinerama screen of
    /// the same rectangle; `None` when an output has no such screen.
    pub fn combine(outputs: Vec<(String, Rectangle)>, screens: &Vec<(usize, Rectangle)>) -> (r: Option<Self>)
        ensures
            match r {
                Some(x) => combined(outputs@.map_values(|o: (String, Rectangle)| (o.0@, o.1)), screens@, x@),
                None => exists|i: int| 0 <= i < outputs@.len() && find_rect(screens@, #[trigger] outputs@[i].1) is None,
            },
    {
        let ghost ov = outputs@.map_values(|o: (String, Rectangle)| (o.0@, o.1));
        let mut out: Vec<(String, usize, Rectangle)> = Vec::new();
        let mut i: usize = 0;
        while i < outputs.len()
            invariant
                i <= outputs@.len(),
                ov == outputs@.map_values(|o: (String, Rectangle)| (o.0@, o.1)),
                out@.len() == i,
                forall|k: int| #![trigger out@[k]] 0 <= k < i ==> out@[k].0@ == ov[k].0 && out@[k].2 == ov[k].1
                    && screen_of(screens@, ov[k].1) == Some(out@[k].1),
            decreases outputs.len() - i,
        {
            let rect = outputs[i].1;
            proof {
                lemma_find_rect(screens@, rect);
            }
            let mut j: usize = 0;
            while j < screens.len() && !same_rect(screens[j].1, rect)
                invariant
                    j <= screens@.len(),
                    forall|k: int| 0 <= k < j ==> screens@[k].1 != rect,
                decreases screens.len() - j,
            {
                j += 1;
            }
            if j == screens.len() {
                assert(find_rect(screens@, outputs@[i as int].1) is None);
                return None;
            }
            let ghost o0 = out@;
            out.push((outputs[i].0.clone(), screens[j].0, rect));
            proof {
                assert(find_rect(screens@, rect) == Some(j as int));
                assert forall|k: int| #![trigger out@[k]] 0 <= k < i + 1 implies out@[k].0@ == ov[k].0 && out@[k].2 == ov[k].1
                    && screen_of(screens@, ov[k].1) == Some(out@[k].1) by {
                    if k < i {
                        assert(out@[k] == o0[k]);
                    }
                }
            }
            i += 1;
        }
        let x = XSetup { outputs: out };
        proof {
            assert forall|k: int| #![trigger x@[k]] 0 <= k < x@.len() implies x@[k].0 == ov[k].0 && x@[k].2 == ov[k].1
                && screen_of(screens@, ov[k].1) == Some(x@[k].1) by {
                assert(x@[k] == (out@[k].0@, out@[k].1, out@[k].2));
            }
        }
        Some(x)
    }
}

} // verus!
