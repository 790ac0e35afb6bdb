//! The theme: symbolic color and icon names, and where icon files live.

use vstd::prelude::*;
use crate::text::copy_string;

verus! {

/// Where icon files live unless a theme says otherwise.
pub const ICON_PATH: &'static str = "~/Documents/statusbar/icons";

/// A lookup table of names to values, as plain character sequences.
pub open spec fn table_view(t: Seq<(String, String)>) -> Seq<(Seq<char>, Seq<char>)> {
    t.map_values(|p: (String, String)| (p.0@, p.1@))
}

/// The value of the first entry named `k`, if any.
pub open spec fn lookup(t: Seq<(Seq<char>, Seq<char>)>, k: Seq<char>) -> Option<Seq<char>>
    decreases t.len(),
{
    if t.len() == 0 {
        None
    } else if t[0].0 == k {
        Some(t[0].1)
    } else {
        lookup(t.drop_first(), k)
    }
}

/// The value of `k` in the table, or `k` itself when the table lacks it.
pub open spec fn resolve(t: Seq<(Seq<char>, Seq<char>)>, k: Seq<char>) -> Seq<char> {
    match lookup(t, k) {
        Some(v) => v,
        None => k,
    }
}

/// A path with a leading `~` replaced by the home directory.
pub open spec fn expand_home(path: Seq<char>, home: Seq<char>) -> Seq<char> {
    if path.len() > 0 && path[0] == '~' {
        home + path.drop_first()
    } else {
        path
    }
}

/// What a theme is: two tables, the icon directory and the home directory.
pub struct ThemeView {
    pub color: Seq<(Seq<char>, Seq<char>)>,
    pub icon: Seq<(Seq<char>, Seq<char>)>,
    pub icon_path: Seq<char>,
    pub home: Seq<char>,
}

/// Color and icon names, resolved when markup is built or rewritten.
pub struct Config {
    pub color: Vec<(String, String)>,
    pub icon: Vec<(String, String)>,
    pub icon_path: String,
    pub home: String,
}

impl View for Config {
    type V = ThemeView;

    open spec fn view(&self) -> ThemeView {
        ThemeView {
            color: table_view(self.color@),
            icon: table_view(self.icon@),
            icon_path: self.icon_path@,
            home: self.home@,
        }
    }
}

/// The theme of a builder that was given none.
pub open spec fn default_theme() -> ThemeView {
    ThemeView {
        color: Seq::empty(),
        icon: Seq::empty(),
        icon_path: ICON_PATH@,
        home: Seq::empty(),
    }
}

/// The value of `k` in the table, if any.
fn table_get<'a>(t: &'a Vec<(String, String)>, k: &str) -> (r: Option<&'a String>)
    ensures
        match r {
            Some(v) => lookup(table_view(t@), k@) == Some(v@),
            None => lookup(table_view(t@), k@) is None,
        },
{
    let mut i: usize = 0;
    assert(table_view(t@).skip(0) =~= table_view(t@));
    while i < t.len()
        invariant
            i <= t@.len(),
            lookup(table_view(t@), k@) == lookup(table_view(t@).skip(i as int), k@),
        decreases t.len() - i,
    {
        let ghost tv = table_view(t@).skip(i as int);
        assert(tv[0] == (t@[i as int].0@, t@[i as int].1@));
        if crate::text::str_eq(t[i].0.as_str(), k) {
            return Some(&t[i].1);
        }
        assert(tv.drop_first() =~= table_view(t@).skip(i + 1));
        i += 1;
    }
    assert(table_view(t@).skip(i as int).len() == 0);
    None
}

fn copy_table(t: &Vec<(String, String)>) -> (r: Vec<(String, String)>)
    ensures
        table_view(r@) == table_view(t@),
{
    let mut r: Vec<(String, String)> = Vec::new();
    let mut i: usize = 0;
    while i < t.len()
        invariant
            i <= t@.len(),
            table_view(r@) == table_view(t@).take(i as int),
        decreases t.len() - i,
    {
        let k = t[i].0.clone();
        let v = t[i].1.clone();
        let ghost r0 = r@;
        r.push((k, v));
        assert(r@ == r0.push((k, v)));
        assert(table_view(r@) =~= table_view(r0).push((k@, v@)));
        assert(table_view(r@) =~= table_view(t@).take(i + 1));
        i += 1;
    }
    assert(table_view(t@).take(i as int) =~= table_view(t@));
    r
}

fn same_table(a: &Vec<(String, String)>, b: &Vec<(String, String)>) -> (r: bool)
    ensures
        r == (table_view(a@) == table_view(b@)),
{
    if a.len() != b.len() {
        assert(table_view(a@).len() != table_view(b@).len());
        return false;
    }
    let mut i: usize = 0;
    while i < a.len()
        invariant
            a@.len() == b@.len(),
            i <= a@.len(),
            forall|k: int| 0 <= k < i ==> table_view(a@)[k] == table_view(b@)[k],
        decreases a.len() - i,
    {
        if a[i].0 != b[i].0 || a[i].1 != b[i].1 {
            assert(table_view(a@)[i as int] != table_view(b@)[i as int]);
            return false;
        }
        i += 1;
    }
    assert(table_view(a@) =~= table_view(b@));
    true
}

impl Config {
    /// Whether two themes hold the same tables and paths.
    pub fn same_as(&self, other: &Config) -> (r: bool)
        ensures
            r == (self@ == other@),
    {
        same_table(&self.color, &other.color) && same_table(&self.icon, &other.icon)
            && self.icon_path == other.icon_path && self.home == other.home
    }

    /// Empty tables, the default icon directory, and an empty home directory.
    pub fn new() -> (r: Self)
        ensures
            r@ == default_theme(),
    {
        let r = Config {
            color: Vec::new(),
            icon: Vec::new(),
            icon_path: String::from_str(ICON_PATH),
            home: String::new(),
        };
        assert(r@.color =~= Seq::<(Seq<char>, Seq<char>)>::empty());
        assert(r@.icon =~= Seq::<(Seq<char>, Seq<char>)>::empty());
        r
    }

    /// Sets the icon directory and the home directory that replaces its `~`.
    pub fn with_paths(self, icon_path: &str, home: &str) -> (r: Self)
        ensures
            r@ == (ThemeView { icon_path: icon_path@, home: home@, ..self@ }),
    {
        Config {
            color: self.color,
            icon: self.icon,
            icon_path: copy_string(icon_path),
            home: copy_string(home),
        }
    }

    /// Names a color; the newest entry of a name wins.
    pub fn set_color(&mut self, name: &str, value: &str)
        ensures
            final(self)@ == (ThemeView {
                color: seq![(name@, value@)] + old(self)@.color,
                ..old(self)@
            }),
            lookup(final(self)@.color, name@) == Some(value@),
    {
        self.color.insert(0, (copy_string(name), copy_string(value)));
        assert(table_view(self.color@) =~= seq![(name@, value@)] + old(self)@.color);
    }

    /// Names an icon file; the newest entry of a name wins.
    pub fn set_icon(&mut self, name: &str, value: &str)
        ensures
            final(self)@ == (ThemeView {
                icon: seq![(name@, value@)] + old(self)@.icon,
                ..old(self)@
            }),
            lookup(final(self)@.icon, name@) == Some(value@),
    {
        self.icon.insert(0, (copy_string(name), copy_string(value)));
        assert(table_view(self.icon@) =~= seq![(name@, value@)] + old(self)@.icon);
    }

    /// The color that `name` stands for, or `name` itself.
    pub fn resolve_color(&self, name: &str) -> (r: String)
        ensures
            r@ == resolve(self@.color, name@),
    {
        match table_get(&self.color, name) {
            Some(v) => v.clone(),
            None => copy_string(name),
        }
    }

    /// The icon file name that `name` stands for, or `name` itself.
    pub fn resolve_icon(&self, name: &str) -> (r: String)
        ensures
            r@ == resolve(self@.icon, name@),
    {
        match table_get(&self.icon, name) {
            Some(v) => v.clone(),
            None => copy_string(name),
        }
    }

    /// A copy with the same tables and paths.
    pub fn copy(&self) -> (r: Self)
        ensures
            r@ == self@,
    {
        Config {
            color: copy_table(&self.color),
            icon: copy_table(&self.icon),
            icon_path: self.icon_path.clone(),
            home: self.home.clone(),
        }
    }
}

} // verus!
