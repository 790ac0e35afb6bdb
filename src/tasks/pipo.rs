//! The control channel's decisions: each line "<target> <message>" goes to
//! the generator named by the target, restarts the trays, or ends the
//! reader.

use vstd::prelude::*;
use crate::text::{copy_string, str_eq, trim_end, trim_end_of};

verus! {

/// The position of the first space.
pub open spec fn first_space(s: Seq<char>) -> Option<int>
    decreases s.len(),
{
    if s.len() == 0 {
        None
    } else if s[0] == ' ' {
        Some(0)
    } else {
        match first_space(s.drop_first()) {
            Some(i) => Some(i + 1),
            None => None,
        }
    }
}

/// The target and the message of a line: split at the first space, the
/// message empty when there is none.
pub open spec fn split_line(s: Seq<char>) -> (Seq<char>, Seq<char>) {
    match first_space(s) {
        Some(i) => (s.take(i), s.skip(i + 1)),
        None => (s, Seq::empty()),
    }
}

/// The index of the first name equal to `k`.
pub open spec fn find_name(names: Seq<String>, k: Seq<char>) -> Option<int>
    decreases names.len(),
{
    if names.len() == 0 {
        None
    } else if names[0]@ == k {
        Some(0)
    } else {
        match find_name(names.drop_first(), k) {
            Some(i) => Some(i + 1),
            None => None,
        }
    }
}

/// What the reader does with one line.
pub enum ControlAction {
    /// Stop reading and end normally.
    Exit,
    /// Send a tray restart to every bar.
    Tray,
    /// Send the message to the generator with this index among the names.
    Forward(usize, String),
    /// Nothing: the target is unknown.
    Ignore,
}

proof fn lemma_first_space(s: Seq<char>)
    ensures
        match first_space(s) {
            Some(i) => 0 <= i < s.len() && s[i] == ' ' && forall|k: int| 0 <= k < i ==> s[k] != ' ',
            None => forall|k: int| 0 <= k < s.len() ==> s[k] != ' ',
        },
    decreases s.len(),
{
    if s.len() > 0 {
        lemma_first_space(s.drop_first());
        assert forall|k: int| 1 <= k < s.len() implies s[k] == s.drop_first()[k - 1] by {}
    }
}

proof fn lemma_find_name(names: Seq<String>, k: Seq<char>)
    ensures
        match find_name(names, k) {
            Some(i) => 0 <= i < names.len() && names[i]@ == k && forall|j: int| 0 <= j < i ==> names[j]@ != k,
            None => forall|j: int| 0 <= j < names.len() ==> names[j]@ != k,
        },
    decreases names.len(),
{
    if names.len() > 0 {
        lemma_find_name(names.drop_first(), k);
        assert forall|j: int| 1 <= j < names.len() implies names[j] == names.drop_first()[j - 1] by {}
    }
}

fn position_of_name(names: &Vec<String>, k: &str) -> (r: Option<usize>)
    ensures
        match r {
            Some(i) => find_name(names@, k@) == Some(i as int),
            None => find_name(names@, k@) is None,
        },
{
    proof {
        lemma_find_name(names@, k@);
    }
    let mut i: usize = 0;
    while i < names.len()
        invariant
            i <= names@.len(),
            forall|j: int| 0 <= j < i ==> names@[j]@ != k@,
        decreases names.len() - i,
    {
        if str_eq(names[i].as_str(), k) {
            proof {
                lemma_find_name(names@, k@);
            }
            return Some(i);
        }
        i += 1;
    }
    None
}

/// Splits a line into target and message at its first space.
pub fn split_content(content: &str) -> (r: (String, String))
    ensures
        (r.0@, r.1@) == split_line(content@),
{
    proof {
        lemma_first_space(content@);
    }
    let n = content.unicode_len();
    let mut i: usize = 0;
    while i < n
        invariant
            n == content@.len(),
            i <= n,
            forall|k: int| 0 <= k < i ==> content@[k] != ' ',
        decreases n - i,
    {
        if content.get_char(i) == ' ' {
            proof {
                lemma_first_space(content@);
            }
            let key = copy_string(content.substring_char(0, i));
            let msg = copy_string(content.substring_char(i + 1, n));
            assert(content@.subrange(0, i as int) =~= content@.take(i as int));
            assert(content@.subrange(i + 1, n as int) =~= content@.skip(i + 1));
            return (key, msg);
        }
        i += 1;
    }
    (copy_string(content), String::new())
}

/// The action for a line whose trailing whitespace is already removed:
/// `EXIT` ends the reader, a generator's name forwards the message to it,
/// `TRAY` restarts the trays, anything else is ignored.
pub fn action_for_content(content: &str, names: &Vec<String>) -> (r: ControlAction)
    ensures
        ({
            let (k, m) = split_line(content@);
            if k == "EXIT"@ {
                r is Exit
            } else if find_name(names@, k) is Some {
                r matches ControlAction::Forward(i, msg) && i == find_name(names@, k).unwrap() && msg@ == m
            } else if k == "TRAY"@ {
                r is Tray
            } else {
                r is Ignore
            }
        }),
{
    let (k, m) = split_content(content);
    if str_eq(k.as_str(), "EXIT") {
        return ControlAction::Exit;
    }
    match position_of_name(names, k.as_str()) {
        Some(i) => ControlAction::Forward(i, m),
        None => if str_eq(k.as_str(), "TRAY") {
            ControlAction::Tray
        } else {
            ControlAction::Ignore
        },
    }
}

/// The action for one line read from the control channel.
pub fn control_action(line: &str, names: &Vec<String>) -> (r: ControlAction)
    ensures
        ({
            let (k, m) = split_line(trim_end_of(line@));
            if k == "EXIT"@ {
                r is Exit
            } else if find_name(names@, k) is Some {
                r matches ControlAction::Forward(i, msg) && i == find_name(names@, k).unwrap() && msg@ == m
            } else if k == "TRAY"@ {
                r is Tray
            } else {
                r is Ignore
            }
        }),
{
    let content = trim_end(line);
    action_for_content(content, names)
}

} // verus!
