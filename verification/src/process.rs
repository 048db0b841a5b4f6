//! Whether a process id names a process that may be ended.
//!
//! A process id read from a pid file may by now belong to a process that has
//! nothing to do with the core. A caller can therefore name the executables
//! it is willing to end; a process counts as found only if the path of its
//! executable, in lower case, contains one of these names.

use crate::text::{chars_of, lowercase, to_lowercase};
use vstd::prelude::*;

verus! {

/// What the process table holds for a process id.
#[derive(Debug)]
pub struct ProcessEntry {
    /// The path of the executable, where it is known.
    pub exe: Option<String>,
}

/// Whether `needle` occurs in `hay` as a run of neighbouring characters.
pub open spec fn contains(hay: Seq<char>, needle: Seq<char>) -> bool {
    exists|at: int| occurs_at(hay, needle, at)
}

/// Whether `needle` occurs in `hay` at the position `at`.
pub open spec fn occurs_at(hay: Seq<char>, needle: Seq<char>, at: int) -> bool {
    0 <= at && at + needle.len() <= hay.len() && hay.subrange(at, at + needle.len()) == needle
}

/// Whether the path of an executable is accepted by a list of names: the
/// path in lower case contains one of the names.
pub open spec fn accepted(path: Seq<char>, names: Seq<String>) -> bool {
    exists|i: int| 0 <= i < names.len() && contains(lowercase(path), #[trigger] names[i]@)
}

/// Whether a process was found that may be ended: the process table had an
/// entry, and the entry's executable is accepted by the validator where one
/// is given.
pub open spec fn found(entry: Option<ProcessEntry>, validator: Option<Vec<String>>) -> bool {
    match entry {
        None => false,
        Some(entry) => match validator {
            None => true,
            Some(names) => entry.exe matches Some(path) && accepted(path@, names@),
        },
    }
}

fn matches_at(hay: &Vec<char>, needle: &Vec<char>, at: usize) -> (hit: bool)
    requires
        at + needle.len() <= hay.len(),
    ensures
        hit == occurs_at(hay@, needle@, at as int),
{
    let mut k: usize = 0;
    while k < needle.len()
        invariant
            k <= needle.len(),
            at + needle.len() <= hay.len(),
            forall|j: int| 0 <= j < k ==> hay@[at + j] == needle@[j],
        decreases needle.len() - k,
    {
        if hay[at + k] != needle[k] {
            assert(hay@.subrange(at as int, at + needle.len())[k as int] == hay@[at + k]);
            return false;
        }
        k += 1;
    }
    assert(hay@.subrange(at as int, at + needle.len()) =~= needle@);
    true
}

/// Whether `needle` occurs in `hay`.
pub fn contains_chars(hay: &Vec<char>, needle: &Vec<char>) -> (hit: bool)
    ensures
        hit == contains(hay@, needle@),
{
    if needle.len() > hay.len() {
        return false;
    }
    if needle.len() == 0 {
        assert(hay@.subrange(0, 0) =~= needle@);
        assert(occurs_at(hay@, needle@, 0));
        return true;
    }
    let last = hay.len() - needle.len();
    let mut at: usize = 0;
    while at <= last
        invariant
            at <= last + 1,
            last == hay.len() - needle.len(),
            last < hay.len(),
            forall|j: int| 0 <= j < at ==> !occurs_at(hay@, needle@, j),
        decreases last + 1 - at,
    {
        if matches_at(hay, needle, at) {
            return true;
        }
        at += 1;
    }
    false
}

/// Whether the path of an executable is accepted by a list of names.
pub fn accepts(names: &Vec<String>, path: &str) -> (answer: bool)
    ensures
        answer == accepted(path@, names@),
{
    let lowered = to_lowercase(path);
    let hay = chars_of(lowered.as_str());
    let mut i: usize = 0;
    while i < names.len()
        invariant
            i <= names.len(),
            hay@ == lowercase(path@),
            forall|j: int| 0 <= j < i ==> !contains(hay@, #[trigger] names@[j]@),
        decreases names.len() - i,
    {
        let needle = chars_of(names[i].as_str());
        if contains_chars(&hay, &needle) {
            return true;
        }
        i += 1;
    }
    false
}

/// Decides whether a process that may be ended was found, from the entry of
/// the process table for its process id, if there is one, and the names that
/// the caller accepts.
pub fn pid_exists(entry: &Option<ProcessEntry>, validator: &Option<Vec<String>>) -> (answer: bool)
    ensures
        answer == found(*entry, *validator),
{
    match entry {
        None => false,
        Some(entry) => match validator {
            None => true,
            Some(names) => match &entry.exe {
                None => false,
                Some(path) => accepts(names, path.as_str()),
            },
        },
    }
}

} // verus!
