//! Whether the current process runs with the rights of an administrator.

use vstd::prelude::*;

verus! {

/// Whether `name` is the name of a group of administrators.
pub open spec fn is_root_group(name: Seq<char>) -> bool {
    name == "root"@ || name == "admin"@
}

/// Whether a process is elevated: its user is the superuser, or one of the
/// groups it belongs to is a group of administrators.
pub open spec fn elevated(uid_is_root: bool, group_names: Seq<String>) -> bool {
    uid_is_root || exists|i: int|
        0 <= i < group_names.len() && is_root_group(#[trigger] group_names[i]@)
}

/// Decides whether a process is elevated from what the caller found out
/// about it: whether its user is the superuser, and the names of the groups
/// it belongs to.
pub fn is_elevated(uid_is_root: bool, group_names: &Vec<String>) -> (answer: bool)
    ensures
        answer == elevated(uid_is_root, group_names@),
{
    if uid_is_root {
        return true;
    }
    let root = "root".to_owned();
    let admin = "admin".to_owned();
    let mut i: usize = 0;
    while i < group_names.len()
        invariant
            i <= group_names.len(),
            root@ == "root"@,
            admin@ == "admin"@,
            forall|j: int| 0 <= j < i ==> !is_root_group(#[trigger] group_names@[j]@),
        decreases group_names.len() - i,
    {
        if group_names[i] == root || group_names[i] == admin {
            return true;
        }
        i += 1;
    }
    false
}

} // verus!
