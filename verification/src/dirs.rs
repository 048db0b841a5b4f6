//! Where a service that runs for the whole system keeps its files, in the
//! layout of a unix system: configuration under `/etc`, data under
//! `/var/lib`.

use vstd::prelude::*;

verus! {

/// The path of `name` under the directory `base`, with `/` as the separator.
/// A `name` that is itself absolute stands for itself; otherwise a separator
/// is put between the two unless `base` is empty or ends with one.
pub open spec fn join(base: Seq<char>, name: Seq<char>) -> Seq<char> {
    if name.len() > 0 && name.first() == '/' {
        name
    } else if base.len() == 0 || base.last() == '/' {
        base + name
    } else {
        base + seq!['/'] + name
    }
}

/// The path of `name` under the directory `base`.
pub fn join_path(base: &str, name: &str) -> (path: String)
    ensures
        path@ == join(base@, name@),
{
    proof {
        reveal_strlit("/");
    }
    if !name.is_empty() && name.get_char(0) == '/' {
        return name.to_owned();
    }
    let n = base.unicode_len();
    if n == 0 || base.get_char(n - 1) == '/' {
        base.to_owned().concat(name)
    } else {
        let path = base.to_owned().concat("/").concat(name);
        assert("/"@ =~= seq!['/']);
        path
    }
}

/// The directory for the configuration of the service `placeholder`:
/// `/etc/<placeholder>`.
pub fn suggest_service_config_dir(placeholder: &str) -> (dir: Option<String>)
    ensures
        dir matches Some(path) && path@ == join("/etc"@, placeholder@),
{
    Some(join_path("/etc", placeholder))
}

/// The directory for the data of the service `placeholder`:
/// `/var/lib/<placeholder>`.
pub fn suggest_service_data_dir(placeholder: &str) -> (dir: String)
    ensures
        dir@ == join("/var/lib"@, placeholder@),
{
    join_path("/var/lib", placeholder)
}

/// A relative name ends up below the directory: the path begins with the
/// directory and ends with the name, and one separator stands between them.
pub proof fn lemma_join_relative(base: Seq<char>, name: Seq<char>)
    requires
        base.len() > 0,
        base.last() != '/',
        name.len() == 0 || name.first() != '/',
    ensures
        join(base, name).len() == base.len() + 1 + name.len(),
        join(base, name).subrange(0, base.len() as int) == base,
        join(base, name)[base.len() as int] == '/',
        join(base, name).subrange(base.len() as int + 1, join(base, name).len() as int) == name,
{
    let path = join(base, name);
    assert(path.subrange(0, base.len() as int) =~= base);
    assert(path.subrange(base.len() as int + 1, path.len() as int) =~= name);
}

} // verus!
