//! Which variables of the host environment a sandboxed child may see, and
//! under which names.

use vstd::prelude::*;
use vstd::string::*;

verus! {

/// The value that a lookup by name finds in an environment block: that of the
/// first entry with the name.
pub open spec fn first_value(host: Seq<(String, String)>, name: Seq<char>) -> Option<Seq<char>>
    decreases host.len(),
{
    if host.len() == 0 {
        None
    } else if host[0].0@ == name {
        Some(host[0].1@)
    } else {
        first_value(host.skip(1), name)
    }
}

/// The value that copying an environment block entry by entry leaves under a
/// name: that of the last entry with the name.
pub open spec fn last_value(host: Seq<(String, String)>, name: Seq<char>) -> Option<Seq<char>>
    decreases host.len(),
{
    if host.len() == 0 {
        None
    } else if host.last().0@ == name {
        Some(host.last().1@)
    } else {
        last_value(host.drop_last(), name)
    }
}

/// Whether a variable name starts with the prefix of user-declared
/// pass-through variables. The comparison is exact: case matters.
pub open spec fn has_app_prefix(name: Seq<char>) -> bool {
    "VAGGAENV_"@.is_prefix_of(name)
}

/// The host variable that an operational variable of the child is copied
/// from, or `None` for a name that is no such variable.
pub open spec fn host_source(child_name: Seq<char>) -> Option<Seq<char>> {
    if child_name == "_VAGGA_PATH"@ {
        Some("PATH"@)
    } else if child_name == "RUST_LOG"@ {
        Some("RUST_LOG"@)
    } else if child_name == "RUST_BACKTRACE"@ {
        Some("RUST_BACKTRACE"@)
    } else if child_name == "VAGGA_DEBUG_CMDENV"@ {
        Some("VAGGA_DEBUG_CMDENV"@)
    } else if child_name == "VAGGA_SETTINGS"@ {
        Some("VAGGA_SETTINGS"@)
    } else if child_name == "_VAGGA_HOME"@ {
        Some("HOME"@)
    } else {
        None
    }
}

/// The value of one variable in the child's environment, or `None` where the
/// child does not have the variable.
///
/// `subdir_var` is the name of the host variable that selects the storage
/// subdirectory, where the settings name one.
pub open spec fn child_value(
    host: Seq<(String, String)>,
    subdir_var: Option<Seq<char>>,
    name: Seq<char>,
) -> Option<Seq<char>> {
    if name == "_VAGGA_STORAGE_SUBDIR"@ && subdir_var is Some {
        match first_value(host, subdir_var->0) {
            Some(dir) => Some(dir),
            None => Some(Seq::empty()),
        }
    } else if has_app_prefix(name) {
        last_value(host, name)
    } else {
        match host_source(name) {
            Some(source) => first_value(host, source),
            None => None,
        }
    }
}

/// The whole environment of the child.
pub open spec fn child_env(host: Seq<(String, String)>, subdir_var: Option<Seq<char>>) -> Map<
    Seq<char>,
    Seq<char>,
> {
    Map::new(
        |name: Seq<char>| child_value(host, subdir_var, name) is Some,
        |name: Seq<char>| child_value(host, subdir_var, name)->0,
    )
}

/// The prefixed variables of the first `n` entries of `host`.
pub open spec fn prefixed_env(host: Seq<(String, String)>, n: int) -> Map<Seq<char>, Seq<char>>
    decreases n,
{
    if n <= 0 {
        Map::empty()
    } else if has_app_prefix(host[n - 1].0@) {
        prefixed_env(host, n - 1).insert(host[n - 1].0@, host[n - 1].1@)
    } else {
        prefixed_env(host, n - 1)
    }
}

/// `prefixed_env` holds exactly the prefixed names of the entries it has
/// walked, each with the value of its last entry.
pub proof fn lemma_prefixed_env(host: Seq<(String, String)>, n: int, name: Seq<char>)
    requires
        0 <= n <= host.len(),
    ensures
        prefixed_env(host, n).dom().contains(name) <==> (has_app_prefix(name) && last_value(
            host.take(n),
            name,
        ) is Some),
        prefixed_env(host, n).dom().contains(name) ==> prefixed_env(host, n)[name] == last_value(
            host.take(n),
            name,
        )->0,
    decreases n,
{
    if n > 0 {
        lemma_prefixed_env(host, n - 1, name);
        assert(host.take(n).drop_last() =~= host.take(n - 1));
        assert(host.take(n).last() == host[n - 1]);
    }
}

/// The operational variables of the child differ from each other, and none
/// of them carries the pass-through prefix.
pub proof fn lemma_operational_names()
    ensures
        !has_app_prefix("_VAGGA_PATH"@),
        !has_app_prefix("RUST_LOG"@),
        !has_app_prefix("RUST_BACKTRACE"@),
        !has_app_prefix("VAGGA_DEBUG_CMDENV"@),
        !has_app_prefix("VAGGA_SETTINGS"@),
        !has_app_prefix("_VAGGA_HOME"@),
        !has_app_prefix("_VAGGA_STORAGE_SUBDIR"@),
        host_source("_VAGGA_PATH"@) == Some("PATH"@),
        host_source("RUST_LOG"@) == Some("RUST_LOG"@),
        host_source("RUST_BACKTRACE"@) == Some("RUST_BACKTRACE"@),
        host_source("VAGGA_DEBUG_CMDENV"@) == Some("VAGGA_DEBUG_CMDENV"@),
        host_source("VAGGA_SETTINGS"@) == Some("VAGGA_SETTINGS"@),
        host_source("_VAGGA_HOME"@) == Some("HOME"@),
        host_source("_VAGGA_STORAGE_SUBDIR"@) is None,
{
    reveal_strlit("VAGGAENV_");
    reveal_strlit("_VAGGA_PATH");
    reveal_strlit("RUST_LOG");
    reveal_strlit("RUST_BACKTRACE");
    reveal_strlit("VAGGA_DEBUG_CMDENV");
    reveal_strlit("VAGGA_SETTINGS");
    reveal_strlit("_VAGGA_HOME");
    reveal_strlit("_VAGGA_STORAGE_SUBDIR");
    let prefix = "VAGGAENV_"@;
    assert(!has_app_prefix("_VAGGA_PATH"@)) by {
        if has_app_prefix("_VAGGA_PATH"@) {
            assert("_VAGGA_PATH"@.subrange(0, 9)[0] == prefix[0]);
        }
    }
    assert(!has_app_prefix("RUST_BACKTRACE"@)) by {
        if has_app_prefix("RUST_BACKTRACE"@) {
            assert("RUST_BACKTRACE"@.subrange(0, 9)[0] == prefix[0]);
        }
    }
    assert(!has_app_prefix("VAGGA_DEBUG_CMDENV"@)) by {
        if has_app_prefix("VAGGA_DEBUG_CMDENV"@) {
            assert("VAGGA_DEBUG_CMDENV"@.subrange(0, 9)[5] == prefix[5]);
        }
    }
    assert(!has_app_prefix("VAGGA_SETTINGS"@)) by {
        if has_app_prefix("VAGGA_SETTINGS"@) {
            assert("VAGGA_SETTINGS"@.subrange(0, 9)[5] == prefix[5]);
        }
    }
    assert(!has_app_prefix("_VAGGA_HOME"@)) by {
        if has_app_prefix("_VAGGA_HOME"@) {
            assert("_VAGGA_HOME"@.subrange(0, 9)[0] == prefix[0]);
        }
    }
    assert(!has_app_prefix("_VAGGA_STORAGE_SUBDIR"@)) by {
        if has_app_prefix("_VAGGA_STORAGE_SUBDIR"@) {
            assert("_VAGGA_STORAGE_SUBDIR"@.subrange(0, 9)[0] == prefix[0]);
        }
    }
    assert("_VAGGA_PATH"@[7] != "_VAGGA_HOME"@[7]);
    assert("_VAGGA_STORAGE_SUBDIR"@.len() == 21);
    assert("_VAGGA_PATH"@.len() == 11);
    assert("RUST_LOG"@.len() == 8);
    assert("RUST_BACKTRACE"@.len() == 14);
    assert("VAGGA_DEBUG_CMDENV"@.len() == 18);
    assert("VAGGA_SETTINGS"@.len() == 14);
    assert("_VAGGA_HOME"@.len() == 11);
    assert("RUST_BACKTRACE"@[0] != "VAGGA_SETTINGS"@[0]);
}

/// A lookup by name finds the value of an entry with that name, and finds
/// nothing only where no entry has the name.
pub proof fn lemma_first_value(host: Seq<(String, String)>, name: Seq<char>)
    ensures
        match first_value(host, name) {
            Some(value) => exists|i: int|
                0 <= i < host.len() && (#[trigger] host[i]).0@ == name && host[i].1@ == value,
            None => forall|i: int| 0 <= i < host.len() ==> (#[trigger] host[i]).0@ != name,
        },
    decreases host.len(),
{
    if host.len() > 0 && host[0].0@ != name {
        let rest = host.skip(1);
        lemma_first_value(rest, name);
        match first_value(rest, name) {
            Some(value) => {
                let i = choose|i: int|
                    0 <= i < rest.len() && (#[trigger] rest[i]).0@ == name && rest[i].1@ == value;
                assert(host[i + 1] == rest[i]);
            },
            None => {
                assert forall|i: int| 0 <= i < host.len() implies (#[trigger] host[i]).0@
                    != name by {
                    if i > 0 {
                        assert(host[i] == rest[i - 1]);
                    }
                }
            },
        }
    }
}

/// Copying entry by entry leaves the value of an entry with the name, and
/// leaves nothing only where no entry has the name.
pub proof fn lemma_last_value(host: Seq<(String, String)>, name: Seq<char>)
    ensures
        match last_value(host, name) {
            Some(value) => exists|i: int|
                0 <= i < host.len() && (#[trigger] host[i]).0@ == name && host[i].1@ == value,
            None => forall|i: int| 0 <= i < host.len() ==> (#[trigger] host[i]).0@ != name,
        },
    decreases host.len(),
{
    if host.len() > 0 && host.last().0@ != name {
        let rest = host.drop_last();
        lemma_last_value(rest, name);
        match last_value(rest, name) {
            Some(value) => {
                let i = choose|i: int|
                    0 <= i < rest.len() && (#[trigger] rest[i]).0@ == name && rest[i].1@ == value;
                assert(host[i] == rest[i]);
            },
            None => {
                assert forall|i: int| 0 <= i < host.len() implies (#[trigger] host[i]).0@
                    != name by {
                    if i < rest.len() {
                        assert(host[i] == rest[i]);
                    }
                }
            },
        }
    }
}

/// Whether a variable of the child is allow-listed, and `value` is what the
/// host has for it: the selector of the storage subdirectory, where the
/// settings name one, with the host's value or the empty text; a variable
/// with the pass-through prefix, with a value that the host has under the
/// same name; or an operational variable, with a value that the host has
/// under the name it is copied from.
pub open spec fn is_allowed(
    host: Seq<(String, String)>,
    subdir_var: Option<Seq<char>>,
    name: Seq<char>,
    value: Seq<char>,
) -> bool {
    ||| name == "_VAGGA_STORAGE_SUBDIR"@ && subdir_var is Some && (value.len() == 0 || host_has(
        host,
        subdir_var->0,
        value,
    ))
    ||| has_app_prefix(name) && host_has(host, name, value)
    ||| host_source(name) is Some && host_has(host, host_source(name)->0, value)
}

/// Whether the host block has an entry with this name and value.
pub open spec fn host_has(host: Seq<(String, String)>, name: Seq<char>, value: Seq<char>) -> bool {
    exists|i: int| 0 <= i < host.len() && (#[trigger] host[i]).0@ == name && host[i].1@ == value
}

/// No variable outside the allow-list survives into the child: every
/// variable of the child's environment is allow-listed, and its value comes
/// from the host.
pub proof fn lemma_no_variable_leaks(
    host: Seq<(String, String)>,
    subdir_var: Option<Seq<char>>,
    name: Seq<char>,
)
    requires
        child_env(host, subdir_var).dom().contains(name),
    ensures
        is_allowed(host, subdir_var, name, child_env(host, subdir_var)[name]),
{
    lemma_last_value(host, name);
    if subdir_var is Some {
        lemma_first_value(host, subdir_var->0);
    }
    if host_source(name) is Some {
        lemma_first_value(host, host_source(name)->0);
    }
}

/// Every allow-listed variable that the host has survives into the child:
/// a variable with the pass-through prefix under its own name, and the source
/// of an operational variable under that variable's name. With a selector of
/// the storage subdirectory named in the settings, the child has that
/// variable whatever the host holds.
pub proof fn lemma_allowed_variables_survive(
    host: Seq<(String, String)>,
    subdir_var: Option<Seq<char>>,
    i: int,
    child_name: Seq<char>,
)
    requires
        0 <= i < host.len(),
        (has_app_prefix(child_name) && host[i].0@ == child_name) || host_source(child_name) == Some(
            host[i].0@,
        ),
    ensures
        child_env(host, subdir_var).dom().contains(child_name),
        subdir_var is Some ==> child_env(host, subdir_var).dom().contains(
            "_VAGGA_STORAGE_SUBDIR"@,
        ),
{
    lemma_operational_names();
    lemma_last_value(host, child_name);
    lemma_first_value(host, host[i].0@);
}

/// Whether `name` starts with the pass-through prefix.
pub fn is_app_variable(name: &str) -> (res: bool)
    ensures
        res == has_app_prefix(name@),
{
    proof {
        reveal_strlit("VAGGAENV_");
    }
    let prefix = "VAGGAENV_";
    if name.unicode_len() < 9 {
        return false;
    }
    let mut i: usize = 0;
    while i < 9
        invariant
            i <= 9,
            name@.len() >= 9,
            prefix@ == "VAGGAENV_"@,
            prefix@.len() == 9,
            forall|j: int| 0 <= j < i ==> name@[j] == prefix@[j],
        decreases 9 - i,
    {
        if name.get_char(i) != prefix.get_char(i) {
            proof {
                if has_app_prefix(name@) {
                    assert(name@.subrange(0, 9)[i as int] == name@[i as int]);
                    assert(prefix@[i as int] == name@.subrange(0, 9)[i as int]);
                }
            }
            return false;
        }
        i += 1;
    }
    proof {
        assert(prefix@ =~= name@.subrange(0, 9));
    }
    true
}

/// Looks a variable up as the operating system does: the first entry with
/// the name decides.
pub fn lookup<'a>(host: &'a Vec<(String, String)>, name: &str) -> (res: Option<&'a String>)
    ensures
        match res {
            Some(value) => first_value(host@, name@) == Some(value@),
            None => first_value(host@, name@) is None,
        },
{
    let wanted = String::from_str(name);
    let mut i: usize = 0;
    proof {
        assert(host@.skip(0) =~= host@);
    }
    while i < host.len()
        invariant
            i <= host.len(),
            wanted@ == name@,
            first_value(host@, name@) == first_value(host@.skip(i as int), name@),
        decreases host.len() - i,
    {
        if host[i].0 == wanted {
            proof {
                assert(host@.skip(i as int)[0] == host@[i as int]);
            }
            return Some(&host[i].1);
        }
        proof {
            assert(host@.skip(i as int)[0] == host@[i as int]);
            assert(host@.skip(i as int).skip(1) =~= host@.skip(i as int + 1));
        }
        i += 1;
    }
    proof {
        assert(host@.skip(i as int).len() == 0);
    }
    None
}

} // verus!
