//! Handing a descriptor over to the process library that starts the child.

use vstd::prelude::*;
use vstd::string::*;
use crate::command::{env_of, CommandDescriptor, Namespace};
use crate::uidmap::MapEntry;

verus! {

#[verifier::external_type_specification]
#[verifier::external_body]
pub struct ExCommand(unshare::Command);

/// The path of the executable that a command of the process library runs.
pub uninterp spec fn command_program(cmd: unshare::Command) -> Seq<char>;

/// The argument vector of a command of the process library, the program's
/// own name first.
pub uninterp spec fn command_line(cmd: unshare::Command) -> Seq<Seq<char>>;

/// The variables of a command of the process library whose environment is
/// fixed.
pub uninterp spec fn command_env(cmd: unshare::Command) -> Map<Seq<char>, Seq<char>>;

/// Whether the environment of a command of the process library is fixed,
/// rather than taken from the starting process when the first variable is
/// set or the child is started.
pub uninterp spec fn command_env_is_fixed(cmd: unshare::Command) -> bool;

/// The namespaces that a command of the process library unshares.
pub uninterp spec fn command_namespaces(cmd: unshare::Command) -> Set<Namespace>;

/// The rows for user identifiers of a command of the process library; none
/// where no identity map was set.
pub uninterp spec fn command_uid_map(cmd: unshare::Command) -> Seq<MapEntry>;

/// The rows for group identifiers of a command of the process library; none
/// where no identity map was set.
pub uninterp spec fn command_gid_map(cmd: unshare::Command) -> Seq<MapEntry>;

/// The empty environment.
pub open spec fn no_variables() -> Map<Seq<char>, Seq<char>> {
    Map::empty()
}

/// Whether a text holds the character that ends a C string.
pub open spec fn holds_nul(text: Seq<char>) -> bool {
    text.contains('\0')
}

/// Whether the program or an argument of a descriptor holds a NUL.
pub open spec fn line_holds_nul(desc: &CommandDescriptor) -> bool {
    holds_nul(desc.program@) || exists|i: int|
        0 <= i < desc.args@.len() && holds_nul(#[trigger] desc.args@[i]@)
}

/// Calls `unshare::Command::new`, which panics on a NUL in the program's
/// name. The new command runs the program, has its name as its only argument,
/// unshares nothing and has no identity map. Nothing is said of its
/// environment, which is still that of the starting process.
#[verifier::external_body]
fn command_new(program: &str) -> (cmd: unshare::Command)
    requires
        !holds_nul(program@),
    ensures
        command_program(cmd) == program@,
        command_line(cmd) == seq![program@],
        command_namespaces(cmd) == Set::<Namespace>::empty(),
        command_uid_map(cmd) == Seq::<MapEntry>::empty(),
        command_gid_map(cmd) == Seq::<MapEntry>::empty(),
{
    unshare::Command::new(program)
}

/// Calls `unshare::Command::arg`, which panics on a NUL in the argument. The
/// argument is appended; nothing else changes.
#[verifier::external_body]
fn command_arg(cmd: &mut unshare::Command, value: &str)
    requires
        !holds_nul(value@),
    ensures
        command_program(*final(cmd)) == command_program(*old(cmd)),
        command_line(*final(cmd)) == command_line(*old(cmd)).push(value@),
        command_env(*final(cmd)) == command_env(*old(cmd)),
        command_env_is_fixed(*final(cmd)) == command_env_is_fixed(*old(cmd)),
        command_namespaces(*final(cmd)) == command_namespaces(*old(cmd)),
        command_uid_map(*final(cmd)) == command_uid_map(*old(cmd)),
        command_gid_map(*final(cmd)) == command_gid_map(*old(cmd)),
{
    cmd.arg(value);
}

/// Calls `unshare::Command::env_clear`. The environment is then fixed and
/// empty; nothing else changes.
#[verifier::external_body]
fn command_env_clear(cmd: &mut unshare::Command)
    ensures
        command_env_is_fixed(*final(cmd)),
        command_env(*final(cmd)) == no_variables(),
        command_program(*final(cmd)) == command_program(*old(cmd)),
        command_line(*final(cmd)) == command_line(*old(cmd)),
        command_namespaces(*final(cmd)) == command_namespaces(*old(cmd)),
        command_uid_map(*final(cmd)) == command_uid_map(*old(cmd)),
        command_gid_map(*final(cmd)) == command_gid_map(*old(cmd)),
{
    cmd.env_clear();
}

/// Calls `unshare::Command::env` on a command whose environment is fixed.
/// The variable is inserted, in place of an earlier value of the same name;
/// nothing else changes.
#[verifier::external_body]
fn command_env_set(cmd: &mut unshare::Command, name: &str, value: &str)
    requires
        command_env_is_fixed(*old(cmd)),
    ensures
        command_env_is_fixed(*final(cmd)),
        command_env(*final(cmd)) == command_env(*old(cmd)).insert(name@, value@),
        command_program(*final(cmd)) == command_program(*old(cmd)),
        command_line(*final(cmd)) == command_line(*old(cmd)),
        command_namespaces(*final(cmd)) == command_namespaces(*old(cmd)),
        command_uid_map(*final(cmd)) == command_uid_map(*old(cmd)),
        command_gid_map(*final(cmd)) == command_gid_map(*old(cmd)),
{
    cmd.env(name, value);
}

/// Calls `unshare::Command::unshare` with one namespace. The namespace is
/// added to those that the command unshares; nothing else changes.
#[verifier::external_body]
fn command_unshare(cmd: &mut unshare::Command, namespace: Namespace)
    ensures
        command_namespaces(*final(cmd)) == command_namespaces(*old(cmd)).insert(namespace),
        command_program(*final(cmd)) == command_program(*old(cmd)),
        command_line(*final(cmd)) == command_line(*old(cmd)),
        command_env(*final(cmd)) == command_env(*old(cmd)),
        command_env_is_fixed(*final(cmd)) == command_env_is_fixed(*old(cmd)),
        command_uid_map(*final(cmd)) == command_uid_map(*old(cmd)),
        command_gid_map(*final(cmd)) == command_gid_map(*old(cmd)),
{
    let outside = match namespace {
        Namespace::Mount => unshare::Namespace::Mount,
        Namespace::Uts => unshare::Namespace::Uts,
        Namespace::Ipc => unshare::Namespace::Ipc,
        Namespace::User => unshare::Namespace::User,
        Namespace::Pid => unshare::Namespace::Pid,
        Namespace::Net => unshare::Namespace::Net,
        Namespace::Cgroup => unshare::Namespace::Cgroup,
    };
    cmd.unshare(&[outside]);
}

/// Calls `unshare::Command::set_id_maps`, which stores the rows and has the
/// command unshare the user namespace too; nothing else changes.
#[verifier::external_body]
fn command_set_id_maps(cmd: &mut unshare::Command, uids: &Vec<MapEntry>, gids: &Vec<MapEntry>)
    ensures
        command_uid_map(*final(cmd)) == uids@,
        command_gid_map(*final(cmd)) == gids@,
        command_namespaces(*final(cmd)) == command_namespaces(*old(cmd)).insert(Namespace::User),
        command_program(*final(cmd)) == command_program(*old(cmd)),
        command_line(*final(cmd)) == command_line(*old(cmd)),
        command_env(*final(cmd)) == command_env(*old(cmd)),
        command_env_is_fixed(*final(cmd)) == command_env_is_fixed(*old(cmd)),
{
    let uid_rows = uids.iter().map(
        |r| unshare::UidMap { inside_uid: r.inside, outside_uid: r.outside, count: r.count },
    ).collect();
    let gid_rows = gids.iter().map(
        |r| unshare::GidMap { inside_gid: r.inside, outside_gid: r.outside, count: r.count },
    ).collect();
    cmd.set_id_maps(uid_rows, gid_rows);
}

/// Whether a text holds a NUL.
pub fn has_nul(text: &str) -> (found: bool)
    ensures
        found == holds_nul(text@),
{
    let len = text.unicode_len();
    let mut i: usize = 0;
    while i < len
        invariant
            i <= len,
            len == text@.len(),
            forall|j: int| 0 <= j < i ==> text@[j] != '\0',
        decreases len - i,
    {
        if text.get_char(i) == '\0' {
            return true;
        }
        i += 1;
    }
    false
}

/// The environment that the child of a descriptor starts with: the variables
/// set on the descriptor, over those of the starting process unless the
/// descriptor clears them.
pub open spec fn effective_env(desc: &CommandDescriptor, ambient: Seq<(String, String)>) -> Map<
    Seq<char>,
    Seq<char>,
> {
    if desc.env_cleared {
        desc.env_map()
    } else {
        env_of(ambient + desc.env@)
    }
}

/// The namespaces that the child of a descriptor gets a fresh instance of:
/// those asked for and, with an identity map, the user namespace.
pub open spec fn effective_namespaces(desc: &CommandDescriptor) -> Set<Namespace> {
    if desc.id_map is Some {
        desc.namespace_set().insert(Namespace::User)
    } else {
        desc.namespace_set()
    }
}

/// Whether a command of the process library is the one that a descriptor
/// describes, for a starting process with the environment `ambient`.
pub open spec fn describes(
    desc: &CommandDescriptor,
    ambient: Seq<(String, String)>,
    cmd: unshare::Command,
) -> bool {
    &&& command_program(cmd) == desc.program@
    &&& command_line(cmd) == seq![desc.program@] + desc.arg_views()
    &&& command_env_is_fixed(cmd)
    &&& command_env(cmd) == effective_env(desc, ambient)
    &&& command_namespaces(cmd) == effective_namespaces(desc)
    &&& match desc.id_map {
        Some(map) => command_uid_map(cmd) == map.uids@ && command_gid_map(cmd) == map.gids@,
        None => command_uid_map(cmd).len() == 0 && command_gid_map(cmd).len() == 0,
    }
}

/// Sets the variables of `vars` on a command, oldest first.
fn set_variables(cmd: &mut unshare::Command, vars: &Vec<(String, String)>, Ghost(before): Ghost<
    Seq<(String, String)>,
>)
    requires
        command_env_is_fixed(*old(cmd)),
        command_env(*old(cmd)) == env_of(before),
    ensures
        command_env_is_fixed(*final(cmd)),
        command_env(*final(cmd)) == env_of(before + vars@),
        command_program(*final(cmd)) == command_program(*old(cmd)),
        command_line(*final(cmd)) == command_line(*old(cmd)),
        command_namespaces(*final(cmd)) == command_namespaces(*old(cmd)),
        command_uid_map(*final(cmd)) == command_uid_map(*old(cmd)),
        command_gid_map(*final(cmd)) == command_gid_map(*old(cmd)),
{
    let mut i: usize = 0;
    proof {
        assert(before + vars@.take(0) =~= before);
    }
    while i < vars.len()
        invariant
            i <= vars.len(),
            command_env_is_fixed(*cmd),
            command_env(*cmd) == env_of(before + vars@.take(i as int)),
            command_program(*cmd) == command_program(*old(cmd)),
            command_line(*cmd) == command_line(*old(cmd)),
            command_namespaces(*cmd) == command_namespaces(*old(cmd)),
            command_uid_map(*cmd) == command_uid_map(*old(cmd)),
            command_gid_map(*cmd) == command_gid_map(*old(cmd)),
        decreases vars.len() - i,
    {
        command_env_set(cmd, vars[i].0.as_str(), vars[i].1.as_str());
        proof {
            let longer = before + vars@.take(i + 1);
            assert(longer.drop_last() =~= before + vars@.take(i as int));
            assert(longer.last() == vars@[i as int]);
        }
        i += 1;
    }
    proof {
        assert(vars@.take(i as int) =~= vars@);
    }
}

/// Builds the command of the process library that a descriptor describes.
///
/// `ambient` is the environment of the starting process, which the child
/// inherits unless the descriptor clears it. Returns `None` where the
/// program or an argument holds a NUL: no such command can be run.
pub fn to_command(desc: &CommandDescriptor, ambient: &Vec<(String, String)>) -> (res: Option<
    unshare::Command,
>)
    ensures
        res is Some <==> !line_holds_nul(desc),
        res matches Some(cmd) ==> describes(desc, ambient@, cmd),
{
    if has_nul(desc.program.as_str()) {
        return None;
    }
    let mut cmd = command_new(desc.program.as_str());
    let mut i: usize = 0;
    proof {
        assert(desc.arg_views().take(0) =~= Seq::<Seq<char>>::empty());
        assert(command_line(cmd) =~= seq![desc.program@] + desc.arg_views().take(0));
    }
    while i < desc.args.len()
        invariant
            i <= desc.args.len(),
            !holds_nul(desc.program@),
            forall|j: int| 0 <= j < i ==> !holds_nul(#[trigger] desc.args@[j]@),
            command_program(cmd) == desc.program@,
            command_line(cmd) == seq![desc.program@] + desc.arg_views().take(i as int),
            command_namespaces(cmd) == Set::<Namespace>::empty(),
            command_uid_map(cmd) == Seq::<MapEntry>::empty(),
            command_gid_map(cmd) == Seq::<MapEntry>::empty(),
        decreases desc.args.len() - i,
    {
        if has_nul(desc.args[i].as_str()) {
            return None;
        }
        command_arg(&mut cmd, desc.args[i].as_str());
        proof {
            assert((seq![desc.program@] + desc.arg_views().take(i as int)).push(
                desc.args@[i as int]@,
            ) =~= seq![desc.program@] + desc.arg_views().take(i + 1));
        }
        i += 1;
    }
    proof {
        assert(desc.arg_views().take(i as int) =~= desc.arg_views());
    }
    command_env_clear(&mut cmd);
    let ghost none: Seq<(String, String)> = Seq::empty();
    if desc.env_cleared {
        set_variables(&mut cmd, &desc.env, Ghost(none));
        proof {
            assert(none + desc.env@ =~= desc.env@);
        }
    } else {
        set_variables(&mut cmd, ambient, Ghost(none));
        proof {
            assert(none + ambient@ =~= ambient@);
        }
        set_variables(&mut cmd, &desc.env, Ghost(ambient@));
    }
    let mut k: usize = 0;
    proof {
        assert(desc.namespaces@.take(0).to_set() =~= Set::<Namespace>::empty());
    }
    while k < desc.namespaces.len()
        invariant
            k <= desc.namespaces.len(),
            command_program(cmd) == desc.program@,
            command_line(cmd) == seq![desc.program@] + desc.arg_views(),
            command_env_is_fixed(cmd),
            command_env(cmd) == effective_env(desc, ambient@),
            command_namespaces(cmd) == desc.namespaces@.take(k as int).to_set(),
            command_uid_map(cmd) == Seq::<MapEntry>::empty(),
            command_gid_map(cmd) == Seq::<MapEntry>::empty(),
        decreases desc.namespaces.len() - k,
    {
        command_unshare(&mut cmd, desc.namespaces[k]);
        proof {
            let seen = desc.namespaces@.take(k as int);
            assert(desc.namespaces@.take(k + 1) =~= seen.push(desc.namespaces@[k as int]));
            seen.lemma_push_to_set_commute(desc.namespaces@[k as int]);
        }
        k += 1;
    }
    proof {
        assert(desc.namespaces@.take(k as int) =~= desc.namespaces@);
    }
    match &desc.id_map {
        Some(map) => {
            command_set_id_maps(&mut cmd, &map.uids, &map.gids);
        },
        None => {},
    }
    Some(cmd)
}

} // verus!
