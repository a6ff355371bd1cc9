//! Building the descriptor that runs this program again, in wrapper mode,
//! inside fresh namespaces and with a rebuilt environment.

use vstd::prelude::*;
use vstd::string::*;
use crate::command::{CommandDescriptor, Namespace};
use crate::config::{Container, Settings};
use crate::environ::{
    child_env, first_value, is_app_variable, lemma_operational_names, lemma_prefixed_env, lookup,
    prefixed_env,
};
use crate::uidmap::{
    get_max_uidmap, is_map_of, is_max_map, map_outcome, map_users, max_outcome, MapError, Range,
};

verus! {

/// The arguments of the wrapper: the mode marker and, where a root is given,
/// the flag that names it.
pub open spec fn wrapper_args(root: Option<Seq<char>>) -> Seq<Seq<char>> {
    match root {
        Some(path) => seq!["__wrapper__"@, "--root"@, path],
        None => seq!["__wrapper__"@],
    }
}

/// The name of the host variable that selects the storage subdirectory.
pub open spec fn subdir_var(settings: &Settings) -> Option<Seq<char>> {
    match settings.storage_subdir_from_env_var {
        Some(name) => Some(name@),
        None => None,
    }
}

/// Copies one host variable into the descriptor under another name, where
/// the host has it.
fn copy_variable(
    cmd: &mut CommandDescriptor,
    host_env: &Vec<(String, String)>,
    source: &str,
    target: &str,
)
    ensures
        final(cmd).same_but_env(old(cmd)),
        final(cmd).env_map() == match first_value(host_env@, source@) {
            Some(value) => old(cmd).env_map().insert(target@, value),
            None => old(cmd).env_map(),
        },
{
    if let Some(value) = lookup(host_env, source) {
        cmd.env(target, value.as_str());
    }
}

/// The directory that the wrapper works in, for a directory given relative to
/// the working root. The empty path stands for the root itself, so that no
/// separator trails it; an absolute path stands for itself.
pub open spec fn workdir_value(dir: Seq<char>) -> Seq<char> {
    if dir.len() == 0 {
        "/work"@
    } else if dir[0] == '/' {
        dir
    } else {
        "/work/"@ + dir
    }
}

/// A relative directory is joined to the working root by exactly one
/// separator.
pub proof fn lemma_workdir_joined(dir: Seq<char>)
    requires
        dir.len() > 0,
        dir[0] != '/',
    ensures
        workdir_value(dir) == "/work"@ + seq!['/'] + dir,
        workdir_value(dir)[5] == '/',
        workdir_value(dir)[6] != '/',
{
    reveal_strlit("/work");
    reveal_strlit("/work/");
    assert("/work/"@ =~= "/work"@ + seq!['/']);
    assert(workdir_value(dir) =~= "/work"@ + seq!['/'] + dir);
}

/// Computes `workdir_value`.
pub fn workdir_path(dir: &str) -> (path: String)
    ensures
        path@ == workdir_value(dir@),
{
    if dir.unicode_len() == 0 {
        String::from_str("/work")
    } else if dir.get_char(0) == '/' {
        String::from_str(dir)
    } else {
        String::from_str("/work/").concat(dir)
    }
}

/// What mapping the requested identifiers does to a descriptor: on success
/// the descriptor carries a map of all of them and is otherwise unchanged; on
/// failure it is unchanged altogether, and the error is the one that the
/// request ends in.
pub open spec fn mapped_as(
    before: &CommandDescriptor,
    after: &CommandDescriptor,
    res: Result<(), MapError>,
    settings: &Settings,
    uids: Seq<Range>,
    gids: Seq<Range>,
) -> bool {
    match res {
        Ok(_) => {
            &&& map_outcome(settings, uids, gids) is None
            &&& after.id_map matches Some(map)
            &&& is_map_of(&map, settings, uids, gids)
            &&& after.program == before.program
            &&& after.args == before.args
            &&& after.env_cleared == before.env_cleared
            &&& after.env == before.env
            &&& after.namespaces == before.namespaces
        },
        Err(error) => {
            &&& map_outcome(settings, uids, gids) == Some(error)
            &&& *after == *before
        },
    }
}

/// Operations that turn a command descriptor into the wrapper's descriptor.
pub trait Wrapper: Sized {
    /// The descriptor of the wrapper process for this host environment.
    fn new(root: Option<&str>, settings: &Settings, host_env: &Vec<(String, String)>) -> Self;

    /// Selects the directory that the wrapper works in.
    fn workdir(&mut self, dir: &str);

    /// Installs the largest map that the host allows. The host's ranges
    /// must make one.
    fn max_uidmap(&mut self, settings: &Settings)
        requires
            max_outcome(settings) is None,
    ;

    /// Maps the identifiers that a container declares.
    fn map_users_for(&mut self, container: &Container, settings: &Settings) -> Result<
        (),
        MapError,
    >;

    /// Maps the given identifiers onto those that the host offers.
    fn map_users(&mut self, uids: &Vec<Range>, gids: &Vec<Range>, settings: &Settings) -> Result<
        (),
        MapError,
    >;
}

impl Wrapper for CommandDescriptor {
    fn new(root: Option<&str>, settings: &Settings, host_env: &Vec<(String, String)>) -> (cmd:
        Self)
        ensures
            cmd.program@ == "/proc/self/exe"@,
            cmd.arg_views() == wrapper_args(
                match root {
                    Some(path) => Some(path@),
                    None => None,
                },
            ),
            cmd.env_cleared,
            cmd.env_map() == child_env(host_env@, subdir_var(settings)),
            cmd.namespaces@ == seq![Namespace::Mount, Namespace::Ipc, Namespace::Pid],
            cmd.id_map is None,
    {
        let mut cmd = CommandDescriptor::for_program("/proc/self/exe");
        proof {
            assert(cmd.arg_views() =~= Seq::<Seq<char>>::empty());
        }
        cmd.arg("__wrapper__");
        if let Some(path) = root {
            cmd.arg("--root");
            cmd.arg(path);
        }
        proof {
            assert(cmd.arg_views() =~= wrapper_args(
                match root {
                    Some(path) => Some(path@),
                    None => None,
                },
            ));
        }
        cmd.env_clear();
        let ghost cleared = cmd;
        let mut i: usize = 0;
        while i < host_env.len()
            invariant
                i <= host_env.len(),
                cmd.same_but_env(&cleared),
                cmd.env_map() == prefixed_env(host_env@, i as int),
            decreases host_env.len() - i,
        {
            if is_app_variable(host_env[i].0.as_str()) {
                cmd.env(host_env[i].0.as_str(), host_env[i].1.as_str());
            }
            i += 1;
        }
        let ghost passed = cmd.env_map();
        copy_variable(&mut cmd, host_env, "PATH", "_VAGGA_PATH");
        copy_variable(&mut cmd, host_env, "RUST_LOG", "RUST_LOG");
        copy_variable(&mut cmd, host_env, "RUST_BACKTRACE", "RUST_BACKTRACE");
        copy_variable(&mut cmd, host_env, "VAGGA_DEBUG_CMDENV", "VAGGA_DEBUG_CMDENV");
        copy_variable(&mut cmd, host_env, "VAGGA_SETTINGS", "VAGGA_SETTINGS");
        copy_variable(&mut cmd, host_env, "HOME", "_VAGGA_HOME");
        if let Some(name) = &settings.storage_subdir_from_env_var {
            match lookup(host_env, name.as_str()) {
                Some(dir) => {
                    cmd.env("_VAGGA_STORAGE_SUBDIR", dir.as_str());
                },
                None => {
                    proof {
                        reveal_strlit("");
                        assert(""@ =~= Seq::<char>::empty());
                    }
                    cmd.env("_VAGGA_STORAGE_SUBDIR", "");
                },
            }
        }
        proof {
            lemma_operational_names();
            let host = host_env@;
            let wanted = child_env(host, subdir_var(settings));
            assert(host.take(host.len() as int) =~= host);
            assert forall|name: Seq<char>|
                cmd.env_map().dom().contains(name) <==> wanted.dom().contains(name) by {
                lemma_prefixed_env(host, host.len() as int, name);
            }
            assert forall|name: Seq<char>| cmd.env_map().dom().contains(name) implies #[trigger]
                cmd.env_map()[name] == wanted[name] by {
                lemma_prefixed_env(host, host.len() as int, name);
            }
            assert(cmd.env_map() =~= wanted);
        }
        cmd.unshare(Namespace::Mount);
        cmd.unshare(Namespace::Ipc);
        cmd.unshare(Namespace::Pid);
        cmd
    }

    fn workdir(&mut self, dir: &str)
        ensures
            final(self).same_but_env(old(self)),
            final(self).env_map() == old(self).env_map().insert(
                "_VAGGA_WORKDIR"@,
                workdir_value(dir@),
            ),
    {
        let value = workdir_path(dir);
        self.env("_VAGGA_WORKDIR", value.as_str());
    }

    fn max_uidmap(&mut self, settings: &Settings)
        ensures
            final(self).id_map matches Some(map) && is_max_map(&map, settings),
            final(self).program == old(self).program,
            final(self).args == old(self).args,
            final(self).env_cleared == old(self).env_cleared,
            final(self).env == old(self).env,
            final(self).namespaces == old(self).namespaces,
    {
        match get_max_uidmap(settings) {
            Ok(map) => {
                self.id_map = Some(map);
            },
            Err(_) => {},
        }
    }

    fn map_users_for(&mut self, container: &Container, settings: &Settings) -> (res: Result<
        (),
        MapError,
    >)
        ensures
            mapped_as(old(self), final(self), res, settings, container.uids@, container.gids@),
    {
        self.map_users(&container.uids, &container.gids, settings)
    }

    fn map_users(&mut self, uids: &Vec<Range>, gids: &Vec<Range>, settings: &Settings) -> (res:
        Result<(), MapError>)
        ensures
            mapped_as(old(self), final(self), res, settings, uids@, gids@),
    {
        match map_users(settings, uids, gids) {
            Ok(map) => {
                self.id_map = Some(map);
                Ok(())
            },
            Err(error) => Err(error),
        }
    }
}

} // verus!
