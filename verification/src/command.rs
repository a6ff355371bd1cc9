//! The descriptor of a child process that has not been started yet.

use vstd::prelude::*;
use vstd::string::*;
use crate::uidmap::IdentityMap;

verus! {

/// A kernel namespace that a child process can be given a fresh instance of.
#[derive(Clone, Copy, Debug, PartialEq, Eq, Structural)]
pub enum Namespace {
    Mount,
    Uts,
    Ipc,
    User,
    Pid,
    Net,
    Cgroup,
}

/// The variables that a sequence of assignments leaves behind: a later
/// assignment to a name replaces an earlier one.
pub open spec fn env_of(log: Seq<(String, String)>) -> Map<Seq<char>, Seq<char>>
    decreases log.len(),
{
    if log.len() == 0 {
        Map::empty()
    } else {
        env_of(log.drop_last()).insert(log.last().0@, log.last().1@)
    }
}

/// The views of a sequence of strings.
pub open spec fn views(items: Seq<String>) -> Seq<Seq<char>> {
    items.map_values(|s: String| s@)
}

/// A builder for a child process: what to run, with which arguments and
/// environment, in which fresh namespaces and under which identity map.
/// Nothing is started by building one.
#[derive(Clone, Debug)]
pub struct CommandDescriptor {
    /// Path of the executable.
    pub program: String,
    /// Arguments after the program's own name.
    pub args: Vec<String>,
    /// Whether the child starts from an empty environment rather than from
    /// the one of the process that starts it.
    pub env_cleared: bool,
    /// Assignments to environment variables, oldest first.
    pub env: Vec<(String, String)>,
    /// Namespaces to unshare, in the order they were asked for.
    pub namespaces: Vec<Namespace>,
    /// The identity map to install when the process is created.
    pub id_map: Option<IdentityMap>,
}

impl CommandDescriptor {
    /// The variables set on the descriptor.
    pub open spec fn env_map(&self) -> Map<Seq<char>, Seq<char>> {
        env_of(self.env@)
    }

    /// The arguments as character sequences.
    pub open spec fn arg_views(&self) -> Seq<Seq<char>> {
        views(self.args@)
    }

    /// The namespaces asked for.
    pub open spec fn namespace_set(&self) -> Set<Namespace> {
        self.namespaces@.to_set()
    }

    /// Whether two descriptors agree on everything but their variables.
    pub open spec fn same_but_env(&self, other: &Self) -> bool {
        &&& self.program == other.program
        &&& self.args == other.args
        &&& self.env_cleared == other.env_cleared
        &&& self.namespaces == other.namespaces
        &&& self.id_map == other.id_map
    }

    /// A descriptor that runs `program` without arguments, in the starting
    /// process's environment and namespaces.
    pub fn for_program(program: &str) -> (cmd: Self)
        ensures
            cmd.program@ == program@,
            cmd.args@.len() == 0,
            !cmd.env_cleared,
            cmd.env@.len() == 0,
            cmd.namespaces@.len() == 0,
            cmd.id_map is None,
    {
        CommandDescriptor {
            program: String::from_str(program),
            args: Vec::new(),
            env_cleared: false,
            env: Vec::new(),
            namespaces: Vec::new(),
            id_map: None,
        }
    }

    /// Appends one argument.
    pub fn arg(&mut self, value: &str)
        ensures
            final(self).arg_views() == old(self).arg_views().push(value@),
            final(self).program == old(self).program,
            final(self).env_cleared == old(self).env_cleared,
            final(self).env == old(self).env,
            final(self).namespaces == old(self).namespaces,
            final(self).id_map == old(self).id_map,
    {
        self.args.push(String::from_str(value));
        proof {
            assert(self.arg_views() =~= old(self).arg_views().push(value@));
        }
    }

    /// Sets one variable, replacing an earlier value of the same name.
    pub fn env(&mut self, name: &str, value: &str)
        ensures
            final(self).env_map() == old(self).env_map().insert(name@, value@),
            final(self).env@.len() == old(self).env@.len() + 1,
            final(self).program == old(self).program,
            final(self).args == old(self).args,
            final(self).env_cleared == old(self).env_cleared,
            final(self).namespaces == old(self).namespaces,
            final(self).id_map == old(self).id_map,
    {
        self.env.push((String::from_str(name), String::from_str(value)));
        proof {
            assert(self.env@.drop_last() =~= old(self).env@);
        }
    }

    /// The value of a variable set on the descriptor.
    pub fn env_value(&self, name: &str) -> (res: Option<&String>)
        ensures
            match res {
                Some(value) => self.env_map().contains_key(name@) && self.env_map()[name@]
                    == value@,
                None => !self.env_map().contains_key(name@),
            },
    {
        let wanted = String::from_str(name);
        let mut i: usize = self.env.len();
        proof {
            assert(self.env@.take(i as int) =~= self.env@);
        }
        while i > 0
            invariant
                i <= self.env.len(),
                wanted@ == name@,
                self.env_map().contains_key(name@) <==> env_of(self.env@.take(i as int)).contains_key(
                    name@,
                ),
                self.env_map().contains_key(name@) ==> self.env_map()[name@] == env_of(
                    self.env@.take(i as int),
                )[name@],
            decreases i,
        {
            proof {
                assert(self.env@.take(i as int).drop_last() =~= self.env@.take(i - 1));
                assert(self.env@.take(i as int).last() == self.env@[i - 1]);
            }
            if self.env[i - 1].0 == wanted {
                return Some(&self.env[i - 1].1);
            }
            i -= 1;
        }
        None
    }

    /// Empties the environment: the child sees no variable of the starting
    /// process unless it is set again afterwards.
    pub fn env_clear(&mut self)
        ensures
            final(self).env_cleared,
            final(self).env_map() == Map::<Seq<char>, Seq<char>>::empty(),
            final(self).env@.len() == 0,
            final(self).program == old(self).program,
            final(self).args == old(self).args,
            final(self).namespaces == old(self).namespaces,
            final(self).id_map == old(self).id_map,
    {
        self.env = Vec::new();
        self.env_cleared = true;
    }

    /// Asks for a fresh instance of one more namespace.
    pub fn unshare(&mut self, namespace: Namespace)
        ensures
            final(self).namespace_set() == old(self).namespace_set().insert(namespace),
            final(self).namespaces@ == old(self).namespaces@.push(namespace),
            final(self).program == old(self).program,
            final(self).args == old(self).args,
            final(self).env_cleared == old(self).env_cleared,
            final(self).env == old(self).env,
            final(self).id_map == old(self).id_map,
    {
        self.namespaces.push(namespace);
        proof {
            old(self).namespaces@.lemma_push_to_set_commute(namespace);
        }
    }
}

} // verus!
