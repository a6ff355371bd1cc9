//! The parts of the tool's configuration that process isolation reads.

use vstd::prelude::*;
use crate::uidmap::Range;

verus! {

/// Settings of the installation.
#[derive(Clone, Debug)]
pub struct Settings {
    /// Name of the host variable that selects a storage subdirectory.
    pub storage_subdir_from_env_var: Option<String>,
    /// Base address of the package mirror.
    pub alpine_mirror: String,
    /// User identifiers that the host lets this user hand to a container.
    pub subordinate_uids: Vec<Range>,
    /// Group identifiers that the host lets this user hand to a container.
    pub subordinate_gids: Vec<Range>,
}

/// What a container declares about the identifiers it needs.
#[derive(Clone, Debug)]
pub struct Container {
    pub uids: Vec<Range>,
    pub gids: Vec<Range>,
}

/// Network configuration of one supervised child.
#[derive(Clone, Debug)]
pub struct Network {
    /// Address assigned to the child.
    pub ip: String,
}

/// One child of a supervision tree.
#[derive(Clone, Debug)]
pub struct ChildCommand {
    /// Name under which the supervisor knows the child.
    pub name: String,
    /// Network configuration, where the child has one.
    pub network: Option<Network>,
}

/// A command that supervises several children.
#[derive(Clone, Debug)]
pub struct SuperviseInfo {
    pub children: Vec<ChildCommand>,
}

/// A top-level command of the configuration.
#[derive(Clone, Debug)]
pub enum MainCommand {
    /// Runs one process.
    Command,
    /// Runs and supervises a tree of processes.
    Supervise(SuperviseInfo),
}

/// A named top-level command.
#[derive(Clone, Debug)]
pub struct NamedCommand {
    pub name: String,
    pub command: MainCommand,
}

/// The configuration: its top-level commands, looked up by name.
#[derive(Clone, Debug)]
pub struct Config {
    pub commands: Vec<NamedCommand>,
}

/// Whether no two children of the list have the same name.
pub open spec fn unique_children(children: Seq<ChildCommand>) -> bool {
    forall|i: int, j: int|
        0 <= i < j < children.len() ==> (#[trigger] children[i]).name@ != (
        #[trigger] children[j]).name@
}

/// Whether no two commands of the list have the same name.
pub open spec fn unique_commands(commands: Seq<NamedCommand>) -> bool {
    forall|i: int, j: int|
        0 <= i < j < commands.len() ==> (#[trigger] commands[i]).name@ != (
        #[trigger] commands[j]).name@
}

impl SuperviseInfo {
    /// The children are keyed by their names: no name occurs twice.
    pub open spec fn wf(&self) -> bool {
        unique_children(self.children@)
    }

    /// Whether the children are keyed by their names.
    pub fn check(&self) -> (ok: bool)
        ensures
            ok == self.wf(),
    {
        let mut i: usize = 0;
        while i < self.children.len()
            invariant
                i <= self.children.len(),
                forall|a: int, b: int|
                    0 <= a < b < self.children@.len() && a < i ==> (
                    #[trigger] self.children@[a]).name@ != (#[trigger] self.children@[b]).name@,
            decreases self.children.len() - i,
        {
            let mut j: usize = i + 1;
            while j < self.children.len()
                invariant
                    i < j <= self.children.len(),
                    forall|b: int|
                        i < b < j ==> self.children@[i as int].name@ != (
                        #[trigger] self.children@[b]).name@,
                decreases self.children.len() - j,
            {
                if self.children[i].name == self.children[j].name {
                    return false;
                }
                j += 1;
            }
            i += 1;
        }
        true
    }
}

impl MainCommand {
    /// The children of a supervising command are keyed by their names.
    pub open spec fn wf(&self) -> bool {
        match self {
            MainCommand::Supervise(tree) => tree.wf(),
            MainCommand::Command => true,
        }
    }
}

impl Config {
    /// The commands are keyed by their names, and so are the children of
    /// every supervising command: no name occurs twice.
    pub open spec fn wf(&self) -> bool {
        &&& unique_commands(self.commands@)
        &&& forall|i: int|
            0 <= i < self.commands@.len() ==> (#[trigger] self.commands@[i]).command.wf()
    }

    /// Whether the commands and the children of each supervising command are
    /// keyed by their names.
    pub fn check(&self) -> (ok: bool)
        ensures
            ok == self.wf(),
    {
        let mut i: usize = 0;
        while i < self.commands.len()
            invariant
                i <= self.commands.len(),
                forall|a: int, b: int|
                    0 <= a < b < self.commands@.len() && a < i ==> (
                    #[trigger] self.commands@[a]).name@ != (#[trigger] self.commands@[b]).name@,
                forall|a: int| 0 <= a < i ==> (#[trigger] self.commands@[a]).command.wf(),
            decreases self.commands.len() - i,
        {
            if let MainCommand::Supervise(tree) = &self.commands[i].command {
                if !tree.check() {
                    return false;
                }
            }
            let mut j: usize = i + 1;
            while j < self.commands.len()
                invariant
                    i < j <= self.commands.len(),
                    forall|b: int|
                        i < b < j ==> self.commands@[i as int].name@ != (
                        #[trigger] self.commands@[b]).name@,
                decreases self.commands.len() - j,
            {
                if self.commands[i].name == self.commands[j].name {
                    return false;
                }
                j += 1;
            }
            i += 1;
        }
        true
    }
}

} // verus!
