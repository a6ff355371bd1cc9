//! Running a command in the network namespace of a supervised child.
//!
//! The kernel call and the child process are the caller's business. This
//! module decides: which namespace handle to attach to, when to start the
//! command, and how the attempt ends.

use vstd::prelude::*;
use vstd::string::*;
use crate::config::{
    unique_children, unique_commands, ChildCommand, Config, MainCommand, NamedCommand,
};

verus! {

/// What the user asked for: a command, with its arguments, to run in the
/// network namespace of the child called `node`.
#[derive(Clone, Debug)]
pub struct Request {
    pub node: String,
    pub command: String,
    pub args: Vec<String>,
}

/// Why a command was not run in a child's namespace, or did not succeed
/// there.
#[derive(Clone, Debug)]
pub enum RejoinError {
    /// The call was not made from inside a supervised container.
    NotSupervised,
    /// The supervision tree has no child of that name.
    NodeMissing(String),
    /// The child has no network configuration, so there is nothing to join.
    NoNetwork(String),
    /// Attaching to the namespace failed; the text is the system's reason.
    SetNamespace(String),
    /// The command could not be started or did not succeed.
    CommandFailed { command: String, detail: String },
    /// An event arrived that the current state does not expect.
    OutOfOrder,
}

/// A `RejoinError` with its texts as character sequences.
pub enum RejoinErrorView {
    NotSupervised,
    NodeMissing(Seq<char>),
    NoNetwork(Seq<char>),
    SetNamespace(Seq<char>),
    CommandFailed { command: Seq<char>, detail: Seq<char> },
    OutOfOrder,
}

impl View for RejoinError {
    type V = RejoinErrorView;

    open spec fn view(&self) -> RejoinErrorView {
        match self {
            RejoinError::NotSupervised => RejoinErrorView::NotSupervised,
            RejoinError::NodeMissing(node) => RejoinErrorView::NodeMissing(node@),
            RejoinError::NoNetwork(node) => RejoinErrorView::NoNetwork(node@),
            RejoinError::SetNamespace(reason) => RejoinErrorView::SetNamespace(reason@),
            RejoinError::CommandFailed { command, detail } => RejoinErrorView::CommandFailed {
                command: command@,
                detail: detail@,
            },
            RejoinError::OutOfOrder => RejoinErrorView::OutOfOrder,
        }
    }
}

impl RejoinErrorView {
    /// The message for the user.
    pub open spec fn message_text(self) -> Seq<char> {
        match self {
            RejoinErrorView::NotSupervised =>
                "This command is supposed to be run inside container started by vagga !Supervise command"@,
            RejoinErrorView::NodeMissing(node) => "Node "@ + node + " is missing"@,
            RejoinErrorView::NoNetwork(node) => "Node "@ + node + " does not have IP"@,
            RejoinErrorView::SetNamespace(reason) => "Can't set namespace: "@ + reason,
            RejoinErrorView::CommandFailed { command, detail } => "Error running "@ + command
                + ": "@ + detail,
            RejoinErrorView::OutOfOrder => "Unexpected event while rejoining a namespace"@,
        }
    }
}

impl RejoinError {
    /// The message for the user.
    pub fn message(&self) -> (text: String)
        ensures
            text@ == self@.message_text(),
    {
        match self {
            RejoinError::NotSupervised => String::from_str(
                "This command is supposed to be run inside container started by vagga !Supervise command",
            ),
            RejoinError::NodeMissing(node) => String::from_str("Node ").concat(
                node.as_str(),
            ).concat(" is missing"),
            RejoinError::NoNetwork(node) => String::from_str("Node ").concat(node.as_str()).concat(
                " does not have IP",
            ),
            RejoinError::SetNamespace(reason) => String::from_str("Can't set namespace: ").concat(
                reason.as_str(),
            ),
            RejoinError::CommandFailed { command, detail } => String::from_str(
                "Error running ",
            ).concat(command.as_str()).concat(": ").concat(detail.as_str()),
            RejoinError::OutOfOrder => String::from_str(
                "Unexpected event while rejoining a namespace",
            ),
        }
    }
}

/// The first command of the list with the given name.
pub open spec fn find_command(commands: Seq<NamedCommand>, name: Seq<char>) -> Option<
    MainCommand,
>
    decreases commands.len(),
{
    if commands.len() == 0 {
        None
    } else if commands[0].name@ == name {
        Some(commands[0].command)
    } else {
        find_command(commands.skip(1), name)
    }
}

/// The first child of the list with the given name.
pub open spec fn find_child(children: Seq<ChildCommand>, name: Seq<char>) -> Option<ChildCommand>
    decreases children.len(),
{
    if children.len() == 0 {
        None
    } else if children[0].name@ == name {
        Some(children[0])
    } else {
        find_child(children.skip(1), name)
    }
}

/// The path of the handle of the network namespace at an address.
pub open spec fn handle_path(ip: Seq<char>) -> Seq<char> {
    "/tmp/vagga/namespaces/net."@ + ip
}

/// The handle to attach to for a child, or the reason why there is none.
///
/// `active` is the name of the top-level command that the caller runs
/// under, where it runs under one. It must name a supervising command, the
/// child must be one of its children, and the child must have a network
/// configuration; the checks are made in this order.
pub open spec fn handle_of(config: &Config, active: Option<Seq<char>>, node: Seq<char>) -> Result<
    Seq<char>,
    RejoinErrorView,
> {
    match active {
        None => Err(RejoinErrorView::NotSupervised),
        Some(name) => match find_command(config.commands@, name) {
            Some(MainCommand::Supervise(tree)) => match find_child(tree.children@, node) {
                None => Err(RejoinErrorView::NodeMissing(node)),
                Some(child) => match child.network {
                    None => Err(RejoinErrorView::NoNetwork(node)),
                    Some(network) => Ok(handle_path(network.ip@)),
                },
            },
            _ => Err(RejoinErrorView::NotSupervised),
        },
    }
}

/// Among commands keyed by their names, each is found under its name.
pub proof fn lemma_command_found(commands: Seq<NamedCommand>, i: int)
    requires
        unique_commands(commands),
        0 <= i < commands.len(),
    ensures
        find_command(commands, commands[i].name@) == Some(commands[i].command),
    decreases commands.len(),
{
    if i > 0 {
        let rest = commands.skip(1);
        assert(commands[0].name@ != commands[i].name@);
        assert(unique_commands(rest)) by {
            assert forall|a: int, b: int| 0 <= a < b < rest.len() implies (#[trigger] rest[a]).name@
                != (#[trigger] rest[b]).name@ by {
                assert(rest[a] == commands[a + 1]);
                assert(rest[b] == commands[b + 1]);
            }
        }
        assert(rest[i - 1] == commands[i]);
        lemma_command_found(rest, i - 1);
    }
}

/// Among children keyed by their names, each is found under its name.
pub proof fn lemma_child_found(children: Seq<ChildCommand>, i: int)
    requires
        unique_children(children),
        0 <= i < children.len(),
    ensures
        find_child(children, children[i].name@) == Some(children[i]),
    decreases children.len(),
{
    if i > 0 {
        let rest = children.skip(1);
        assert(children[0].name@ != children[i].name@);
        assert(unique_children(rest)) by {
            assert forall|a: int, b: int| 0 <= a < b < rest.len() implies (#[trigger] rest[a]).name@
                != (#[trigger] rest[b]).name@ by {
                assert(rest[a] == children[a + 1]);
                assert(rest[b] == children[b + 1]);
            }
        }
        assert(rest[i - 1] == children[i]);
        lemma_child_found(rest, i - 1);
    }
}

/// Looks a top-level command up by name.
pub fn get_command<'a>(config: &'a Config, name: &String) -> (res: Option<&'a MainCommand>)
    requires
        config.wf(),
    ensures
        match res {
            Some(command) => find_command(config.commands@, name@) == Some(*command)
                && command.wf(),
            None => find_command(config.commands@, name@) is None,
        },
{
    let mut i: usize = 0;
    proof {
        assert(config.commands@.skip(0) =~= config.commands@);
    }
    while i < config.commands.len()
        invariant
            i <= config.commands.len(),
            config.wf(),
            find_command(config.commands@, name@) == find_command(
                config.commands@.skip(i as int),
                name@,
            ),
        decreases config.commands.len() - i,
    {
        proof {
            assert(config.commands@.skip(i as int)[0] == config.commands@[i as int]);
            assert(config.commands@.skip(i as int).skip(1) =~= config.commands@.skip(i + 1));
        }
        if config.commands[i].name == *name {
            return Some(&config.commands[i].command);
        }
        i += 1;
    }
    None
}

/// Looks a child up by name.
pub fn get_child<'a>(children: &'a Vec<ChildCommand>, name: &String) -> (res: Option<
    &'a ChildCommand,
>)
    requires
        unique_children(children@),
    ensures
        match res {
            Some(child) => find_child(children@, name@) == Some(*child),
            None => find_child(children@, name@) is None,
        },
{
    let mut i: usize = 0;
    proof {
        assert(children@.skip(0) =~= children@);
    }
    while i < children.len()
        invariant
            i <= children.len(),
            find_child(children@, name@) == find_child(children@.skip(i as int), name@),
        decreases children.len() - i,
    {
        proof {
            assert(children@.skip(i as int)[0] == children@[i as int]);
            assert(children@.skip(i as int).skip(1) =~= children@.skip(i + 1));
        }
        if children[i].name == *name {
            return Some(&children[i]);
        }
        i += 1;
    }
    None
}

/// Finds the namespace handle of a child of the supervision tree that the
/// caller runs under.
pub fn namespace_handle(config: &Config, active: &Option<String>, node: &String) -> (res: Result<
    String,
    RejoinError,
>)
    requires
        config.wf(),
    ensures
        match res {
            Ok(path) => handle_of(config, active_view(active), node@) == Ok::<
                Seq<char>,
                RejoinErrorView,
            >(path@),
            Err(error) => handle_of(config, active_view(active), node@) == Err::<
                Seq<char>,
                RejoinErrorView,
            >(error@),
        },
{
    let name = match active {
        Some(name) => name,
        None => {
            return Err(RejoinError::NotSupervised);
        },
    };
    let tree = match get_command(config, name) {
        Some(MainCommand::Supervise(tree)) => tree,
        _ => {
            return Err(RejoinError::NotSupervised);
        },
    };
    let child = match get_child(&tree.children, node) {
        Some(child) => child,
        None => {
            return Err(RejoinError::NodeMissing(node.clone()));
        },
    };
    match &child.network {
        Some(network) => Ok(String::from_str("/tmp/vagga/namespaces/net.").concat(
            network.ip.as_str(),
        )),
        None => Err(RejoinError::NoNetwork(node.clone())),
    }
}

/// The name of the active command as a character sequence.
pub open spec fn active_view(active: &Option<String>) -> Option<Seq<char>> {
    match active {
        Some(name) => Some(name@),
        None => None,
    }
}

/// Where an attempt to run a command in a child's namespace stands.
#[derive(Clone, Copy, Debug, PartialEq, Eq, Structural)]
pub enum RejoinState {
    /// Nothing has been done yet.
    Start,
    /// The caller is attaching to the namespace handle.
    Attaching,
    /// The command runs in the namespace.
    Running,
    /// The attempt is over.
    Finished,
}

/// What the caller reports back.
#[derive(Debug)]
pub enum RejoinEvent {
    /// The attempt begins. The value is the name of the top-level command
    /// that the caller runs under, as its environment gives it.
    Invoked(Option<String>),
    /// The attach call returned, with the system's reason where it failed.
    Attached(Result<(), String>),
    /// The command ended, or could not be started. `detail` describes the
    /// outcome.
    Exited { success: bool, detail: String },
}

/// What the caller is to do next.
#[derive(Debug)]
pub enum RejoinAction {
    /// Attach the network namespace of this process to the handle at the
    /// path, and to nothing else.
    Attach(String),
    /// Start the requested command with its arguments and wait for it.
    Spawn,
    /// Stop, with this result.
    Finish(Result<(), RejoinError>),
}

/// A `RejoinAction` with its texts as character sequences.
pub enum RejoinActionView {
    Attach(Seq<char>),
    Spawn,
    Finish(Result<(), RejoinErrorView>),
}

impl View for RejoinAction {
    type V = RejoinActionView;

    open spec fn view(&self) -> RejoinActionView {
        match self {
            RejoinAction::Attach(path) => RejoinActionView::Attach(path@),
            RejoinAction::Spawn => RejoinActionView::Spawn,
            RejoinAction::Finish(Ok(_)) => RejoinActionView::Finish(Ok(())),
            RejoinAction::Finish(Err(error)) => RejoinActionView::Finish(Err(error@)),
        }
    }
}

/// The state that follows `state` on `event`, and the action to take.
///
/// The handle is attached to before the command is started, and the command
/// is started only after the attach succeeded. A failure ends the attempt
/// with an error that tells the failing step. An event that the state does
/// not expect ends it too.
pub open spec fn next_step(
    config: &Config,
    request: &Request,
    state: RejoinState,
    event: RejoinEvent,
) -> (RejoinState, RejoinActionView) {
    match (state, event) {
        (RejoinState::Start, RejoinEvent::Invoked(active)) => match handle_of(
            config,
            active_view(&active),
            request.node@,
        ) {
            Ok(path) => (RejoinState::Attaching, RejoinActionView::Attach(path)),
            Err(error) => (RejoinState::Finished, RejoinActionView::Finish(Err(error))),
        },
        (RejoinState::Attaching, RejoinEvent::Attached(Ok(_))) => (
            RejoinState::Running,
            RejoinActionView::Spawn,
        ),
        (RejoinState::Attaching, RejoinEvent::Attached(Err(reason))) => (
            RejoinState::Finished,
            RejoinActionView::Finish(Err(RejoinErrorView::SetNamespace(reason@))),
        ),
        (RejoinState::Running, RejoinEvent::Exited { success, detail }) => if success {
            (RejoinState::Finished, RejoinActionView::Finish(Ok(())))
        } else {
            (
                RejoinState::Finished,
                RejoinActionView::Finish(
                    Err(RejoinErrorView::CommandFailed { command: request.command@, detail: detail@ }),
                ),
            )
        },
        _ => (RejoinState::Finished, RejoinActionView::Finish(Err(RejoinErrorView::OutOfOrder))),
    }
}

/// One step of running a command in a child's network namespace: takes the
/// state of the attempt and what the caller reports, and returns the next
/// state and what the caller is to do.
pub fn run_command_cmd(
    config: &Config,
    request: &Request,
    state: RejoinState,
    event: RejoinEvent,
) -> (res: (RejoinState, RejoinAction))
    requires
        config.wf(),
    ensures
        (res.0, res.1@) == next_step(config, request, state, event),
{
    match (state, event) {
        (RejoinState::Start, RejoinEvent::Invoked(active)) => {
            match namespace_handle(config, &active, &request.node) {
                Ok(path) => (RejoinState::Attaching, RejoinAction::Attach(path)),
                Err(error) => (RejoinState::Finished, RejoinAction::Finish(Err(error))),
            }
        },
        (RejoinState::Attaching, RejoinEvent::Attached(Ok(_))) => (
            RejoinState::Running,
            RejoinAction::Spawn,
        ),
        (RejoinState::Attaching, RejoinEvent::Attached(Err(reason))) => (
            RejoinState::Finished,
            RejoinAction::Finish(Err(RejoinError::SetNamespace(reason))),
        ),
        (RejoinState::Running, RejoinEvent::Exited { success, detail }) => {
            if success {
                (RejoinState::Finished, RejoinAction::Finish(Ok(())))
            } else {
                (
                    RejoinState::Finished,
                    RejoinAction::Finish(
                        Err(RejoinError::CommandFailed { command: request.command.clone(), detail }),
                    ),
                )
            }
        },
        _ => (RejoinState::Finished, RejoinAction::Finish(Err(RejoinError::OutOfOrder))),
    }
}

/// An attach is asked for in one situation only: at the start, for a child
/// that the active supervising command has and that has a network
/// configuration. The handle is then the one at the child's address.
pub proof fn lemma_attach_needs_network(
    config: &Config,
    request: &Request,
    state: RejoinState,
    event: RejoinEvent,
)
    requires
        next_step(config, request, state, event).1 is Attach,
    ensures
        state == RejoinState::Start,
        event is Invoked,
        event->Invoked_0 matches Some(active) && find_command(config.commands@, active@) matches Some(
            MainCommand::Supervise(tree),
        ) && find_child(tree.children@, request.node@) matches Some(child) && child.network matches Some(
            network,
        ) && next_step(config, request, state, event).1 == RejoinActionView::Attach(
            handle_path(network.ip@),
        ),
{
}

/// For a child without network configuration the attempt ends at once, with
/// the error that says so: no attach is asked for, and no later event brings
/// the attempt back to life.
pub proof fn lemma_no_network_fails(config: &Config, request: &Request, active: String)
    requires
        find_command(config.commands@, active@) matches Some(MainCommand::Supervise(tree))
            && find_child(tree.children@, request.node@) matches Some(child)
            && child.network is None,
    ensures
        next_step(config, request, RejoinState::Start, RejoinEvent::Invoked(Some(active))) == (
            RejoinState::Finished,
            RejoinActionView::Finish(Err(RejoinErrorView::NoNetwork(request.node@))),
        ),
        forall|event: RejoinEvent| #[trigger]
            next_step(config, request, RejoinState::Finished, event) == (
                RejoinState::Finished,
                RejoinActionView::Finish(Err(RejoinErrorView::OutOfOrder)),
            ),
{
}

/// For a name that is no child of the active supervising command the
/// attempt ends at once, with the error that says so, before any handle is
/// named.
pub proof fn lemma_unknown_node_fails(config: &Config, request: &Request, active: String)
    requires
        find_command(config.commands@, active@) matches Some(MainCommand::Supervise(tree))
            && find_child(tree.children@, request.node@) is None,
    ensures
        next_step(config, request, RejoinState::Start, RejoinEvent::Invoked(Some(active))) == (
            RejoinState::Finished,
            RejoinActionView::Finish(Err(RejoinErrorView::NodeMissing(request.node@))),
        ),
{
}

} // verus!
