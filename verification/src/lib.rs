//! Process-isolation core of a container tool: building the descriptor of a
//! sandboxed child process, mapping user and group identifiers, and deciding
//! how a command rejoins the network namespace of a running child.

pub mod command;
pub mod config;
pub mod environ;
pub mod native;
pub mod packages;
pub mod run;
pub mod storage_dir;
pub mod uidmap;
pub mod wrap;
