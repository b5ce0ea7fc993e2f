//! The command-execution and verification core of an interactive
//! terminal agent: a human converses with a language model that
//! proposes shell commands, and this library gates, routes and reports
//! them so the model can self-correct.
//!
//! The pieces, leaves first: [`risk`] grades a command's text;
//! [`suggest`] proposes a typo correction for a failed command;
//! [`capture`] builds the bounded view of an execution's output;
//! [`dirstate`] resolves and commits directory changes locally;
//! [`capability`] vetoes command categories the environment cannot
//! honour; [`protocol`] decodes one model reply and drives the
//! confirm → execute → report → continue decisions; [`log`] holds the
//! append-only transcript.  Everything that talks to the outside world —
//! the model transport, the subprocess spawn, the filesystem probes —
//! lives with the caller, which hands plain values in and applies the
//! returned values.

pub mod capability;
pub mod capture;
pub mod dirstate;
pub mod log;
pub mod protocol;
pub mod risk;
pub mod suggest;
pub mod sysinfo;
pub mod text;

pub use risk::{classify_command, CommandRisk};
