//! A convenience layer for CLI programs with multi-level subcommands.
//!
//! A [`Commander`] holds an ordered collection of named commands — plain
//! [`Command`] leaves or whole nested registries wrapped as a
//! [`MultiCommand`] — together with an option schema, a context-derivation
//! rule and a fallback for the case that no subcommand matched.  Running a
//! commander builds the full argument schema, captures a [`Help`] snapshot
//! for every node, parses the process arguments through the underlying
//! argument parser, and dispatches to the matching command, deriving a fresh
//! context value at every registry level on the way down.

use vstd::prelude::*;

pub use error::{Error, ErrorKind};
pub use help::Help;
pub use matches::Matches;
pub use registry::{Command, CommandEntry, Commander, MultiCommand};
pub use schema::{AppSpec, ArgSpec, Meta};

pub mod dispatch;
pub mod error;
pub mod help;
pub mod laws;
pub mod matches;
pub mod parser;
pub mod registry;
pub mod schema;
pub mod strutil;
pub mod usage;
