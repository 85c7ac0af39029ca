//! A schema compiler for structured chat commands.
//!
//! A command's shape — its name, description, and either a flat list of typed
//! options or a tree of subcommands and subcommand groups — is declared once,
//! as plain declaration data.  From that single declaration the library
//! derives two artifacts: a registration descriptor describing the command
//! surface to the chat platform, and a parser that turns an untyped incoming
//! interaction payload into a typed value or a precise [`error::ParseError`].
//! Both artifacts are read off the same immutable schema tree, which keeps
//! them consistent with each other.

pub mod common;
pub mod compile;
pub mod declaration;
pub mod descriptor;
pub mod error;
pub mod interaction;
pub mod laws;
pub mod schema;
