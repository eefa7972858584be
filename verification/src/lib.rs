//! Template expansion for an editor command line.
//!
//! Input text may contain `%{...}` tokens.  Each token is resolved against a
//! snapshot of the editor's state (current document, cursor, selection,
//! workspace), except for `%{prompt ...}` tokens, whose answers are supplied
//! interactively after the scan.  The fully resolved text is then split into
//! arguments for a command invocation.

pub mod driver;
pub mod resolver;
pub mod scanner;
pub mod snapshot;
pub mod text;
pub mod words;
