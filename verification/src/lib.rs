//! Verified cores of five small command-line utilities: text echo with
//! escape interpretation, whole-file printing, directory listing, recursive
//! filename search, and single-pattern line search.
//!
//! Each utility is split into pure, verified decision and formatting
//! functions. Reading arguments, files and directories is left to the
//! surrounding binary, which hands plain values in and writes the returned
//! text out.

pub mod cat;
pub mod cli;
pub mod dispatch;
pub mod echo;
pub mod find;
pub mod grep;
pub mod ls;
pub mod text;
