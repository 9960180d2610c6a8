//! Selection of one of the five operations by the first argument's literal
//! value.

use vstd::prelude::*;
use crate::text::str_eq;

verus! {

/// The closed set of operations, plus the unrecognized case.
#[derive(Clone, Copy, Debug, PartialEq, Eq, Structural)]
pub enum Command {
    Echo,
    Cat,
    Ls,
    Find,
    Grep,
    Unknown,
}

/// The operation selected by an operation name, by its exact text.
pub open spec fn command_of(name: Seq<char>) -> Command {
    if name == "rust_echo"@ {
        Command::Echo
    } else if name == "rust_cat"@ {
        Command::Cat
    } else if name == "rust_ls"@ {
        Command::Ls
    } else if name == "rust_find"@ {
        Command::Find
    } else if name == "rust_grep"@ {
        Command::Grep
    } else {
        Command::Unknown
    }
}

/// Dispatches on an operation name.
pub fn parse_command(name: &str) -> (r: Command)
    ensures
        r == command_of(name@),
{
    if str_eq(name, "rust_echo") {
        Command::Echo
    } else if str_eq(name, "rust_cat") {
        Command::Cat
    } else if str_eq(name, "rust_ls") {
        Command::Ls
    } else if str_eq(name, "rust_find") {
        Command::Find
    } else if str_eq(name, "rust_grep") {
        Command::Grep
    } else {
        Command::Unknown
    }
}

} // verus!
