//! The directory listing operation: argument handling and output
//! formatting. Enumerating the directory itself is left to the caller,
//! which hands the entry names in, in the order the filesystem yields them.

use vstd::prelude::*;
use crate::cli::{contains_help_flag, has_help_flag, lines_output, render_lines};

verus! {

/// What one invocation of the operation does: print the usage message on
/// standard output, or list the entries of the named directory.
pub enum LsRequest {
    Usage,
    ListDir(String),
}

/// The operation's usage message.
pub fn ls_usage() -> (r: String)
    ensures
        r@ == "Usage: rust_ls [directory]"@,
{
    String::from_str("Usage: rust_ls [directory]")
}

/// Decides what the operation does. `args` is the operation's argument
/// list, its own name first. A help flag anywhere asks for the usage
/// message; otherwise the single optional positional argument names the
/// directory, defaulting to the current one.
pub fn ls_request(args: &Vec<String>) -> (r: LsRequest)
    ensures
        has_help_flag(args.deep_view()) ==> r == LsRequest::Usage,
        !has_help_flag(args.deep_view()) ==> (r matches LsRequest::ListDir(dir) && dir@ == (
        if args.deep_view().len() >= 2 {
            args.deep_view()[1]
        } else {
            "."@
        })),
{
    proof {
        assert(args.deep_view().len() == args@.len());
    }
    if contains_help_flag(args) {
        LsRequest::Usage
    } else if args.len() >= 2 {
        proof {
            assert(args.deep_view()[1] == args@[1]@);
        }
        LsRequest::ListDir(args[1].clone())
    } else {
        LsRequest::ListDir(String::from_str("."))
    }
}

/// The text printed for the entry names of the listed directory: each name
/// on a line of its own, in the order given.
pub fn ls_output(entries: &Vec<String>) -> (r: String)
    ensures
        r@ == lines_output(entries.deep_view()),
{
    render_lines(entries)
}

} // verus!
