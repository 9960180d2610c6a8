//! The whole-file print operation: argument validation and output
//! formatting. Reading the file itself is left to the caller.

use vstd::prelude::*;
use crate::cli::{usage_channel, contains_help_flag, OutputChannel};

verus! {

/// What one invocation of the operation does: print a usage message on the
/// given channel, or print the contents of the named file.
pub enum CatRequest {
    Usage(OutputChannel),
    PrintFile(String),
}

/// The operation's usage message.
pub fn cat_usage() -> (r: String)
    ensures
        r@ == "Usage: rust_cat <filename>"@,
{
    String::from_str("Usage: rust_cat <filename>")
}

/// Decides what the operation does. `args` is the operation's argument
/// list, its own name first. Exactly one positional argument names the file
/// to print; any other count asks for the usage message, on standard output
/// when a help flag is among the arguments and on standard error otherwise.
/// Nothing is printed before that decision falls.
pub fn cat_request(args: &Vec<String>) -> (r: CatRequest)
    ensures
        args.deep_view().len() == 2 ==> (r matches CatRequest::PrintFile(path) && path@
            == args.deep_view()[1]),
        args.deep_view().len() != 2 ==> r == CatRequest::Usage(usage_channel(args.deep_view())),
{
    proof {
        assert(args.deep_view().len() == args@.len());
    }
    if args.len() != 2 {
        if contains_help_flag(args) {
            CatRequest::Usage(OutputChannel::Stdout)
        } else {
            CatRequest::Usage(OutputChannel::Stderr)
        }
    } else {
        proof {
            assert(args.deep_view()[1] == args@[1]@);
        }
        CatRequest::PrintFile(args[1].clone())
    }
}

/// The text printed for file contents `content`: the contents followed by
/// exactly one newline, whether or not the contents end in one.
pub fn cat_output(content: &str) -> (r: String)
    ensures
        r@ == content@ + seq!['\n'],
{
    let mut out = String::from_str(content);
    out.append("\n");
    proof {
        reveal_strlit("\n");
        assert("\n"@ =~= seq!['\n']);
    }
    out
}

} // verus!
