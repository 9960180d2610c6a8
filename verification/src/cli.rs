//! Shared command-line pieces: where a usage message goes, detection of the
//! help flags, and rendering a list of names one per line.

use vstd::prelude::*;
use crate::text::str_eq;

verus! {

/// Where a message is written.
#[derive(Clone, Copy, Debug, PartialEq, Eq, Structural)]
pub enum OutputChannel {
    Stdout,
    Stderr,
}

/// The long help token, `--help`.
pub open spec fn help_long() -> Seq<char> {
    seq!['-', '-', 'h', 'e', 'l', 'p']
}

/// The short help token, `-h`.
pub open spec fn help_short() -> Seq<char> {
    seq!['-', 'h']
}

/// Some argument is a help flag.
pub open spec fn has_help_flag(args: Seq<Seq<char>>) -> bool {
    exists|i: int|
        0 <= i < args.len() && ((#[trigger] args[i]) == help_long() || args[i] == help_short())
}

/// A usage message prompted by a wrong argument count goes to standard
/// output when help was asked for, to standard error otherwise.
pub open spec fn usage_channel(args: Seq<Seq<char>>) -> OutputChannel {
    if has_help_flag(args) {
        OutputChannel::Stdout
    } else {
        OutputChannel::Stderr
    }
}

/// The token is one of the two help flags.
fn is_help_token(t: &str) -> (r: bool)
    ensures
        r == (t@ == help_long() || t@ == help_short()),
{
    proof {
        reveal_strlit("--help");
        reveal_strlit("-h");
        assert("--help"@ =~= help_long());
        assert("-h"@ =~= help_short());
    }
    str_eq(t, "--help") || str_eq(t, "-h")
}

/// Whether the argument list carries a help flag.
pub fn contains_help_flag(args: &Vec<String>) -> (r: bool)
    ensures
        r == has_help_flag(args.deep_view()),
{
    let ghost av = args.deep_view();
    let mut i: usize = 0;
    while i < args.len()
        invariant
            av == args.deep_view(),
            av.len() == args@.len(),
            i <= av.len(),
            forall|j: int| 0 <= j < i ==> !((#[trigger] av[j]) == help_long() || av[j] == help_short()),
        decreases av.len() - i,
    {
        proof {
            assert(av[i as int] == args@[i as int]@);
        }
        let a = &args[i];
        if is_help_token(a.as_str()) {
            return true;
        }
        i += 1;
    }
    false
}

/// A list of names rendered one per line: each name followed by one newline.
pub open spec fn lines_output(names: Seq<Seq<char>>) -> Seq<char>
    decreases names.len(),
{
    if names.len() == 0 {
        Seq::empty()
    } else {
        names[0] + seq!['\n'] + lines_output(names.skip(1))
    }
}

/// Renders a list of names one per line.
pub fn render_lines(names: &Vec<String>) -> (r: String)
    ensures
        r@ == lines_output(names.deep_view()),
{
    let ghost nv = names.deep_view();
    let mut out = String::new();
    let mut i: usize = 0;
    proof {
        assert(nv.skip(0) =~= nv);
        assert(Seq::<char>::empty() + lines_output(nv) =~= lines_output(nv));
    }
    while i < names.len()
        invariant
            nv == names.deep_view(),
            nv.len() == names@.len(),
            i <= nv.len(),
            lines_output(nv) == out@ + lines_output(nv.skip(i as int)),
        decreases nv.len() - i,
    {
        let ghost pre = out@;
        proof {
            assert(nv[i as int] == names@[i as int]@);
            assert(nv.skip(i as int)[0] == nv[i as int]);
            assert(nv.skip(i as int).skip(1) =~= nv.skip(i + 1));
        }
        let n = &names[i];
        out.append(n.as_str());
        out.append("\n");
        proof {
            reveal_strlit("\n");
            assert("\n"@ =~= seq!['\n']);
            assert(out@ + lines_output(nv.skip(i + 1)) =~= pre + lines_output(nv.skip(i as int)));
        }
        i += 1;
    }
    proof {
        assert(nv.skip(nv.len() as int).len() == 0);
        assert(out@ + lines_output(nv.skip(nv.len() as int)) =~= out@);
    }
    out
}

} // verus!
