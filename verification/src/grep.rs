//! The line search operation: argument validation and the selection of the
//! lines that contain a pattern. Opening the file and splitting it into
//! lines is left to the caller.

use vstd::prelude::*;
use crate::cli::{usage_channel, contains_help_flag, OutputChannel};
use crate::text::{is_substring_of, contains_substring, lemma_empty_pattern_matches};

verus! {

/// What one invocation of the operation does: print a usage message on the
/// given channel, or search the named file for lines containing the pattern.
pub enum GrepRequest {
    Usage(OutputChannel),
    SearchFile { pattern: String, path: String },
}

/// The operation's usage message.
pub fn grep_usage() -> (r: String)
    ensures
        r@ == "Usage: rust_grep <pattern> <filename>"@,
{
    String::from_str("Usage: rust_grep <pattern> <filename>")
}

/// Decides what the operation does. `args` is the operation's argument
/// list, its own name first. Exactly two positional arguments give the
/// pattern and the file; any other count asks for the usage message, on
/// standard output when a help flag is among the arguments and on standard
/// error otherwise. Nothing is printed before that decision falls.
pub fn grep_request(args: &Vec<String>) -> (r: GrepRequest)
    ensures
        args.deep_view().len() == 3 ==> (r matches GrepRequest::SearchFile { pattern, path }
            && pattern@ == args.deep_view()[1] && path@ == args.deep_view()[2]),
        args.deep_view().len() != 3 ==> r == GrepRequest::Usage(usage_channel(args.deep_view())),
{
    proof {
        assert(args.deep_view().len() == args@.len());
    }
    if args.len() != 3 {
        if contains_help_flag(args) {
            GrepRequest::Usage(OutputChannel::Stdout)
        } else {
            GrepRequest::Usage(OutputChannel::Stderr)
        }
    } else {
        proof {
            assert(args.deep_view()[1] == args@[1]@);
            assert(args.deep_view()[2] == args@[2]@);
        }
        GrepRequest::SearchFile { pattern: args[1].clone(), path: args[2].clone() }
    }
}

/// The subsequence of `lines` whose members contain `p`, in their original
/// order.
pub open spec fn matching_lines(lines: Seq<Seq<char>>, p: Seq<char>) -> Seq<Seq<char>>
    decreases lines.len(),
{
    if lines.len() == 0 {
        Seq::empty()
    } else {
        (if is_substring_of(p, lines[0]) {
            seq![lines[0]]
        } else {
            Seq::empty()
        }) + matching_lines(lines.skip(1), p)
    }
}

/// Selects, in file order, exactly the lines that contain the pattern as a
/// literal, case-sensitive substring.
pub fn grep_matching_lines(pattern: &str, lines: &Vec<String>) -> (r: Vec<String>)
    ensures
        r.deep_view() == matching_lines(lines.deep_view(), pattern@),
{
    let ghost lv = lines.deep_view();
    let mut out: Vec<String> = Vec::new();
    let mut i: usize = 0;
    proof {
        assert(lv.skip(0) =~= lv);
        assert(out.deep_view() =~= Seq::<Seq<char>>::empty());
        assert(Seq::<Seq<char>>::empty() + matching_lines(lv, pattern@) =~= matching_lines(
            lv,
            pattern@,
        ));
    }
    while i < lines.len()
        invariant
            lv == lines.deep_view(),
            lv.len() == lines@.len(),
            i <= lv.len(),
            matching_lines(lv, pattern@) == out.deep_view() + matching_lines(
                lv.skip(i as int),
                pattern@,
            ),
        decreases lv.len() - i,
    {
        let ghost pre = out.deep_view();
        proof {
            assert(lv[i as int] == lines@[i as int]@);
            assert(lv.skip(i as int)[0] == lv[i as int]);
            assert(lv.skip(i as int).skip(1) =~= lv.skip(i + 1));
        }
        let line = &lines[i];
        if contains_substring(line.as_str(), pattern) {
            out.push(line.clone());
            proof {
                assert(out.deep_view() =~= pre + seq![lv[i as int]]);
            }
        }
        proof {
            assert(out.deep_view() + matching_lines(lv.skip(i + 1), pattern@) =~= pre
                + matching_lines(lv.skip(i as int), pattern@));
        }
        i += 1;
    }
    proof {
        assert(lv.skip(lv.len() as int).len() == 0);
        assert(out.deep_view() + matching_lines(lv.skip(lv.len() as int), pattern@) =~= out.deep_view());
    }
    out
}

/// An empty pattern matches every line: the search then returns the whole
/// file.
pub proof fn lemma_grep_empty_pattern(lines: Seq<Seq<char>>)
    ensures
        matching_lines(lines, Seq::<char>::empty()) == lines,
    decreases lines.len(),
{
    if lines.len() == 0 {
        assert(matching_lines(lines, Seq::<char>::empty()) =~= lines);
    } else {
        lemma_empty_pattern_matches(lines[0]);
        lemma_grep_empty_pattern(lines.skip(1));
        assert(seq![lines[0]] + lines.skip(1) =~= lines);
    }
}

/// What the search keeps of a line list ending in `last`: the selection of
/// the front, then `last` itself exactly when it contains the pattern.
proof fn lemma_matching_lines_snoc(lines: Seq<Seq<char>>, last: Seq<char>, p: Seq<char>)
    ensures
        matching_lines(lines.push(last), p) == matching_lines(lines, p) + (
        if is_substring_of(p, last) {
            seq![last]
        } else {
            Seq::<Seq<char>>::empty()
        }),
    decreases lines.len(),
{
    let whole = lines.push(last);
    if lines.len() == 0 {
        reveal_with_fuel(matching_lines, 2);
        assert(whole[0] == last);
        assert(whole.skip(1) =~= Seq::<Seq<char>>::empty());
        assert(matching_lines(whole, p) =~= matching_lines(lines, p) + (
        if is_substring_of(p, last) {
            seq![last]
        } else {
            Seq::<Seq<char>>::empty()
        }));
    } else {
        assert(whole[0] == lines[0]);
        assert(whole.skip(1) =~= lines.skip(1).push(last));
        lemma_matching_lines_snoc(lines.skip(1), last, p);
        assert(matching_lines(whole, p) =~= matching_lines(lines, p) + (
        if is_substring_of(p, last) {
            seq![last]
        } else {
            Seq::<Seq<char>>::empty()
        }));
    }
}

/// The search returns exactly the filtering of the lines by substring
/// containment: the subsequence of lines containing the pattern, in their
/// original order, and no others.
pub proof fn lemma_grep_is_filter(lines: Seq<Seq<char>>, p: Seq<char>)
    ensures
        matching_lines(lines, p) == lines.filter(|l: Seq<char>| is_substring_of(p, l)),
    decreases lines.len(),
{
    reveal(Seq::filter);
    let pred = |l: Seq<char>| is_substring_of(p, l);
    if lines.len() == 0 {
        assert(matching_lines(lines, p) =~= lines.filter(pred));
    } else {
        let front = lines.drop_last();
        let last = lines.last();
        lemma_grep_is_filter(front, p);
        lemma_matching_lines_snoc(front, last, p);
        assert(front.push(last) =~= lines);
        if pred(last) {
            assert(front.filter(pred) + seq![last] =~= front.filter(pred).push(last));
        } else {
            assert(front.filter(pred) + Seq::<Seq<char>>::empty() =~= front.filter(pred));
        }
    }
}

} // verus!
