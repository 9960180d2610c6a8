//! The recursive filename search operation: argument validation and the
//! depth-first selection of files whose base name contains a pattern.
//! The caller reads the directory tree into an `FsTree` value; the search
//! itself, and what it finds, is verified here.

use vstd::prelude::*;
use crate::cli::{usage_channel, contains_help_flag, OutputChannel};
use crate::text::{is_substring_of, contains_substring};

verus! {

/// What one invocation of the operation does: print a usage message on the
/// given channel, or search the tree below the named directory.
pub enum FindRequest {
    Usage(OutputChannel),
    SearchTree { dir: String, pattern: String },
}

/// The operation's usage message.
pub fn find_usage() -> (r: String)
    ensures
        r@ == "Usage: rust_find <directory> <pattern>"@,
{
    String::from_str("Usage: rust_find <directory> <pattern>")
}

/// Decides what the operation does. `args` is the operation's argument
/// list, its own name first. Exactly two positional arguments give the
/// starting directory and the pattern; any other count asks for the usage
/// message, on standard output when a help flag is among the arguments and
/// on standard error otherwise. Nothing is printed before that decision
/// falls.
pub fn find_request(args: &Vec<String>) -> (r: FindRequest)
    ensures
        args.deep_view().len() == 3 ==> (r matches FindRequest::SearchTree { dir, pattern } && dir@
            == args.deep_view()[1] && pattern@ == args.deep_view()[2]),
        args.deep_view().len() != 3 ==> r == FindRequest::Usage(usage_channel(args.deep_view())),
{
    proof {
        assert(args.deep_view().len() == args@.len());
    }
    if args.len() != 3 {
        if contains_help_flag(args) {
            FindRequest::Usage(OutputChannel::Stdout)
        } else {
            FindRequest::Usage(OutputChannel::Stderr)
        }
    } else {
        proof {
            assert(args.deep_view()[1] == args@[1]@);
            assert(args.deep_view()[2] == args@[2]@);
        }
        FindRequest::SearchTree { dir: args[1].clone(), pattern: args[2].clone() }
    }
}

/// A directory tree as the traversal sees it: an entry is a file, or a
/// directory with its entries in the order the filesystem yields them.
pub enum FsTree {
    File { name: String },
    Dir { name: String, entries: Vec<FsTree> },
}

/// The full paths, in depth-first traversal order, of the files below `t`
/// whose base name contains `p`; `prefix` is what precedes the root's own
/// name in a full path. Directories are traversed but never matched
/// themselves.
pub open spec fn found_paths(t: FsTree, prefix: Seq<char>, p: Seq<char>) -> Seq<Seq<char>>
    decreases t,
{
    match t {
        FsTree::File { name } => if is_substring_of(p, name@) {
            seq![prefix + name@]
        } else {
            Seq::empty()
        },
        FsTree::Dir { name, entries } => found_below(entries@, prefix + name@ + seq!['/'], p),
    }
}

/// The concatenation of the matches of a list of sibling entries.
pub open spec fn found_below(es: Seq<FsTree>, prefix: Seq<char>, p: Seq<char>) -> Seq<Seq<char>>
    decreases es,
{
    if es.len() == 0 {
        Seq::empty()
    } else {
        found_paths(es[0], prefix, p) + found_below(es.skip(1), prefix, p)
    }
}

/// There is a file at `path`, with base name `name`, somewhere below `t`.
pub open spec fn file_in_tree(
    t: FsTree,
    prefix: Seq<char>,
    path: Seq<char>,
    name: Seq<char>,
) -> bool
    decreases t,
{
    match t {
        FsTree::File { name: n } => name == n@ && path == prefix + n@,
        FsTree::Dir { name: n, entries } => file_below(
            entries@,
            prefix + n@ + seq!['/'],
            path,
            name,
        ),
    }
}

/// There is a file at `path`, with base name `name`, below one of the
/// sibling entries `es`.
pub open spec fn file_below(
    es: Seq<FsTree>,
    prefix: Seq<char>,
    path: Seq<char>,
    name: Seq<char>,
) -> bool
    decreases es,
{
    if es.len() == 0 {
        false
    } else {
        file_in_tree(es[0], prefix, path, name) || file_below(es.skip(1), prefix, path, name)
    }
}

/// Collects, in traversal order, the full path of every file below `t`
/// whose base name contains `pattern` as a literal, case-sensitive
/// substring.
#[verifier::loop_isolation(false)]
pub fn find_matches(t: &FsTree, prefix: &str, pattern: &str) -> (r: Vec<String>)
    ensures
        r.deep_view() == found_paths(*t, prefix@, pattern@),
    decreases *t,
{
    let mut out: Vec<String> = Vec::new();
    match t {
        FsTree::File { name } => {
            if contains_substring(name.as_str(), pattern) {
                let mut path = String::from_str(prefix);
                path.append(name.as_str());
                out.push(path);
                proof {
                    assert(out.deep_view() =~= seq![prefix@ + name@]);
                }
            } else {
                proof {
                    assert(out.deep_view() =~= Seq::<Seq<char>>::empty());
                }
            }
        },
        FsTree::Dir { name, entries } => {
            let mut child_prefix = String::from_str(prefix);
            child_prefix.append(name.as_str());
            child_prefix.append("/");
            proof {
                reveal_strlit("/");
                assert("/"@ =~= seq!['/']);
                assert(child_prefix@ =~= prefix@ + name@ + seq!['/']);
                assert(out.deep_view() =~= Seq::<Seq<char>>::empty());
                assert(entries@.skip(0) =~= entries@);
                assert(out.deep_view() + found_below(entries@, child_prefix@, pattern@)
                    =~= found_below(entries@, child_prefix@, pattern@));
            }
            let mut i: usize = 0;
            while i < entries.len()
                invariant
                    i <= entries@.len(),
                    out.deep_view() + found_below(entries@.skip(i as int), child_prefix@, pattern@)
                        == found_below(entries@, child_prefix@, pattern@),
                decreases entries@.len() - i,
            {
                let ghost pre = out.deep_view();
                proof {
                    assert(entries@.skip(i as int)[0] == entries@[i as int]);
                    assert(entries@.skip(i as int).skip(1) =~= entries@.skip(i + 1));
                }
                let mut sub = find_matches(&entries[i], child_prefix.as_str(), pattern);
                let ghost sub_view = sub.deep_view();
                out.append(&mut sub);
                proof {
                    assert(out.deep_view() =~= pre + sub_view);
                    assert(out.deep_view() + found_below(
                        entries@.skip(i + 1),
                        child_prefix@,
                        pattern@,
                    ) =~= pre + found_below(entries@.skip(i as int), child_prefix@, pattern@));
                }
                i += 1;
            }
            proof {
                assert(entries@.skip(entries@.len() as int).len() == 0);
                assert(out.deep_view() + found_below(
                    entries@.skip(entries@.len() as int),
                    child_prefix@,
                    pattern@,
                ) =~= out.deep_view());
            }
        },
    }
    out
}

/// Soundness of the search below a sibling list: every path it returns is
/// the path of some file below the list whose base name contains the
/// pattern.
proof fn lemma_found_below_sound(es: Seq<FsTree>, prefix: Seq<char>, p: Seq<char>, path: Seq<char>)
    requires
        found_below(es, prefix, p).contains(path),
    ensures
        exists|name: Seq<char>|
            #[trigger] file_below(es, prefix, path, name) && is_substring_of(p, name),
    decreases es,
{
    if es.len() == 0 {
        assert(found_below(es, prefix, p).len() == 0);
    } else {
        let head = found_paths(es[0], prefix, p);
        let tail = found_below(es.skip(1), prefix, p);
        let j = choose|j: int|
            0 <= j < found_below(es, prefix, p).len() && found_below(es, prefix, p)[j] == path;
        if j < head.len() {
            assert(head[j] == path);
            assert(head.contains(path));
            lemma_find_sound(es[0], prefix, p, path);
            let n = choose|n: Seq<char>|
                #[trigger] file_in_tree(es[0], prefix, path, n) && is_substring_of(p, n);
            assert(file_below(es, prefix, path, n));
        } else {
            assert(tail[j - head.len()] == path);
            assert(tail.contains(path));
            lemma_found_below_sound(es.skip(1), prefix, p, path);
            let n = choose|n: Seq<char>|
                #[trigger] file_below(es.skip(1), prefix, path, n) && is_substring_of(p, n);
            assert(file_below(es, prefix, path, n));
        }
    }
}

/// Soundness of the search: every path it returns is the path of a file in
/// the tree whose base name contains the pattern.
pub proof fn lemma_find_sound(t: FsTree, prefix: Seq<char>, p: Seq<char>, path: Seq<char>)
    requires
        found_paths(t, prefix, p).contains(path),
    ensures
        exists|name: Seq<char>|
            #[trigger] file_in_tree(t, prefix, path, name) && is_substring_of(p, name),
    decreases t,
{
    match t {
        FsTree::File { name } => {
            assert(is_substring_of(p, name@));
            assert(found_paths(t, prefix, p)[0] == prefix + name@);
            assert(path == prefix + name@);
            assert(file_in_tree(t, prefix, path, name@));
        },
        FsTree::Dir { name, entries } => {
            let child_prefix = prefix + name@ + seq!['/'];
            lemma_found_below_sound(entries@, child_prefix, p, path);
            let n = choose|n: Seq<char>|
                #[trigger] file_below(entries@, child_prefix, path, n) && is_substring_of(p, n);
            assert(file_in_tree(t, prefix, path, n));
        },
    }
}

/// Completeness of the search below a sibling list: a matching file below
/// one of the siblings has its path among the results for the list.
proof fn lemma_found_below_complete(
    es: Seq<FsTree>,
    prefix: Seq<char>,
    p: Seq<char>,
    path: Seq<char>,
    name: Seq<char>,
)
    requires
        file_below(es, prefix, path, name),
        is_substring_of(p, name),
    ensures
        found_below(es, prefix, p).contains(path),
    decreases es,
{
    let head = found_paths(es[0], prefix, p);
    let tail = found_below(es.skip(1), prefix, p);
    if file_in_tree(es[0], prefix, path, name) {
        lemma_find_complete(es[0], prefix, p, path, name);
        let j = choose|j: int| 0 <= j < head.len() && head[j] == path;
        assert(found_below(es, prefix, p)[j] == path);
    } else {
        lemma_found_below_complete(es.skip(1), prefix, p, path, name);
        let j = choose|j: int| 0 <= j < tail.len() && tail[j] == path;
        assert(found_below(es, prefix, p)[head.len() + j] == path);
    }
}

/// Completeness of the search: every file in the tree, at any depth, whose
/// base name contains the pattern has its path among the results.
pub proof fn lemma_find_complete(
    t: FsTree,
    prefix: Seq<char>,
    p: Seq<char>,
    path: Seq<char>,
    name: Seq<char>,
)
    requires
        file_in_tree(t, prefix, path, name),
        is_substring_of(p, name),
    ensures
        found_paths(t, prefix, p).contains(path),
    decreases t,
{
    match t {
        FsTree::File { name: n } => {
            assert(found_paths(t, prefix, p)[0] == path);
        },
        FsTree::Dir { name: n, entries } => {
            let child_prefix = prefix + n@ + seq!['/'];
            lemma_found_below_complete(entries@, child_prefix, p, path, name);
        },
    }
}

} // verus!
