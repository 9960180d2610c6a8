use mini_utils::cli::OutputChannel;
use mini_utils::dispatch::{parse_command, Command};
use mini_utils::find::{find_matches, find_request, find_usage, FindRequest, FsTree};
use mini_utils::grep::{grep_matching_lines, grep_request, grep_usage, GrepRequest};
use mini_utils::text::{contains_substring, str_eq};

fn tokens(list: &[&str]) -> Vec<String> {
    list.iter().map(|s| s.to_string()).collect()
}

fn file(name: &str) -> FsTree {
    FsTree::File { name: name.to_string() }
}

fn dir(name: &str, entries: Vec<FsTree>) -> FsTree {
    FsTree::Dir { name: name.to_string(), entries }
}

#[test]
fn find_matches_files_at_any_depth() {
    let tree = dir(
        "start",
        vec![file("map"), dir("sub", vec![file("pam"), file("xyz"), dir("deep", vec![file("amp")])])],
    );
    let found = find_matches(&tree, "", "a");
    assert_eq!(found, vec!["start/map", "start/sub/pam", "start/sub/deep/amp"]);
}

#[test]
fn find_matching_is_case_sensitive() {
    let tree = dir("d", vec![file("MAP"), file("map")]);
    let found = find_matches(&tree, "", "a");
    assert_eq!(found, vec!["d/map"]);
}

#[test]
fn find_does_not_match_directory_names() {
    let tree = dir("d", vec![dir("aaa", vec![file("zzz")])]);
    let found = find_matches(&tree, "", "a");
    assert!(found.is_empty());
}

#[test]
fn find_empty_pattern_matches_every_file() {
    let tree = dir("d", vec![file("one"), dir("s", vec![file("two")])]);
    let found = find_matches(&tree, "", "");
    assert_eq!(found, vec!["d/one", "d/s/two"]);
}

#[test]
fn find_request_with_two_args_searches() {
    match find_request(&tokens(&["rust_find", "/tmp", "pat"])) {
        FindRequest::SearchTree { dir, pattern } => {
            assert_eq!(dir, "/tmp");
            assert_eq!(pattern, "pat");
        },
        FindRequest::Usage(_) => panic!("expected a search request"),
    }
}

#[test]
fn find_request_wrong_arity_is_usage() {
    match find_request(&tokens(&["rust_find", "/tmp"])) {
        FindRequest::Usage(ch) => assert_eq!(ch, OutputChannel::Stderr),
        FindRequest::SearchTree { .. } => panic!("expected a usage request"),
    }
    match find_request(&tokens(&["rust_find", "--help"])) {
        FindRequest::Usage(ch) => assert_eq!(ch, OutputChannel::Stdout),
        FindRequest::SearchTree { .. } => panic!("expected a usage request"),
    }
}

#[test]
fn find_usage_text_matches() {
    assert_eq!(find_usage(), "Usage: rust_find <directory> <pattern>");
}

#[test]
fn grep_keeps_exactly_the_matching_lines_in_order() {
    let lines = tokens(&["ab", "xy", "cb", "b"]);
    let found = grep_matching_lines("b", &lines);
    assert_eq!(found, vec!["ab", "cb", "b"]);
}

#[test]
fn grep_empty_pattern_matches_every_line() {
    let lines = tokens(&["one", "", "three"]);
    let found = grep_matching_lines("", &lines);
    assert_eq!(found, vec!["one", "", "three"]);
}

#[test]
fn grep_is_case_sensitive() {
    let lines = tokens(&["Needle", "needle"]);
    let found = grep_matching_lines("needle", &lines);
    assert_eq!(found, vec!["needle"]);
}

#[test]
fn grep_request_with_two_args_searches() {
    match grep_request(&tokens(&["rust_grep", "pat", "file.txt"])) {
        GrepRequest::SearchFile { pattern, path } => {
            assert_eq!(pattern, "pat");
            assert_eq!(path, "file.txt");
        },
        GrepRequest::Usage(_) => panic!("expected a search request"),
    }
}

#[test]
fn grep_request_wrong_arity_is_usage() {
    match grep_request(&tokens(&["rust_grep", "pat"])) {
        GrepRequest::Usage(ch) => assert_eq!(ch, OutputChannel::Stderr),
        GrepRequest::SearchFile { .. } => panic!("expected a usage request"),
    }
    match grep_request(&tokens(&["rust_grep", "-h"])) {
        GrepRequest::Usage(ch) => assert_eq!(ch, OutputChannel::Stdout),
        GrepRequest::SearchFile { .. } => panic!("expected a usage request"),
    }
}

#[test]
fn grep_usage_text_matches() {
    assert_eq!(grep_usage(), "Usage: rust_grep <pattern> <filename>");
}

#[test]
fn substring_containment_is_literal() {
    assert!(contains_substring("hello", "ell"));
    assert!(contains_substring("hello", ""));
    assert!(contains_substring("hello", "hello"));
    assert!(!contains_substring("hello", "Hello"));
    assert!(!contains_substring("he", "hello"));
}

#[test]
fn string_equality_compares_characters() {
    assert!(str_eq("abc", "abc"));
    assert!(!str_eq("abc", "abd"));
    assert!(!str_eq("abc", "ab"));
    assert!(str_eq("", ""));
}

#[test]
fn dispatch_selects_by_exact_name() {
    assert_eq!(parse_command("rust_echo"), Command::Echo);
    assert_eq!(parse_command("rust_cat"), Command::Cat);
    assert_eq!(parse_command("rust_ls"), Command::Ls);
    assert_eq!(parse_command("rust_find"), Command::Find);
    assert_eq!(parse_command("rust_grep"), Command::Grep);
    assert_eq!(parse_command("rust_echo "), Command::Unknown);
    assert_eq!(parse_command("other"), Command::Unknown);
}
