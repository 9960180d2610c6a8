use mini_utils::cat::{cat_output, cat_request, cat_usage, CatRequest};
use mini_utils::cli::OutputChannel;
use mini_utils::ls::{ls_output, ls_request, ls_usage, LsRequest};

fn tokens(list: &[&str]) -> Vec<String> {
    list.iter().map(|s| s.to_string()).collect()
}

#[test]
fn cat_output_appends_exactly_one_newline() {
    assert_eq!(cat_output("T"), "T\n");
    assert_eq!(cat_output(""), "\n");
}

#[test]
fn cat_output_keeps_existing_trailing_newline() {
    assert_eq!(cat_output("T\n"), "T\n\n");
}

#[test]
fn cat_request_with_one_file_prints_it() {
    match cat_request(&tokens(&["rust_cat", "notes.txt"])) {
        CatRequest::PrintFile(path) => assert_eq!(path, "notes.txt"),
        CatRequest::Usage(_) => panic!("expected a print request"),
    }
}

#[test]
fn cat_request_with_no_file_is_usage_on_stderr() {
    match cat_request(&tokens(&["rust_cat"])) {
        CatRequest::Usage(ch) => assert_eq!(ch, OutputChannel::Stderr),
        CatRequest::PrintFile(_) => panic!("expected a usage request"),
    }
}

#[test]
fn cat_request_with_extra_args_is_usage_on_stderr() {
    match cat_request(&tokens(&["rust_cat", "a", "b"])) {
        CatRequest::Usage(ch) => assert_eq!(ch, OutputChannel::Stderr),
        CatRequest::PrintFile(_) => panic!("expected a usage request"),
    }
}

#[test]
fn cat_request_wrong_arity_with_help_is_usage_on_stdout() {
    match cat_request(&tokens(&["rust_cat", "a", "--help"])) {
        CatRequest::Usage(ch) => assert_eq!(ch, OutputChannel::Stdout),
        CatRequest::PrintFile(_) => panic!("expected a usage request"),
    }
    match cat_request(&tokens(&["rust_cat", "-h", "a", "b"])) {
        CatRequest::Usage(ch) => assert_eq!(ch, OutputChannel::Stdout),
        CatRequest::PrintFile(_) => panic!("expected a usage request"),
    }
}

#[test]
fn cat_usage_text_matches() {
    assert_eq!(cat_usage(), "Usage: rust_cat <filename>");
}

#[test]
fn ls_request_help_flag_asks_for_usage() {
    assert!(matches!(ls_request(&tokens(&["rust_ls", "--help"])), LsRequest::Usage));
    assert!(matches!(ls_request(&tokens(&["rust_ls", "-h"])), LsRequest::Usage));
}

#[test]
fn ls_request_defaults_to_current_directory() {
    match ls_request(&tokens(&["rust_ls"])) {
        LsRequest::ListDir(dir) => assert_eq!(dir, "."),
        LsRequest::Usage => panic!("expected a listing request"),
    }
}

#[test]
fn ls_request_takes_the_named_directory() {
    match ls_request(&tokens(&["rust_ls", "/tmp"])) {
        LsRequest::ListDir(dir) => assert_eq!(dir, "/tmp"),
        LsRequest::Usage => panic!("expected a listing request"),
    }
}

#[test]
fn ls_output_lists_each_entry_on_its_own_line() {
    let out = ls_output(&tokens(&["a", "b", "c"]));
    assert_eq!(out, "a\nb\nc\n");
    let lines: Vec<&str> = out.lines().collect();
    assert_eq!(lines.len(), 3);
    assert!(lines.contains(&"a") && lines.contains(&"b") && lines.contains(&"c"));
}

#[test]
fn ls_output_of_no_entries_is_empty() {
    assert_eq!(ls_output(&tokens(&[])), "");
}

#[test]
fn ls_usage_text_matches() {
    assert_eq!(ls_usage(), "Usage: rust_ls [directory]");
}
