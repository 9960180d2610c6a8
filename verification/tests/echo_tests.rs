use mini_utils::echo::{interpret_special_characters, rust_echo};

fn tokens(list: &[&str]) -> Vec<String> {
    list.iter().map(|s| s.to_string()).collect()
}

#[test]
fn echo_plain_tokens_joined_by_spaces() {
    let out = rust_echo(&tokens(&["x", "y"]));
    assert_eq!(out, "x y \n");
}

#[test]
fn echo_no_tokens_prints_only_newline() {
    let out = rust_echo(&tokens(&[]));
    assert_eq!(out, "\n");
}

#[test]
fn echo_n_hello_has_no_trailing_newline() {
    let out = rust_echo(&tokens(&["-n", "hello"]));
    assert_eq!(out, "hello ");
}

#[test]
fn echo_n_after_tokens_still_suppresses_newline() {
    let out = rust_echo(&tokens(&["a", "-n"]));
    assert_eq!(out, "a ");
}

#[test]
fn echo_e_interprets_backslash_n() {
    let out = rust_echo(&tokens(&["-e", "a\\nb"]));
    assert_eq!(out, "a\nb \n");
}

#[test]
fn echo_e_interprets_tab_and_quotes() {
    let out = rust_echo(&tokens(&["-e", "a\\tb", "\\\"q\\\"", "\\'s\\'"]));
    assert_eq!(out, "a\tb \"q\" 's' \n");
}

#[test]
fn echo_e_interprets_double_backslash() {
    let out = rust_echo(&tokens(&["-e", "a\\\\n"]));
    assert_eq!(out, "a\\n \n");
}

#[test]
fn echo_capital_e_disables_escapes_again() {
    let out = rust_echo(&tokens(&["-e", "-E", "a\\nb"]));
    assert_eq!(out, "a\\nb \n");
}

#[test]
fn echo_without_e_keeps_escapes_literal() {
    let out = rust_echo(&tokens(&["a\\nb"]));
    assert_eq!(out, "a\\nb \n");
}

#[test]
fn interpret_keeps_backslash_free_input_unchanged() {
    assert_eq!(interpret_special_characters("hello world"), "hello world");
    assert_eq!(interpret_special_characters(""), "");
}

#[test]
fn interpret_unknown_escape_drops_backslash_only() {
    assert_eq!(interpret_special_characters("a\\zb"), "azb");
}

#[test]
fn interpret_trailing_backslash_is_dropped() {
    assert_eq!(interpret_special_characters("ab\\"), "ab");
}

#[test]
fn interpret_maps_each_listed_escape() {
    assert_eq!(interpret_special_characters("\\n\\t\\\\\\\"\\'"), "\n\t\\\"'");
}
