//! The echo operation: flag parsing, escape interpretation and output
//! assembly. Three flags are recognized anywhere in the token list, scanned
//! left to right: `-e` enables escape interpretation for the tokens that
//! follow, `-E` disables it again, and `-n` suppresses the trailing newline.
//! Every other token is printed, each followed by a single space.

use vstd::prelude::*;

verus! {

/// The character an escape introducer maps its successor to: `n` becomes a
/// newline, `t` a tab, and every other successor is kept as it is (which
/// covers backslash, double quote and single quote).
pub open spec fn escaped_char(c: char) -> char {
    if c == 'n' {
        '\n'
    } else if c == 't' {
        '\t'
    } else {
        c
    }
}

/// One-pass escape interpretation: a backslash maps its successor through
/// `escaped_char`; a trailing unmatched backslash is dropped silently.
pub open spec fn interp_escapes(s: Seq<char>) -> Seq<char>
    decreases s.len(),
{
    if s.len() == 0 {
        Seq::empty()
    } else if s[0] == '\\' {
        if s.len() == 1 {
            Seq::empty()
        } else {
            seq![escaped_char(s[1])] + interp_escapes(s.skip(2))
        }
    } else {
        seq![s[0]] + interp_escapes(s.skip(1))
    }
}

/// Escape interpretation leaves a string without backslashes unchanged.
pub proof fn lemma_interp_escapes_no_backslash(s: Seq<char>)
    requires
        forall|i: int| 0 <= i < s.len() ==> s[i] != '\\',
    ensures
        interp_escapes(s) == s,
    decreases s.len(),
{
    if s.len() == 0 {
        assert(interp_escapes(s) =~= s);
    } else {
        assert forall|i: int| 0 <= i < s.skip(1).len() implies s.skip(1)[i] != '\\' by {
            assert(s.skip(1)[i] == s[i + 1]);
        }
        lemma_interp_escapes_no_backslash(s.skip(1));
        assert(seq![s[0]] + s.skip(1) =~= s);
    }
}

/// Escape interpretation is idempotent on strings without backslashes:
/// since such a string comes out unchanged, interpreting it twice gives the
/// same result as interpreting it once.
pub proof fn lemma_interp_escapes_idempotent_no_backslash(s: Seq<char>)
    requires
        forall|i: int| 0 <= i < s.len() ==> s[i] != '\\',
    ensures
        interp_escapes(interp_escapes(s)) == interp_escapes(s),
{
    lemma_interp_escapes_no_backslash(s);
}

/// Applies escape interpretation to one token.
pub fn interpret_special_characters(s: &str) -> (r: String)
    ensures
        r@ == interp_escapes(s@),
{
    let len = s.unicode_len();
    let mut out = String::new();
    let mut i: usize = 0;
    proof {
        assert(s@.skip(0) =~= s@);
        assert(Seq::<char>::empty() + interp_escapes(s@) =~= interp_escapes(s@));
    }
    while i < len
        invariant
            len == s@.len(),
            i <= len,
            interp_escapes(s@) == out@ + interp_escapes(s@.skip(i as int)),
        decreases len - i,
    {
        let ghost pre = out@;
        let ghost rest = s@.skip(i as int);
        proof {
            assert(rest[0] == s@[i as int]);
        }
        let c = s.get_char(i);
        if c == '\\' {
            if i + 1 < len {
                proof {
                    assert(rest[1] == s@[i + 1]);
                }
                let c2 = s.get_char(i + 1);
                if c2 == 'n' {
                    out.append("\n");
                    proof {
                        reveal_strlit("\n");
                        assert("\n"@ =~= seq!['\n']);
                    }
                } else if c2 == 't' {
                    out.append("\t");
                    proof {
                        reveal_strlit("\t");
                        assert("\t"@ =~= seq!['\t']);
                    }
                } else {
                    let piece = s.substring_char(i + 1, i + 2);
                    out.append(piece);
                    proof {
                        assert(s@.subrange(i + 1, i + 2) =~= seq![s@[i + 1]]);
                    }
                }
                proof {
                    assert(out@ =~= pre + seq![escaped_char(rest[1])]);
                    assert(rest.skip(2) =~= s@.skip(i + 2));
                    assert(out@ + interp_escapes(s@.skip(i + 2)) =~= pre + interp_escapes(rest));
                }
                i += 2;
            } else {
                proof {
                    assert(rest.len() == 1);
                    assert(s@.skip(i + 1).len() == 0);
                    assert(interp_escapes(rest) =~= interp_escapes(s@.skip(i + 1)));
                }
                i += 1;
            }
        } else {
            let piece = s.substring_char(i, i + 1);
            out.append(piece);
            proof {
                assert(s@.subrange(i as int, i + 1) =~= seq![s@[i as int]]);
                assert(rest.skip(1) =~= s@.skip(i + 1));
                assert(out@ + interp_escapes(s@.skip(i + 1)) =~= pre + interp_escapes(rest));
            }
            i += 1;
        }
    }
    proof {
        assert(s@.skip(len as int).len() == 0);
        assert(out@ + interp_escapes(s@.skip(len as int)) =~= out@);
    }
    out
}

/// The token that switches escape interpretation on.
pub open spec fn flag_enable_escapes() -> Seq<char> {
    seq!['-', 'e']
}

/// The token that switches escape interpretation off.
pub open spec fn flag_disable_escapes() -> Seq<char> {
    seq!['-', 'E']
}

/// The token that suppresses the trailing newline.
pub open spec fn flag_omit_newline() -> Seq<char> {
    seq!['-', 'n']
}

/// The token is one of the three recognized flags.
pub open spec fn is_echo_flag(t: Seq<char>) -> bool {
    t == flag_enable_escapes() || t == flag_disable_escapes() || t == flag_omit_newline()
}

/// What the token loop prints, given the escape state in force when it
/// starts: flags only switch state, every other token is printed (escape
/// interpreted when enabled) followed by a single space.
pub open spec fn echo_printed_tokens(tokens: Seq<Seq<char>>, escapes_on: bool) -> Seq<char>
    decreases tokens.len(),
{
    if tokens.len() == 0 {
        Seq::empty()
    } else if tokens[0] == flag_enable_escapes() {
        echo_printed_tokens(tokens.skip(1), true)
    } else if tokens[0] == flag_disable_escapes() {
        echo_printed_tokens(tokens.skip(1), false)
    } else if tokens[0] == flag_omit_newline() {
        echo_printed_tokens(tokens.skip(1), escapes_on)
    } else {
        (if escapes_on {
            interp_escapes(tokens[0])
        } else {
            tokens[0]
        }) + seq![' '] + echo_printed_tokens(tokens.skip(1), escapes_on)
    }
}

/// Whether some token suppresses the trailing newline.
pub open spec fn echo_suppresses_newline(tokens: Seq<Seq<char>>) -> bool
    decreases tokens.len(),
{
    if tokens.len() == 0 {
        false
    } else {
        tokens[0] == flag_omit_newline() || echo_suppresses_newline(tokens.skip(1))
    }
}

/// The complete output of the echo operation on a token list (the command
/// name itself excluded): the printed tokens, then a newline unless some
/// `-n` suppressed it. Escape interpretation starts disabled.
pub open spec fn echo_output(tokens: Seq<Seq<char>>) -> Seq<char> {
    echo_printed_tokens(tokens, false) + if echo_suppresses_newline(tokens) {
        Seq::<char>::empty()
    } else {
        seq!['\n']
    }
}

/// The token consists of a dash followed by exactly the character `c`.
fn is_dash_flag(t: &str, c: char) -> (r: bool)
    ensures
        r == (t@ == seq!['-', c]),
{
    let r = if t.unicode_len() == 2 {
        t.get_char(0) == '-' && t.get_char(1) == c
    } else {
        false
    };
    proof {
        if r {
            assert(t@ =~= seq!['-', c]);
        }
        if t@ == seq!['-', c] {
            assert(t@.len() == 2 && t@[0] == '-' && t@[1] == c);
        }
    }
    r
}

/// Runs the echo operation on its token list and returns everything it
/// writes to standard output.
pub fn rust_echo(tokens: &Vec<String>) -> (r: String)
    ensures
        r@ == echo_output(tokens.deep_view()),
{
    let ghost tv = tokens.deep_view();
    let mut out = String::new();
    let mut escapes_on = false;
    let mut suppress = false;
    let mut i: usize = 0;
    proof {
        assert(tv.skip(0) =~= tv);
        assert(Seq::<char>::empty() + echo_printed_tokens(tv, false) =~= echo_printed_tokens(
            tv,
            false,
        ));
    }
    while i < tokens.len()
        invariant
            tv == tokens.deep_view(),
            tv.len() == tokens@.len(),
            i <= tokens@.len(),
            echo_printed_tokens(tv, false) == out@ + echo_printed_tokens(
                tv.skip(i as int),
                escapes_on,
            ),
            echo_suppresses_newline(tv) == (suppress || echo_suppresses_newline(tv.skip(i as int))),
        decreases tokens@.len() - i,
    {
        proof {
            assert(tv[i as int] == tokens@[i as int]@);
            assert(tv.skip(i as int)[0] == tv[i as int]);
            assert(tv.skip(i as int).skip(1) =~= tv.skip(i + 1));
        }
        let t = &tokens[i];
        if is_dash_flag(t.as_str(), 'e') {
            escapes_on = true;
        } else if is_dash_flag(t.as_str(), 'E') {
            escapes_on = false;
        } else if is_dash_flag(t.as_str(), 'n') {
            suppress = true;
        } else {
            let ghost pre = out@;
            if escapes_on {
                let piece = interpret_special_characters(t.as_str());
                out.append(piece.as_str());
            } else {
                out.append(t.as_str());
            }
            out.append(" ");
            proof {
                reveal_strlit(" ");
                assert(" "@ =~= seq![' ']);
                assert(out@ + echo_printed_tokens(tv.skip(i + 1), escapes_on) =~= pre
                    + echo_printed_tokens(tv.skip(i as int), escapes_on));
            }
        }
        i += 1;
    }
    proof {
        assert(tv.skip(tokens@.len() as int).len() == 0);
    }
    if !suppress {
        out.append("\n");
        proof {
            reveal_strlit("\n");
            assert("\n"@ =~= seq!['\n']);
        }
    }
    proof {
        assert(out@ =~= echo_output(tv));
    }
    out
}

/// The tokens of a list that are not flags, in their original order.
pub open spec fn non_flag_tokens(tokens: Seq<Seq<char>>) -> Seq<Seq<char>>
    decreases tokens.len(),
{
    if tokens.len() == 0 {
        Seq::empty()
    } else if is_echo_flag(tokens[0]) {
        non_flag_tokens(tokens.skip(1))
    } else {
        seq![tokens[0]] + non_flag_tokens(tokens.skip(1))
    }
}

/// A token list joined by single spaces: each token followed by one space.
pub open spec fn joined_with_spaces(tokens: Seq<Seq<char>>) -> Seq<char>
    decreases tokens.len(),
{
    if tokens.len() == 0 {
        Seq::empty()
    } else {
        tokens[0] + seq![' '] + joined_with_spaces(tokens.skip(1))
    }
}

proof fn lemma_echo_printed_plain(tokens: Seq<Seq<char>>)
    requires
        forall|i: int| 0 <= i < tokens.len() ==> tokens[i] != flag_enable_escapes(),
    ensures
        echo_printed_tokens(tokens, false) == joined_with_spaces(non_flag_tokens(tokens)),
    decreases tokens.len(),
{
    if tokens.len() > 0 {
        assert forall|i: int|
            0 <= i < tokens.skip(1).len() implies tokens.skip(1)[i] != flag_enable_escapes() by {
            assert(tokens.skip(1)[i] == tokens[i + 1]);
        }
        lemma_echo_printed_plain(tokens.skip(1));
        if !is_echo_flag(tokens[0]) {
            let nf = non_flag_tokens(tokens.skip(1));
            assert((seq![tokens[0]] + nf)[0] == tokens[0]);
            assert((seq![tokens[0]] + nf).skip(1) =~= nf);
        }
    }
}

/// When no token enables escape interpretation, echo's output is the
/// non-flag tokens joined by single spaces (each followed by one trailing
/// space), plus a trailing newline unless some `-n` suppresses it.
pub proof fn lemma_echo_plain(tokens: Seq<Seq<char>>)
    requires
        forall|i: int| 0 <= i < tokens.len() ==> tokens[i] != flag_enable_escapes(),
    ensures
        echo_output(tokens) == joined_with_spaces(non_flag_tokens(tokens)) + if echo_suppresses_newline(tokens) {
            Seq::<char>::empty()
        } else {
            seq!['\n']
        },
{
    lemma_echo_printed_plain(tokens);
}

} // verus!
