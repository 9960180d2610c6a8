//! Literal, case-sensitive substring matching on character sequences, and
//! character-for-character string equality. Both are the shared ground for
//! the filename search and the line search.

use vstd::prelude::*;

verus! {

/// `p` occurs somewhere in `t` as a contiguous run of characters.
pub open spec fn is_substring_of(p: Seq<char>, t: Seq<char>) -> bool {
    exists|i: int| 0 <= i && i + p.len() <= t.len() && #[trigger] t.subrange(i, i + p.len()) == p
}

/// The empty pattern occurs in every text.
pub proof fn lemma_empty_pattern_matches(t: Seq<char>)
    ensures
        is_substring_of(Seq::<char>::empty(), t),
{
    let p = Seq::<char>::empty();
    assert(t.subrange(0, 0 + p.len() as int) =~= p);
}

/// Character-for-character equality of two string slices.
pub fn str_eq(a: &str, b: &str) -> (r: bool)
    ensures
        r == (a@ == b@),
{
    let a_len = a.unicode_len();
    let b_len = b.unicode_len();
    if a_len != b_len {
        return false;
    }
    let mut i: usize = 0;
    while i < a_len
        invariant
            a_len == a@.len(),
            a_len == b@.len(),
            i <= a_len,
            forall|j: int| 0 <= j < i ==> a@[j] == b@[j],
        decreases a_len - i,
    {
        if a.get_char(i) != b.get_char(i) {
            return false;
        }
        i += 1;
    }
    proof {
        assert(a@ =~= b@);
    }
    true
}

/// The characters of `t` starting at `i` begin with `p`.
fn matches_at(t: &str, p: &str, i: usize, p_len: usize) -> (r: bool)
    requires
        p_len == p@.len(),
        i + p_len <= t@.len(),
        t@.len() <= usize::MAX,
    ensures
        r == (t@.subrange(i as int, i + p@.len()) == p@),
{
    let mut j: usize = 0;
    while j < p_len
        invariant
            p_len == p@.len(),
            i + p_len <= t@.len(),
            t@.len() <= usize::MAX,
            j <= p_len,
            forall|k: int| 0 <= k < j ==> t@[i + k] == p@[k],
        decreases p_len - j,
    {
        if t.get_char(i + j) != p.get_char(j) {
            proof {
                assert(t@.subrange(i as int, i + p@.len())[j as int] == t@[i + j]);
            }
            return false;
        }
        j += 1;
    }
    proof {
        assert(t@.subrange(i as int, i + p@.len()) =~= p@);
    }
    true
}

/// Whether `p` occurs in `t` as a literal, case-sensitive substring.
pub fn contains_substring(t: &str, p: &str) -> (r: bool)
    ensures
        r == is_substring_of(p@, t@),
{
    let t_len = t.unicode_len();
    let p_len = p.unicode_len();
    if p_len > t_len {
        return false;
    }
    if p_len == 0 {
        proof {
            assert(p@ =~= Seq::<char>::empty());
            lemma_empty_pattern_matches(t@);
        }
        return true;
    }
    let mut i: usize = 0;
    while i <= t_len - p_len
        invariant
            t_len == t@.len(),
            p_len == p@.len(),
            0 < p_len <= t_len,
            i <= t_len - p_len + 1,
            forall|k: int| 0 <= k < i ==> #[trigger] t@.subrange(k, k + p@.len()) != p@,
        decreases t_len - p_len - i + 1,
    {
        if matches_at(t, p, i, p_len) {
            return true;
        }
        i += 1;
    }
    proof {
        assert(!is_substring_of(p@, t@)) by {
            if is_substring_of(p@, t@) {
                let w = choose|w: int|
                    0 <= w && w + p@.len() <= t@.len() && #[trigger] t@.subrange(w, w + p@.len())
                        == p@;
                assert(t@.subrange(w, w + p@.len()) != p@);
            }
        }
    }
    false
}

} // verus!
