//! Membership in a list of strings, shared by the allow-list and the lock
//! gate.

use vstd::prelude::*;

use crate::lex::str_eq;

verus! {

/// Whether the list holds the given character sequence.
pub open spec fn has_str(s: Seq<Seq<char>>, a: Seq<char>) -> bool {
    exists|i: int| 0 <= i < s.len() && s[i] == a
}

/// View of a vector of strings as a sequence of character sequences.
pub open spec fn strings_view(v: Seq<String>) -> Seq<Seq<char>> {
    v.map_values(|s: String| s@)
}

/// Appending one entry adds exactly that entry to the membership.
pub proof fn lemma_has_str_push(s: Seq<Seq<char>>, x: Seq<char>, a: Seq<char>)
    ensures
        has_str(s.push(x), a) <==> (has_str(s, a) || a == x),
{
    if has_str(s.push(x), a) {
        let i = choose|i: int| 0 <= i < s.push(x).len() && s.push(x)[i] == a;
        if i < s.len() {
            assert(s[i] == a);
        }
    }
    if has_str(s, a) {
        let i = choose|i: int| 0 <= i < s.len() && s[i] == a;
        assert(s.push(x)[i] == a);
    }
    if a == x {
        assert(s.push(x)[s.len() as int] == a);
    }
}

/// Lengthening a prefix by one entry adds exactly that entry.
pub proof fn lemma_has_str_take_succ(s: Seq<Seq<char>>, k: int, a: Seq<char>)
    requires
        0 <= k < s.len(),
    ensures
        has_str(s.take(k + 1), a) <==> (has_str(s.take(k), a) || a == s[k]),
{
    assert(s.take(k + 1) =~= s.take(k).push(s[k]));
    lemma_has_str_push(s.take(k), s[k], a);
}

/// Whether the vector holds a string equal to `a`.
pub fn contains_str(v: &Vec<String>, a: &str) -> (r: bool)
    ensures
        r == has_str(strings_view(v@), a@),
{
    let n = v.len();
    let mut i: usize = 0;
    while i < n
        invariant
            i <= n,
            n == v@.len(),
            forall|j: int| 0 <= j < i ==> strings_view(v@)[j] != a@,
        decreases n - i,
    {
        if str_eq(v[i].as_str(), a) {
            assert(strings_view(v@)[i as int] == a@);
            return true;
        }
        i = i + 1;
    }
    false
}

} // verus!
