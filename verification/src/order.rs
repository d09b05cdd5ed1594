//! The ordering of strings (`Ord for String`) and sorting by it.
//!
//! `String`'s order compares the UTF-8 bytes lexicographically; UTF-8 keeps
//! the order of code points, so it is the lexicographic order of the
//! characters' code points, which is what [`lex_lt`] states.

use vstd::prelude::*;
use vstd::string::*;
use crate::text::{chars_of, string_views};

verus! {

broadcast use vstd::string::group_string_axioms;

/// `a` comes strictly before `b` in lexicographic code-point order.
pub open spec fn lex_lt(a: Seq<char>, b: Seq<char>) -> bool
    decreases a.len(),
{
    if a.len() == 0 {
        b.len() > 0
    } else if b.len() == 0 {
        false
    } else if a[0] != b[0] {
        (a[0] as int) < (b[0] as int)
    } else {
        lex_lt(a.drop_first(), b.drop_first())
    }
}

/// `a` comes before or equals `b`.
pub open spec fn lex_le(a: Seq<char>, b: Seq<char>) -> bool {
    !lex_lt(b, a)
}

/// The sequence is in non-decreasing order.
pub open spec fn sorted(s: Seq<Seq<char>>) -> bool {
    forall|i: int, j: int| 0 <= i < j < s.len() ==> lex_le(#[trigger] s[i], #[trigger] s[j])
}

/// The sequence is in strictly increasing order (sorted, no repeats).
pub open spec fn strictly_sorted(s: Seq<Seq<char>>) -> bool {
    forall|i: int, j: int| 0 <= i < j < s.len() ==> lex_lt(#[trigger] s[i], #[trigger] s[j])
}

/// Strict order is irreflexive.
pub proof fn lemma_lt_irreflexive(a: Seq<char>)
    ensures
        !lex_lt(a, a),
    decreases a.len(),
{
    if a.len() > 0 {
        lemma_lt_irreflexive(a.drop_first());
    }
}

/// Strict order is total: distinct sequences are ordered one way or the other.
pub proof fn lemma_lt_total(a: Seq<char>, b: Seq<char>)
    ensures
        a == b || lex_lt(a, b) || lex_lt(b, a),
    decreases a.len(),
{
    if a.len() > 0 && b.len() > 0 && a[0] == b[0] {
        lemma_lt_total(a.drop_first(), b.drop_first());
        if a.drop_first() == b.drop_first() {
            assert(a =~= seq![a[0]] + a.drop_first());
            assert(b =~= seq![b[0]] + b.drop_first());
        }
    } else if a.len() == 0 && b.len() == 0 {
        assert(a =~= b);
    } else if a.len() > 0 && b.len() > 0 {

    }
}

/// Strict order is asymmetric.
pub proof fn lemma_lt_asymmetric(a: Seq<char>, b: Seq<char>)
    ensures
        !(lex_lt(a, b) && lex_lt(b, a)),
    decreases a.len(),
{
    if a.len() > 0 && b.len() > 0 && a[0] == b[0] {
        lemma_lt_asymmetric(a.drop_first(), b.drop_first());
    }
}

/// Strict order is transitive.
pub proof fn lemma_lt_transitive(a: Seq<char>, b: Seq<char>, c: Seq<char>)
    requires
        lex_lt(a, b),
        lex_lt(b, c),
    ensures
        lex_lt(a, c),
    decreases a.len(),
{
    if a.len() > 0 && b.len() > 0 && c.len() > 0 {
        if a[0] == b[0] && b[0] == c[0] {
            lemma_lt_transitive(a.drop_first(), b.drop_first(), c.drop_first());
        } else if a[0] != c[0] {
        } else {
            // a[0] == c[0] while a[0] <= b[0] <= c[0] with one of them strict.
            assert((a[0] as int) == (c[0] as int));
        }
    }
}

/// Whether `a` comes strictly before `b`.
pub fn less_than(a: &str, b: &str) -> (r: bool)
    ensures
        r == lex_lt(a@, b@),
{
    let x = chars_of(a);
    let y = chars_of(b);
    let mut i: usize = 0;
    assert(x@.skip(0) == x@);
    assert(y@.skip(0) == y@);
    while i < x.len() && i < y.len() && x[i] == y[i]
        invariant
            i <= x@.len(),
            i <= y@.len(),
            x@ == a@,
            y@ == b@,
            lex_lt(a@, b@) == lex_lt(x@.skip(i as int), y@.skip(i as int)),
        decreases x@.len() - i,
    {
        assert(x@.skip(i as int).drop_first() == x@.skip(i + 1));
        assert(y@.skip(i as int).drop_first() == y@.skip(i + 1));
        i = i + 1;
    }
    if i == x.len() {
        i < y.len()
    } else if i == y.len() {
        false
    } else {
        assert(x@.skip(i as int)[0] == x@[i as int]);
        assert(y@.skip(i as int)[0] == y@[i as int]);
        x[i] < y[i]
    }
}

/// `v` sorted into non-decreasing order (`slice::sort` on strings).
pub fn sort_strings(v: Vec<String>) -> (r: Vec<String>)
    ensures
        sorted(string_views(r@)),
        string_views(r@).to_multiset() == string_views(v@).to_multiset(),
{
    broadcast use vstd::seq_lib::to_multiset_insert, vstd::seq_lib::to_multiset_build;

    let mut out: Vec<String> = Vec::new();
    let mut i: usize = 0;
    assert(string_views(v@.take(0)) =~= string_views(out@));
    while i < v.len()
        invariant
            i <= v@.len(),
            sorted(string_views(out@)),
            string_views(out@).to_multiset() == string_views(v@.take(i as int)).to_multiset(),
        decreases v@.len() - i,
    {
        let x = v[i].clone();
        let mut p: usize = 0;
        while p < out.len() && !less_than(x.as_str(), out[p].as_str())
            invariant
                p <= out@.len(),
                forall|k: int| 0 <= k < p ==> !lex_lt(x@, #[trigger] out@[k]@),
            decreases out@.len() - p,
        {
            p = p + 1;
        }
        let ghost before = string_views(out@);
        let ghost xv = x@;
        out.insert(p, x);
        proof {
            let after = string_views(out@);
            assert(after =~= before.insert(p as int, x@));
            assert(after.to_multiset() == before.insert(p as int, x@).to_multiset());
            assert forall|a: int, b: int| 0 <= a < b < after.len() implies lex_le(
                #[trigger] after[a],
                #[trigger] after[b],
            ) by {
                if a < p && b == p {
                    // !lex_lt(x, out[a]) means out[a] <= x
                } else if a == p && b > p {
                    // x < before[p] <= before[b - 1]
                    let y = before[p as int];
                    let z = before[b - 1];
                    if p < b - 1 {
                        assert(lex_le(y, z));
                        lemma_lt_total(y, z);
                        if lex_lt(y, z) {
                            lemma_lt_transitive(x@, y, z);
                        }
                    }
                    lemma_lt_asymmetric(x@, z);
                } else if a < p && b > p {
                    assert(lex_le(before[a], before[b - 1]));
                } else if a > p {
                    assert(lex_le(before[a - 1], before[b - 1]));
                } else {
                    assert(lex_le(before[a], before[b]));
                }
            }
            assert(v@.take((i + 1) as int) == v@.take(i as int).push(v@[i as int]));
            let pre = string_views(v@.take(i as int));
            assert(string_views(v@.take((i + 1) as int)) =~= pre.push(x@));
            vstd::seq_lib::to_multiset_build(pre, xv);
            vstd::seq_lib::to_multiset_insert(before, p as int, xv);
            assert(pre.push(xv).to_multiset() =~= pre.to_multiset().insert(xv));
        }
        i = i + 1;
    }
    assert(v@.take(v@.len() as int) == v@);
    out
}

} // verus!

verus! {

/// Sequences with the same elements (counted) have the same element set.
pub proof fn lemma_same_multiset_same_set<A>(a: Seq<A>, b: Seq<A>)
    requires
        a.to_multiset() == b.to_multiset(),
    ensures
        a.to_set() == b.to_set(),
{
    assert forall|x: A| a.to_set().contains(x) <==> b.to_set().contains(x) by {
        vstd::seq_lib::to_multiset_contains(a, x);
        vstd::seq_lib::to_multiset_contains(b, x);
    }
    assert(a.to_set() =~= b.to_set());
}

} // verus!
