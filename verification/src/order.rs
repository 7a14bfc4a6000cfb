//! The order in which Rust compares strings (code point by code point, a
//! shorter prefix first) and sorted insertion under it.

use vstd::prelude::*;
use vstd::multiset::Multiset;

verus! {

/// `a` sorts strictly before `b` as `String`'s `Ord` orders them.
pub open spec fn lex_lt(a: Seq<char>, b: Seq<char>) -> bool
    decreases a.len(),
{
    if b.len() == 0 {
        false
    } else if a.len() == 0 {
        true
    } else if a[0] < b[0] {
        true
    } else if a[0] > b[0] {
        false
    } else {
        lex_lt(a.drop_first(), b.drop_first())
    }
}

pub proof fn lemma_lex_lt_irreflexive(a: Seq<char>)
    ensures
        !lex_lt(a, a),
    decreases a.len(),
{
    if a.len() > 0 {
        lemma_lex_lt_irreflexive(a.drop_first());
    }
}

pub proof fn lemma_lex_lt_asymmetric(a: Seq<char>, b: Seq<char>)
    ensures
        !(lex_lt(a, b) && lex_lt(b, a)),
    decreases a.len(),
{
    if a.len() > 0 && b.len() > 0 && a[0] == b[0] {
        lemma_lex_lt_asymmetric(a.drop_first(), b.drop_first());
    }
}

pub proof fn lemma_lex_lt_transitive(a: Seq<char>, b: Seq<char>, c: Seq<char>)
    requires
        lex_lt(a, b),
        lex_lt(b, c),
    ensures
        lex_lt(a, c),
    decreases a.len(),
{
    if a.len() > 0 && b.len() > 0 && c.len() > 0 && a[0] == b[0] && b[0] == c[0] {
        lemma_lex_lt_transitive(a.drop_first(), b.drop_first(), c.drop_first());
    }
}

pub proof fn lemma_lex_lt_total(a: Seq<char>, b: Seq<char>)
    ensures
        a =~= b || lex_lt(a, b) || lex_lt(b, a),
    decreases a.len(),
{
    if a.len() > 0 && b.len() > 0 && a[0] == b[0] {
        lemma_lex_lt_total(a.drop_first(), b.drop_first());
        if a.drop_first() =~= b.drop_first() {
            assert(a =~= seq![a[0]] + a.drop_first());
            assert(b =~= seq![b[0]] + b.drop_first());
        }
    }
}

/// Every element is no greater than the ones after it.
pub open spec fn sorted_lex(s: Seq<Seq<char>>) -> bool {
    forall|i: int, j: int| 0 <= i < j < s.len() ==> !lex_lt(#[trigger] s[j], #[trigger] s[i])
}

/// Whether `a` sorts strictly before `b`.
pub fn lex_less(a: &[char], b: &[char]) -> (r: bool)
    ensures
        r == lex_lt(a@, b@),
{
    let mut i: usize = 0;
    proof {
        assert(a@.skip(0) =~= a@);
        assert(b@.skip(0) =~= b@);
    }
    while i < a.len() && i < b.len() && a[i] == b[i]
        invariant
            i <= a@.len(),
            i <= b@.len(),
            lex_lt(a@, b@) == lex_lt(a@.skip(i as int), b@.skip(i as int)),
        decreases a@.len() - i,
    {
        proof {
            let x = a@.skip(i as int);
            let y = b@.skip(i as int);
            assert(x.drop_first() =~= a@.skip(i + 1));
            assert(y.drop_first() =~= b@.skip(i + 1));
        }
        i = i + 1;
    }
    proof {
        let x = a@.skip(i as int);
        let y = b@.skip(i as int);
        if i < a@.len() && i < b@.len() {
            assert(x[0] == a@[i as int]);
            assert(y[0] == b@[i as int]);
        }
    }
    if i == b.len() {
        false
    } else if i == a.len() {
        true
    } else {
        a[i] < b[i]
    }
}

pub open spec fn views_of(v: Seq<Vec<char>>) -> Seq<Seq<char>> {
    v.map_values(|x: Vec<char>| x@)
}

pub proof fn lemma_insert_multiset<A>(s: Seq<A>, k: int, x: A)
    requires
        0 <= k <= s.len(),
    ensures
        s.insert(k, x).to_multiset() == s.to_multiset().insert(x),
{
    broadcast use vstd::seq_lib::group_to_multiset_ensures;

    let a = s.take(k);
    let b = s.skip(k);
    assert(s =~= a + b);
    assert(s.insert(k, x) =~= a.push(x) + b);
    vstd::seq_lib::lemma_multiset_commutative(a.push(x), b);
    vstd::seq_lib::lemma_multiset_commutative(a, b);
    assert(a.push(x).to_multiset() =~= a.to_multiset().insert(x));
    assert(s.to_multiset().insert(x) =~= a.to_multiset().add(b.to_multiset()).insert(x));
    assert(a.to_multiset().insert(x).add(b.to_multiset()) =~= a.to_multiset().add(
        b.to_multiset(),
    ).insert(x));
}

/// Inserts `x` into the sorted `out`, after any equal elements.
pub fn insert_sorted(out: &mut Vec<Vec<char>>, x: Vec<char>)
    requires
        sorted_lex(views_of(old(out)@)),
    ensures
        sorted_lex(views_of(final(out)@)),
        views_of(final(out)@).to_multiset() == views_of(old(out)@).to_multiset().insert(x@),
{
    let n = out.len();
    let mut k: usize = 0;
    while k < n && !lex_less(x.as_slice(), out[k].as_slice())
        invariant
            k <= n,
            n == out@.len(),
            forall|i: int| 0 <= i < k ==> !lex_lt(x@, #[trigger] out@[i]@),
        decreases n - k,
    {
        k = k + 1;
    }
    let ghost before = views_of(out@);
    out.insert(k, x);
    proof {
        let after = views_of(out@);
        assert(after =~= before.insert(k as int, x@));
        lemma_insert_multiset(before, k as int, x@);
        assert forall|i: int, j: int| 0 <= i < j < after.len() implies !lex_lt(
            #[trigger] after[j],
            #[trigger] after[i],
        ) by {
            if j < k {
                assert(after[i] == before[i] && after[j] == before[j]);
            } else if j == k {
                assert(after[j] == x@);
                assert(after[i] == before[i]);
                assert(before[i] == out@[i]@);
            } else if i < k {
                assert(after[i] == before[i] && after[j] == before[j - 1]);
                if lex_lt(after[j], after[i]) {
                    // x sorted after before[i], and before[j-1] sorted no earlier than x
                    assert(lex_lt(x@, before[k as int]));
                    if j - 1 > k {
                        assert(!lex_lt(before[j - 1], before[k as int]));
                    }
                    lemma_lex_lt_total(before[j - 1], before[k as int]);
                    if lex_lt(before[j - 1], x@) {
                        if lex_lt(x@, before[k as int]) {
                            lemma_lex_lt_transitive(before[j - 1], x@, before[k as int]);
                            lemma_lex_lt_asymmetric(before[j - 1], before[k as int]);
                            lemma_lex_lt_irreflexive(before[k as int]);
                        }
                    }
                    lemma_lex_lt_total(x@, before[i]);
                    lemma_lex_lt_total(before[j - 1], x@);
                    if lex_lt(x@, before[j - 1]) {
                        lemma_lex_lt_transitive(x@, before[j - 1], before[i]);
                    } else if before[j - 1] =~= x@ {
                    } else {
                        lemma_lex_lt_transitive(before[j - 1], x@, before[k as int]);
                        if j - 1 > k {
                        } else {
                            lemma_lex_lt_irreflexive(before[k as int]);
                        }
                    }
                }
            } else if i == k {
                assert(after[i] == x@ && after[j] == before[j - 1]);
                if lex_lt(before[j - 1], x@) {
                    assert(lex_lt(x@, before[k as int]));
                    lemma_lex_lt_transitive(before[j - 1], x@, before[k as int]);
                    if j - 1 > k {
                        assert(!lex_lt(before[j - 1], before[k as int]));
                    } else {
                        lemma_lex_lt_irreflexive(before[k as int]);
                    }
                }
            } else {
                assert(after[i] == before[i - 1] && after[j] == before[j - 1]);
            }
        }
    }
}


/// A strict order: irreflexive, asymmetric and transitive.
pub open spec fn is_strict_order<A>(lt: spec_fn(A, A) -> bool) -> bool {
    &&& forall|a: A| !#[trigger] lt(a, a)
    &&& forall|a: A, b: A| #[trigger] lt(a, b) ==> !lt(b, a)
    &&& forall|a: A, b: A, c: A| #[trigger] lt(a, b) && #[trigger] lt(b, c) ==> lt(a, c)
}

/// No element sorts strictly before an earlier one.
pub open spec fn sorted_by_lt<A>(s: Seq<A>, lt: spec_fn(A, A) -> bool) -> bool {
    forall|i: int, j: int| 0 <= i < j < s.len() ==> !lt(#[trigger] s[j], #[trigger] s[i])
}

/// Inserting `x` before the first element it sorts strictly before keeps
/// the sequence sorted.
pub proof fn lemma_insert_keeps_sorted<A>(before: Seq<A>, k: int, x: A, lt: spec_fn(A, A) -> bool)
    requires
        is_strict_order(lt),
        sorted_by_lt(before, lt),
        0 <= k <= before.len(),
        forall|i: int| 0 <= i < k ==> !lt(x, #[trigger] before[i]),
        k < before.len() ==> lt(x, before[k]),
    ensures
        sorted_by_lt(before.insert(k, x), lt),
{
    let after = before.insert(k, x);
    assert forall|i: int, j: int| 0 <= i < j < after.len() implies !lt(
        #[trigger] after[j],
        #[trigger] after[i],
    ) by {
        if j < k {
            assert(after[i] == before[i] && after[j] == before[j]);
        } else if j == k {
            assert(after[j] == x && after[i] == before[i]);
        } else if i < k {
            assert(after[i] == before[i] && after[j] == before[j - 1]);
            if lt(before[j - 1], before[i]) {
                // before[i] <= x < before[k] <= before[j-1]
                if j - 1 > k {
                    assert(!lt(before[j - 1], before[k]));
                }
                if lt(before[j - 1], x) {
                    assert(lt(before[j - 1], before[k]));
                } else {
                    assert(lt(x, before[k]));
                }
            }
        } else if i == k {
            assert(after[i] == x && after[j] == before[j - 1]);
            if lt(before[j - 1], x) {
                assert(lt(before[j - 1], before[k]));
                if j - 1 > k {
                    assert(!lt(before[j - 1], before[k]));
                }
            }
        } else {
            assert(after[i] == before[i - 1] && after[j] == before[j - 1]);
        }
    }
}


pub open spec fn lex_order() -> spec_fn(Seq<char>, Seq<char>) -> bool {
    |a: Seq<char>, b: Seq<char>| lex_lt(a, b)
}

pub proof fn lemma_lex_strict_order()
    ensures
        is_strict_order(lex_order()),
{
    assert forall|a: Seq<char>| !#[trigger] lex_order()(a, a) by {
        lemma_lex_lt_irreflexive(a);
    }
    assert forall|a: Seq<char>, b: Seq<char>| #[trigger] lex_order()(a, b) implies !lex_order()(
        b,
        a,
    ) by {
        lemma_lex_lt_asymmetric(a, b);
    }
    assert forall|a: Seq<char>, b: Seq<char>, c: Seq<char>| #[trigger] lex_order()(a, b)
        && #[trigger] lex_order()(b, c) implies lex_order()(a, c) by {
        lemma_lex_lt_transitive(a, b, c);
    }
}

} // verus!
