//! Orders used to arrange lists, and an in-place insertion sort over them.

use vstd::prelude::*;

verus! {

/// Lexicographic order on texts by Unicode scalar value, which is the order
/// `str`'s `Ord` gives (UTF-8 preserves code-point order).
pub open spec fn text_lt(a: Seq<char>, b: Seq<char>) -> bool
    decreases a.len(),
{
    if a.len() == 0 {
        b.len() > 0
    } else if b.len() == 0 {
        false
    } else if a[0] < b[0] {
        true
    } else if a[0] == b[0] {
        text_lt(a.drop_first(), b.drop_first())
    } else {
        false
    }
}

pub proof fn lemma_text_lt_irreflexive(a: Seq<char>)
    ensures
        !text_lt(a, a),
    decreases a.len(),
{
    if a.len() > 0 {
        lemma_text_lt_irreflexive(a.drop_first());
    }
}

pub proof fn lemma_text_lt_transitive(a: Seq<char>, b: Seq<char>, c: Seq<char>)
    requires
        text_lt(a, b),
        text_lt(b, c),
    ensures
        text_lt(a, c),
    decreases a.len(),
{
    if a.len() > 0 && b.len() > 0 && c.len() > 0 && a[0] == b[0] && b[0] == c[0] {
        lemma_text_lt_transitive(a.drop_first(), b.drop_first(), c.drop_first());
    }
}

pub proof fn lemma_text_lt_total(a: Seq<char>, b: Seq<char>)
    ensures
        a == b || text_lt(a, b) || text_lt(b, a),
    decreases a.len(),
{
    if a.len() > 0 && b.len() > 0 && a[0] == b[0] {
        lemma_text_lt_total(a.drop_first(), b.drop_first());
        if a.drop_first() == b.drop_first() {
            assert(a =~= seq![a[0]] + a.drop_first());
            assert(b =~= seq![b[0]] + b.drop_first());
        }
    } else if a.len() == 0 && b.len() == 0 {
        assert(a =~= b);
    }
}

/// The three facts every list order below satisfies.
pub proof fn lemma_text_lt_laws(a: Seq<char>, b: Seq<char>, c: Seq<char>)
    ensures
        !text_lt(a, a),
        text_lt(a, b) && text_lt(b, c) ==> text_lt(a, c),
        text_lt(a, b) ==> !text_lt(b, a),
        a == b || text_lt(a, b) || text_lt(b, a),
{
    lemma_text_lt_irreflexive(a);
    lemma_text_lt_total(a, b);
    if text_lt(a, b) && text_lt(b, c) {
        lemma_text_lt_transitive(a, b, c);
    }
    if text_lt(a, b) && text_lt(b, a) {
        lemma_text_lt_transitive(a, b, a);
    }
}

/// `text_lt` on character slices.
pub fn text_lt_exec(a: &[char], b: &[char]) -> (r: bool)
    ensures
        r == text_lt(a@, b@),
{
    let mut i: usize = 0;
    proof {
        assert(a@.skip(0) =~= a@);
        assert(b@.skip(0) =~= b@);
    }
    while i < a.len() && i < b.len() && a[i] == b[i]
        invariant
            i <= a.len(),
            i <= b.len(),
            text_lt(a@, b@) == text_lt(a@.skip(i as int), b@.skip(i as int)),
        decreases a.len() - i,
    {
        proof {
            assert(a@.skip(i as int).drop_first() =~= a@.skip(i as int + 1));
            assert(b@.skip(i as int).drop_first() =~= b@.skip(i as int + 1));
        }
        i = i + 1;
    }
    if i == a.len() {
        i < b.len()
    } else if i == b.len() {
        false
    } else {
        a[i] < b[i]
    }
}

/// Descending order on an optional time: a later time comes first and an
/// absent time comes last (`Option`'s order, reversed).
pub open spec fn opt_later(a: Option<u64>, b: Option<u64>) -> bool {
    match (a, b) {
        (Some(x), Some(y)) => x > y,
        (Some(_), None) => true,
        _ => false,
    }
}

pub fn opt_later_exec(a: Option<u64>, b: Option<u64>) -> (r: bool)
    ensures
        r == opt_later(a, b),
{
    match (a, b) {
        (Some(x), Some(y)) => x > y,
        (Some(_), None) => true,
        _ => false,
    }
}

/// A strict order in which incomparability is transitive (a strict weak order).
pub trait ListOrder: Sized {
    spec fn precedes(a: Self, b: Self) -> bool;

    proof fn lemma_order(a: Self, b: Self, c: Self)
        ensures
            !Self::precedes(a, a),
            Self::precedes(a, b) && Self::precedes(b, c) ==> Self::precedes(a, c),
            Self::precedes(a, c) ==> Self::precedes(a, b) || Self::precedes(b, c),
    ;

    fn precedes_exec(a: &Self, b: &Self) -> (r: bool)
        ensures
            r == Self::precedes(*a, *b),
    ;
}

/// No later element precedes an earlier one.
pub open spec fn is_sorted<T: ListOrder>(s: Seq<T>) -> bool {
    forall|i: int, j: int| 0 <= i < j < s.len() ==> !T::precedes(#[trigger] s[j], #[trigger] s[i])
}

/// Swaps two elements of a slice (`<[T]>::swap`).
#[verifier::external_body]
fn swap_in_slice<T>(s: &mut [T], i: usize, j: usize)
    requires
        i < old(s)@.len(),
        j < old(s)@.len(),
    ensures
        final(s)@ == old(s)@.update(i as int, old(s)@[j as int]).update(j as int, old(s)@[i as int]),
{
    s.swap(i, j);
}

proof fn lemma_swap_multiset<T>(s: Seq<T>, i: int, j: int)
    requires
        0 <= i < s.len(),
        0 <= j < s.len(),
    ensures
        s.update(i, s[j]).update(j, s[i]).to_multiset() == s.to_multiset(),
{
    broadcast use vstd::seq_lib::group_to_multiset_ensures;
    broadcast use vstd::multiset::group_multiset_axioms;
    let t = s.update(i, s[j]);
    assert(t.to_multiset() == s.to_multiset().insert(s[j]).remove(s[i]));
    assert(t.update(j, s[i]).to_multiset() == t.to_multiset().insert(s[i]).remove(t[j]));
    if i == j {
        assert(s.update(i, s[j]).update(j, s[i]) =~= s);
    } else {
        assert(t[j] == s[j]);
        assert(s.to_multiset().insert(s[j]).remove(s[i]).insert(s[i]).remove(s[j]) =~= s.to_multiset());
    }
}

/// `t` is `s` rearranged by `p`: `t[k]` is `s[p[k]]`, and `p` names each
/// position of `s` once.
pub open spec fn permutes<T>(t: Seq<T>, s: Seq<T>, p: Seq<int>) -> bool {
    &&& t.len() == s.len()
    &&& p.len() == s.len()
    &&& forall|k: int| 0 <= k < p.len() ==> 0 <= #[trigger] p[k] < s.len() && t[k] == s[p[k]]
    &&& forall|a: int, b: int| 0 <= a < b < p.len() ==> #[trigger] p[a] != #[trigger] p[b]
}

/// `t` is the stable sort of `s`: a rearrangement of `s` in which no
/// element precedes an earlier one, and elements neither of which precedes
/// the other keep the order they had in `s`.
#[verifier::opaque]
pub open spec fn stable_sort_of<T: ListOrder>(t: Seq<T>, s: Seq<T>) -> bool {
    &&& is_sorted(t)
    &&& exists|p: Seq<int>|
        #[trigger] permutes(t, s, p) && forall|a: int, b: int|
            0 <= a < b < t.len() && !T::precedes(#[trigger] t[a], #[trigger] t[b]) ==> p[a] < p[b]
}

proof fn lemma_increasing_at_least(p: Seq<int>, k: int)
    requires
        0 <= k < p.len(),
        forall|i: int| 0 <= i < p.len() ==> 0 <= #[trigger] p[i],
        forall|a: int, b: int| 0 <= a < b < p.len() ==> #[trigger] p[a] < #[trigger] p[b],
    ensures
        p[k] >= k,
    decreases k,
{
    if k > 0 {
        lemma_increasing_at_least(p, k - 1);
        assert(p[k - 1] < p[k]);
    }
}

proof fn lemma_increasing_at_most(p: Seq<int>, k: int)
    requires
        0 <= k < p.len(),
        forall|i: int| 0 <= i < p.len() ==> #[trigger] p[i] < p.len(),
        forall|a: int, b: int| 0 <= a < b < p.len() ==> #[trigger] p[a] < #[trigger] p[b],
    ensures
        p[k] <= k,
    decreases p.len() - k,
{
    if k + 1 < p.len() {
        lemma_increasing_at_most(p, k + 1);
        assert(p[k] < p[k + 1]);
    }
}

/// Sorting an already sorted list leaves it as it was: the stable sort of a
/// sorted list is that list.
pub proof fn lemma_stable_sort_of_sorted<T: ListOrder>(t: Seq<T>, s: Seq<T>)
    requires
        is_sorted(s),
        stable_sort_of(t, s),
    ensures
        t == s,
{
    reveal(stable_sort_of);
    let p = choose|p: Seq<int>|
        #[trigger] permutes(t, s, p) && forall|a: int, b: int|
            0 <= a < b < t.len() && !T::precedes(#[trigger] t[a], #[trigger] t[b]) ==> p[a] < p[b];
    assert forall|a: int, b: int| 0 <= a < b < p.len() implies #[trigger] p[a] < #[trigger] p[b] by {
        if T::precedes(t[a], t[b]) {
            if p[b] < p[a] {
                assert(!T::precedes(s[p[a]], s[p[b]]));
            }
            assert(p[a] != p[b]);
        } else {
            assert(!T::precedes(t[a], t[b]));
        }
    }
    assert forall|k: int| 0 <= k < t.len() implies t[k] == s[k] by {
        lemma_increasing_at_least(p, k);
        lemma_increasing_at_most(p, k);
    }
    assert(t =~= s);
}

/// In-place insertion sort; it is stable.
pub fn insertion_sort<T: ListOrder>(s: &mut [T])
    ensures
        final(s)@.to_multiset() == old(s)@.to_multiset(),
        final(s)@.len() == old(s)@.len(),
        is_sorted(final(s)@),
        stable_sort_of(final(s)@, old(s)@),
{
    let n = s.len();
    let ghost orig = s@;
    let ghost mut perm: Seq<int> = Seq::new(n as nat, |k: int| k);
    let mut i: usize = 0;
    while i < n
        invariant
            n == s@.len(),
            i <= n,
            orig == old(s)@,
            s@.to_multiset() == old(s)@.to_multiset(),
            s@.len() == old(s)@.len(),
            permutes(s@, orig, perm),
            forall|k: int| i <= k < n ==> #[trigger] perm[k] == k,
            forall|k: int| 0 <= k < i ==> #[trigger] perm[k] < i,
            forall|a: int, b: int| 0 <= a < b < i ==> !T::precedes(#[trigger] s@[b], #[trigger] s@[a]),
            forall|a: int, b: int|
                0 <= a < b < i && !T::precedes(#[trigger] s@[a], #[trigger] s@[b]) ==> perm[a] < perm[b],
        decreases n - i,
    {
        let mut j: usize = i;
        let ghost x = s@[i as int];
        while j > 0 && T::precedes_exec(&s[j], &s[j - 1])
            invariant
                n == s@.len(),
                i < n,
                j <= i,
                orig == old(s)@,
                s@[j as int] == x,
                s@.to_multiset() == old(s)@.to_multiset(),
                s@.len() == old(s)@.len(),
                permutes(s@, orig, perm),
                perm[j as int] == i,
                forall|k: int| i < k < n ==> #[trigger] perm[k] == k,
                forall|k: int| 0 <= k <= i && k != j ==> #[trigger] perm[k] < i,
                forall|a: int, b: int| 0 <= a < b <= i && a != j && b != j ==> !T::precedes(#[trigger] s@[b], #[trigger] s@[a]),
                forall|a: int, b: int|
                    0 <= a < b <= i && a != j && b != j && !T::precedes(#[trigger] s@[a], #[trigger] s@[b]) ==> perm[a]
                        < perm[b],
                forall|k: int| j < k <= i ==> T::precedes(x, #[trigger] s@[k]),
            decreases j,
        {
            let ghost before = s@;
            let ghost pb = perm;
            proof {
                lemma_swap_multiset(before, j as int - 1, j as int);
            }
            swap_in_slice(s, j - 1, j);
            proof {
                perm = pb.update(j as int - 1, pb[j as int]).update(j as int, pb[j as int - 1]);
                let y = before[j as int - 1];
                assert(s@[j as int] == y);
                assert(s@[j as int - 1] == x);
                assert forall|k: int| 0 <= k < perm.len() implies 0 <= #[trigger] perm[k] < orig.len() && s@[k] == orig[perm[k]] by {
                    if k == j - 1 {
                    } else if k == j {
                    } else {
                        assert(s@[k] == before[k]);
                    }
                }
                assert forall|a: int, b: int| 0 <= a < b < perm.len() implies #[trigger] perm[a] != #[trigger] perm[b] by {
                    if a == j - 1 || a == j || b == j - 1 || b == j {
                        if a == j - 1 && b == j {
                        } else if a == j - 1 {
                            assert(pb[j as int] != pb[b]);
                        } else if a == j {
                            assert(pb[j - 1] != pb[b]);
                        } else if b == j - 1 {
                            assert(pb[a] != pb[j as int]);
                        } else {
                            assert(pb[a] != pb[j - 1]);
                        }
                    } else {
                        assert(pb[a] != pb[b]);
                    }
                }
                assert forall|a: int, b: int| 0 <= a < b <= i && a != j - 1 && b != j - 1
                    implies !T::precedes(#[trigger] s@[b], #[trigger] s@[a]) by {
                    if b == j {
                        assert(before[a] == s@[a]);
                        assert(!T::precedes(before[j - 1], before[a]));
                    } else if a == j {
                        assert(before[b] == s@[b]);
                        assert(!T::precedes(before[b], before[j - 1]));
                    } else {
                        assert(before[a] == s@[a] && before[b] == s@[b]);
                    }
                }
                assert forall|a: int, b: int|
                    0 <= a < b <= i && a != j - 1 && b != j - 1 && !T::precedes(#[trigger] s@[a], #[trigger] s@[b]) implies perm[a]
                        < perm[b] by {
                    if b == j {
                        assert(before[a] == s@[a]);
                        assert(perm[b] == pb[j - 1] && perm[a] == pb[a]);
                    } else if a == j {
                        assert(before[b] == s@[b]);
                        assert(perm[a] == pb[j - 1] && perm[b] == pb[b]);
                    } else {
                        assert(before[a] == s@[a] && before[b] == s@[b]);
                    }
                }
                assert forall|k: int| j - 1 < k <= i implies T::precedes(x, #[trigger] s@[k]) by {
                    if k == j {
                        assert(T::precedes(before[j as int], before[j - 1]));
                    } else {
                        assert(before[k] == s@[k]);
                    }
                }
                assert(permutes(s@, orig, perm));
            }
            j = j - 1;
        }
        proof {
            assert forall|a: int, b: int| 0 <= a < b < i + 1 implies !T::precedes(#[trigger] s@[b], #[trigger] s@[a]) by {
                if b == j {
                    if a < j {
                        assert(!T::precedes(x, s@[j - 1]));
                        if j - 1 != a {
                            assert(!T::precedes(s@[j - 1], s@[a]));
                        }
                        T::lemma_order(x, s@[j - 1], s@[a]);
                    }
                } else if a == j {
                    assert(T::precedes(x, s@[b]));
                    T::lemma_order(x, s@[b], x);
                    T::lemma_order(s@[b], x, s@[b]);
                }
            }
            assert forall|a: int, b: int|
                0 <= a < b < i + 1 && !T::precedes(#[trigger] s@[a], #[trigger] s@[b]) implies perm[a] < perm[b] by {
                if b == j {
                    assert(perm[a] < i);
                } else if a == j {
                    assert(T::precedes(x, s@[b]));
                }
            }
        }
        i = i + 1;
    }
    proof {
        assert forall|a: int, b: int|
            0 <= a < b < s@.len() && !T::precedes(#[trigger] s@[a], #[trigger] s@[b]) implies perm[a] < perm[b] by {}
        assert(permutes(s@, old(s)@, perm));
        reveal(stable_sort_of);
    }
}

} // verus!
