//! The order of names, and bringing a list of names into that order without
//! repeats.
//!
//! Names are ordered as strings are: character by character from the front,
//! by code point, a proper prefix coming first.

use vstd::prelude::*;

verus! {

/// `a` equals `b` or comes before it.
pub open spec fn name_le(a: Seq<char>, b: Seq<char>) -> bool
    decreases a.len(),
{
    if a.len() == 0 {
        true
    } else if b.len() == 0 {
        false
    } else if a[0] != b[0] {
        a[0] < b[0]
    } else {
        name_le(a.drop_first(), b.drop_first())
    }
}

/// No name comes after a later one.
pub open spec fn ascending(names: Seq<Seq<char>>) -> bool {
    forall|i: int, j: int| 0 <= i < j < names.len() ==> name_le(#[trigger] names[i], #[trigger] names[j])
}

/// Every name comes before all later ones.
pub open spec fn strictly_ascending(names: Seq<Seq<char>>) -> bool {
    forall|i: int, j: int|
        0 <= i < j < names.len() ==> name_le(#[trigger] names[i], #[trigger] names[j]) && names[i]
            != names[j]
}

/// `names` with every name dropped that equals the one just before it.
pub open spec fn squeezed(names: Seq<Seq<char>>) -> Seq<Seq<char>>
    decreases names.len(),
{
    if names.len() == 0 {
        names
    } else {
        let front = squeezed(names.drop_last());
        if names.len() >= 2 && names[names.len() - 2] == names.last() {
            front
        } else {
            front.push(names.last())
        }
    }
}

/// Two names that each come no later than the other are the same name.
pub proof fn lemma_name_le_antisymmetric(a: Seq<char>, b: Seq<char>)
    requires
        name_le(a, b),
        name_le(b, a),
    ensures
        a == b,
    decreases a.len(),
{
    if a.len() == 0 {
        assert(b.len() == 0);
        assert(a =~= b);
    } else {
        assert(b.len() > 0);
        assert(a[0] == b[0]);
        lemma_name_le_antisymmetric(a.drop_first(), b.drop_first());
        assert(a =~= seq![a[0]] + a.drop_first());
        assert(b =~= seq![b[0]] + b.drop_first());
    }
}

/// Names in strictly ascending order are pairwise distinct.
pub proof fn lemma_strictly_ascending_distinct(names: Seq<Seq<char>>)
    requires
        strictly_ascending(names),
    ensures
        names.no_duplicates(),
{
    assert forall|i: int, j: int|
        0 <= i < names.len() && 0 <= j < names.len() && i != j implies names[i] != names[j] by {
        if i < j {
            assert(name_le(names[i], names[j]) && names[i] != names[j]);
        } else {
            assert(name_le(names[j], names[i]) && names[j] != names[i]);
        }
    }
}

/// Dropping adjacent repeats from names in ascending order leaves the same
/// names, each once, in strictly ascending order.
pub proof fn lemma_squeezed_ascending(names: Seq<Seq<char>>)
    requires
        ascending(names),
    ensures
        strictly_ascending(squeezed(names)),
        squeezed(names).to_set() == names.to_set(),
        squeezed(names).len() <= names.len(),
    decreases names.len(),
{
    let out = squeezed(names);
    if names.len() == 0 {
        assert(out.to_set() =~= names.to_set());
    } else {
        let rest = names.drop_last();
        let x = names.last();
        let front = squeezed(rest);
        assert forall|i: int, j: int| 0 <= i < j < rest.len() implies name_le(
            #[trigger] rest[i],
            #[trigger] rest[j],
        ) by {
            assert(name_le(names[i], names[j]));
        }
        lemma_squeezed_ascending(rest);
        assert forall|n: Seq<char>| rest.contains(n) == front.contains(n) by {
            assert(rest.to_set().contains(n) == front.to_set().contains(n));
        }
        if names.len() >= 2 && names[names.len() - 2] == x {
            assert(rest.contains(x)) by {
                assert(rest[rest.len() - 1] == x);
            }
            assert forall|n: Seq<char>| names.contains(n) == out.contains(n) by {
                if names.contains(n) {
                    let k = choose|k: int| 0 <= k < names.len() && names[k] == n;
                    if k < rest.len() {
                        assert(rest[k] == n);
                    }
                    assert(rest.contains(n));
                }
                if out.contains(n) {
                    let k = choose|k: int| 0 <= k < rest.len() && rest[k] == n;
                    assert(names[k] == n);
                }
            }
            assert(out.to_set() =~= names.to_set());
        } else {
            assert forall|i: int, j: int| 0 <= i < j < out.len() implies name_le(
                #[trigger] out[i],
                #[trigger] out[j],
            ) && out[i] != out[j] by {
                if j < front.len() {
                    assert(name_le(front[i], front[j]) && front[i] != front[j]);
                } else {
                    assert(front.contains(front[i]));
                    let k = choose|k: int| 0 <= k < rest.len() && rest[k] == front[i];
                    assert(name_le(names[k], names[names.len() - 1]));
                    if front[i] == x {
                        let l = names.len() - 2;
                        assert(k <= l);
                        if k < l {
                            assert(name_le(names[k], names[l]));
                        }
                        assert(name_le(names[l], names[names.len() - 1]));
                        lemma_name_le_antisymmetric(names[l], x);
                    }
                }
            }
            assert forall|n: Seq<char>| names.contains(n) == out.contains(n) by {
                if names.contains(n) {
                    let k = choose|k: int| 0 <= k < names.len() && names[k] == n;
                    if k < rest.len() {
                        assert(rest[k] == n);
                        assert(rest.contains(n));
                        assert(front.contains(n));
                        let m = choose|m: int| 0 <= m < front.len() && front[m] == n;
                        assert(out[m] == n);
                    } else {
                        assert(out[out.len() - 1] == n);
                    }
                }
                if out.contains(n) {
                    let m = choose|m: int| 0 <= m < out.len() && out[m] == n;
                    if m < front.len() {
                        assert(front[m] == n);
                        assert(front.contains(n));
                        assert(rest.contains(n));
                        let k = choose|k: int| 0 <= k < rest.len() && rest[k] == n;
                        assert(names[k] == n);
                    } else {
                        assert(names[names.len() - 1] == n);
                    }
                }
            }
            assert(out.to_set() =~= names.to_set());
        }
    }
}

/// There is one way only to list given names in strictly ascending order.
pub proof fn lemma_strictly_ascending_unique(a: Seq<Seq<char>>, b: Seq<Seq<char>>)
    requires
        strictly_ascending(a),
        strictly_ascending(b),
        a.to_set() == b.to_set(),
    ensures
        a == b,
    decreases a.len(),
{
    if a.len() == 0 {
        if b.len() > 0 {
            assert(b.contains(b[0]));
            assert(a.to_set().contains(b[0]));
        }
        assert(a =~= b);
    } else {
        let x = a.last();
        assert(a.contains(x));
        assert(b.to_set().contains(x));
        let kb = choose|k: int| 0 <= k < b.len() && b[k] == x;
        let y = b.last();
        assert(b.contains(y));
        assert(a.to_set().contains(y));
        let ka = choose|k: int| 0 <= k < a.len() && a[k] == y;
        if kb < b.len() - 1 {
            assert(name_le(b[kb], b[b.len() - 1]));
        }
        if ka < a.len() - 1 {
            assert(name_le(a[ka], a[a.len() - 1]));
        }
        lemma_name_le_reflexive(x);
        lemma_name_le_antisymmetric(x, y);
        let a0 = a.drop_last();
        let b0 = b.drop_last();
        assert forall|i: int, j: int| 0 <= i < j < a0.len() implies name_le(
            #[trigger] a0[i],
            #[trigger] a0[j],
        ) && a0[i] != a0[j] by {
            assert(name_le(a[i], a[j]) && a[i] != a[j]);
        }
        assert forall|i: int, j: int| 0 <= i < j < b0.len() implies name_le(
            #[trigger] b0[i],
            #[trigger] b0[j],
        ) && b0[i] != b0[j] by {
            assert(name_le(b[i], b[j]) && b[i] != b[j]);
        }
        assert forall|n: Seq<char>| a0.contains(n) == b0.contains(n) by {
            if a0.contains(n) {
                let k = choose|k: int| 0 <= k < a0.len() && a0[k] == n;
                assert(name_le(a[k], a[a.len() - 1]) && a[k] != a[a.len() - 1]);
                assert(a.contains(a[k]));
                assert(b.to_set().contains(n));
                let m = choose|m: int| 0 <= m < b.len() && b[m] == n;
                assert(b0[m] == n);
            }
            if b0.contains(n) {
                let k = choose|k: int| 0 <= k < b0.len() && b0[k] == n;
                assert(name_le(b[k], b[b.len() - 1]) && b[k] != b[b.len() - 1]);
                assert(b.contains(b[k]));
                assert(a.to_set().contains(n));
                let m = choose|m: int| 0 <= m < a.len() && a[m] == n;
                assert(a0[m] == n);
            }
        }
        assert(a0.to_set() =~= b0.to_set());
        lemma_strictly_ascending_unique(a0, b0);
        assert(a =~= a0.push(x));
        assert(b =~= b0.push(y));
    }
}

/// Every name comes no later than itself.
pub proof fn lemma_name_le_reflexive(a: Seq<char>)
    ensures
        name_le(a, a),
    decreases a.len(),
{
    if a.len() > 0 {
        lemma_name_le_reflexive(a.drop_first());
    }
}

/// A rearrangement of a list of names holds the same names.
pub proof fn lemma_rearranged_same_names(a: Seq<Seq<char>>, b: Seq<Seq<char>>)
    requires
        a.to_multiset() == b.to_multiset(),
    ensures
        a.to_set() == b.to_set(),
{
    a.to_multiset_ensures();
    b.to_multiset_ensures();
    assert forall|n: Seq<char>| a.contains(n) == b.contains(n) by {
        assert(a.contains(n) <==> a.to_multiset().count(n) > 0);
        assert(b.contains(n) <==> b.to_multiset().count(n) > 0);
    }
    assert(a.to_set() =~= b.to_set());
}

/// Sorts the names with `<[String]>::sort`.  Trusted: afterwards the list is
/// a rearrangement of what it was, and in ascending order, strings being
/// ordered by their bytes, which is the order of their characters' code
/// points.
#[verifier::external_body]
fn sort_names(names: &mut Vec<String>)
    ensures
        ascending(final(names).deep_view()),
        final(names).deep_view().to_multiset() == old(names).deep_view().to_multiset(),
{
    names.sort();
}

/// Removes consecutive repeated names with `Vec::dedup`.  Trusted: what is
/// left is the list with each name dropped that equals the one before it.
#[verifier::external_body]
fn drop_adjacent_repeats(names: &mut Vec<String>)
    ensures
        final(names).deep_view() == squeezed(old(names).deep_view()),
{
    names.dedup();
}

/// Sorts the names and removes the duplicates: afterwards the list holds the
/// names it held before, each once, in strictly ascending order.
pub fn compact(names: &mut Vec<String>)
    ensures
        strictly_ascending(final(names).deep_view()),
        final(names).deep_view().no_duplicates(),
        final(names).deep_view().to_set() == old(names).deep_view().to_set(),
        final(names).len() <= old(names).len(),
{
    sort_names(names);
    let ghost sorted = names.deep_view();
    drop_adjacent_repeats(names);
    proof {
        lemma_rearranged_same_names(sorted, old(names).deep_view());
        lemma_squeezed_ascending(sorted);
        lemma_strictly_ascending_distinct(names.deep_view());
        sorted.to_multiset_ensures();
        old(names).deep_view().to_multiset_ensures();
    }
}

} // verus!
