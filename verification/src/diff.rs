//! Comparing two values of one type, and the one way in which two mappings
//! are compared at every level of a record.

use vstd::prelude::*;

verus! {

/// A type whose values can be compared, part by part.
pub trait Diff<'a>: Sized {
    /// One divergence between two values.
    type Difference: DeepView;

    /// What a comparison of `self` with `comp` reports, in order.
    spec fn differences(&self, comp: &Self) -> Seq<<Self::Difference as DeepView>::V>;

    /// Compares `self` with `comp`: `None` where nothing diverges, else every
    /// divergence.
    fn diff(&'a self, comp: &'a Self) -> (r: Option<Vec<Self::Difference>>)
        ensures
            r is None <==> self.differences(comp).len() == 0,
            r matches Some(d) ==> d.deep_view() == self.differences(comp),
    ;
}

/// How the entries of two mappings are compared: by which key two entries
/// belong together, what is reported of an entry that only one side has, and
/// what of a pair.
#[verifier::reject_recursive_types(E)]
#[verifier::reject_recursive_types(K)]
#[verifier::reject_recursive_types(D)]
pub struct MappingRules<E, K, D> {
    pub key: spec_fn(E) -> K,
    pub left_only: spec_fn(E) -> D,
    pub right_only: spec_fn(E) -> D,
    pub both: spec_fn(E, E) -> Seq<D>,
}

/// The first entry with the given key.
pub open spec fn find<E, K>(entries: Seq<E>, key: spec_fn(E) -> K, k: K) -> Option<E>
    decreases entries.len(),
{
    if entries.len() == 0 {
        None
    } else if key(entries[0]) == k {
        Some(entries[0])
    } else {
        find(entries.drop_first(), key, k)
    }
}

/// What is reported of one entry of the left mapping.
pub open spec fn left_entry<E, K, D>(rules: MappingRules<E, K, D>, e: E, right: Seq<E>) -> Seq<D> {
    match find(right, rules.key, (rules.key)(e)) {
        None => seq![(rules.left_only)(e)],
        Some(r) => (rules.both)(e, r),
    }
}

/// What is reported of one entry of the right mapping.
pub open spec fn right_entry<E, K, D>(rules: MappingRules<E, K, D>, left: Seq<E>, e: E) -> Seq<D> {
    match find(left, rules.key, (rules.key)(e)) {
        None => seq![(rules.right_only)(e)],
        Some(_) => Seq::empty(),
    }
}

/// The reports of the entries of the left mapping, in its order.
pub open spec fn left_pass<E, K, D>(rules: MappingRules<E, K, D>, left: Seq<E>, right: Seq<E>) -> Seq<D>
    decreases left.len(),
{
    if left.len() == 0 {
        Seq::empty()
    } else {
        left_pass(rules, left.drop_last(), right) + left_entry(rules, left.last(), right)
    }
}

/// The reports of the entries that only the right mapping has, in its order.
pub open spec fn right_pass<E, K, D>(rules: MappingRules<E, K, D>, left: Seq<E>, right: Seq<E>) -> Seq<D>
    decreases right.len(),
{
    if right.len() == 0 {
        Seq::empty()
    } else {
        right_pass(rules, left, right.drop_last()) + right_entry(rules, left, right.last())
    }
}

/// The comparison of two mappings: first the left mapping's entries in its
/// order, each either missing on the right or compared with its partner,
/// then the entries that only the right mapping has, in its order.
pub open spec fn mapping_diff<E, K, D>(rules: MappingRules<E, K, D>, left: Seq<E>, right: Seq<E>) -> Seq<D> {
    left_pass(rules, left, right) + right_pass(rules, left, right)
}

/// `find` passes over the entries in front that carry another key.
pub proof fn lemma_find_skip<E, K>(entries: Seq<E>, key: spec_fn(E) -> K, k: K, i: int)
    requires
        0 <= i <= entries.len(),
        forall|j: int| 0 <= j < i ==> key(#[trigger] entries[j]) != k,
    ensures
        find(entries, key, k) == find(entries.skip(i), key, k),
    decreases i,
{
    if i == 0 {
        assert(entries.skip(0) =~= entries);
    } else {
        lemma_find_skip(entries, key, k, i - 1);
        assert(entries.skip(i - 1).drop_first() =~= entries.skip(i));
    }
}

/// `find` returns the entry at the first index that carries the key.
pub proof fn lemma_find_at<E, K>(entries: Seq<E>, key: spec_fn(E) -> K, k: K, i: int)
    requires
        0 <= i < entries.len(),
        key(entries[i]) == k,
        forall|j: int| 0 <= j < i ==> key(#[trigger] entries[j]) != k,
    ensures
        find(entries, key, k) == Some(entries[i]),
{
    lemma_find_skip(entries, key, k, i);
}

/// `find` returns nothing exactly where no entry carries the key.
pub proof fn lemma_find_none<E, K>(entries: Seq<E>, key: spec_fn(E) -> K, k: K)
    ensures
        find(entries, key, k) is None <==> forall|j: int|
            0 <= j < entries.len() ==> key(#[trigger] entries[j]) != k,
        find(entries, key, k) matches Some(e) ==> key(e) == k && entries.contains(e),
    decreases entries.len(),
{
    if entries.len() > 0 {
        let rest = entries.drop_first();
        lemma_find_none(rest, key, k);
        if key(entries[0]) != k {
            assert forall|j: int| 0 <= j < rest.len() implies (key(#[trigger] rest[j]) != k) == (
            key(entries[j + 1]) != k) by {}
            if find(rest, key, k) is None {
                assert forall|j: int| 0 <= j < entries.len() implies key(#[trigger] entries[j])
                    != k by {
                    if j > 0 {
                        assert(rest[j - 1] == entries[j]);
                    }
                }
            } else {
                let e = find(rest, key, k)->0;
                let j = choose|j: int| 0 <= j < rest.len() && rest[j] == e;
                assert(entries[j + 1] == e);
            }
        }
    }
}

/// In a mapping with distinct keys every entry is found under its own key.
pub proof fn lemma_find_own<E, K>(entries: Seq<E>, key: spec_fn(E) -> K, i: int)
    requires
        0 <= i < entries.len(),
        forall|a: int, b: int|
            0 <= a < b < entries.len() ==> key(#[trigger] entries[a]) != key(#[trigger] entries[b]),
    ensures
        find(entries, key, key(entries[i])) == Some(entries[i]),
{
    lemma_find_at(entries, key, key(entries[i]), i);
}

/// One more entry on the left adds its report at the end.
pub proof fn lemma_left_pass_step<E, K, D>(rules: MappingRules<E, K, D>, left: Seq<E>, right: Seq<E>, i: int)
    requires
        0 <= i < left.len(),
    ensures
        left_pass(rules, left.take(i + 1), right) == left_pass(rules, left.take(i), right)
            + left_entry(rules, left[i], right),
{
    assert(left.take(i + 1).drop_last() =~= left.take(i));
}

/// One more entry on the right adds its report at the end.
pub proof fn lemma_right_pass_step<E, K, D>(rules: MappingRules<E, K, D>, left: Seq<E>, right: Seq<E>, i: int)
    requires
        0 <= i < right.len(),
    ensures
        right_pass(rules, left, right.take(i + 1)) == right_pass(rules, left, right.take(i))
            + right_entry(rules, left, right[i]),
{
    assert(right.take(i + 1).drop_last() =~= right.take(i));
}

/// A mapping with one more entry: in the place of the entry that had its
/// key, or at the end where no entry had it.
pub open spec fn upsert<E, K>(entries: Seq<E>, key: spec_fn(E) -> K, e: E) -> Seq<E>
    decreases entries.len(),
{
    if entries.len() == 0 {
        seq![e]
    } else if key(entries[0]) == key(e) {
        seq![e] + entries.drop_first()
    } else {
        seq![entries[0]] + upsert(entries.drop_first(), key, e)
    }
}

/// An entry takes the place of the first entry with its key.
pub proof fn lemma_upsert_at<E, K>(entries: Seq<E>, key: spec_fn(E) -> K, e: E, i: int)
    requires
        0 <= i < entries.len(),
        key(entries[i]) == key(e),
        forall|k: int| 0 <= k < i ==> key(#[trigger] entries[k]) != key(e),
    ensures
        upsert(entries, key, e) == entries.update(i, e),
    decreases i,
{
    if i == 0 {
        assert(seq![e] + entries.drop_first() =~= entries.update(0, e));
    } else {
        let rest = entries.drop_first();
        assert forall|k: int| 0 <= k < i - 1 implies key(#[trigger] rest[k]) != key(e) by {
            assert(rest[k] == entries[k + 1]);
        }
        lemma_upsert_at(rest, key, e, i - 1);
        assert(seq![entries[0]] + rest.update(i - 1, e) =~= entries.update(i, e));
    }
}

/// An entry with a new key goes to the end.
pub proof fn lemma_upsert_new<E, K>(entries: Seq<E>, key: spec_fn(E) -> K, e: E)
    requires
        forall|k: int| 0 <= k < entries.len() ==> key(#[trigger] entries[k]) != key(e),
    ensures
        upsert(entries, key, e) == entries.push(e),
    decreases entries.len(),
{
    if entries.len() == 0 {
        assert(seq![e] =~= entries.push(e));
    } else {
        let rest = entries.drop_first();
        assert forall|k: int| 0 <= k < rest.len() implies key(#[trigger] rest[k]) != key(e) by {
            assert(rest[k] == entries[k + 1]);
        }
        lemma_upsert_new(rest, key, e);
        assert(seq![entries[0]] + rest.push(e) =~= entries.push(e));
    }
}

} // verus!
