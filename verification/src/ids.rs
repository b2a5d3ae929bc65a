//! The ids of a slice's records, written out for a report.

use vstd::prelude::*;
use vstd::relations::{sorted_by, total_ordering};
use vstd::seq_lib::lemma_sorted_unique;

verus! {

/// The order of the ids.
pub open spec fn at_most() -> spec_fn(u32, u32) -> bool {
    |a: u32, b: u32| a <= b
}

/// The ids in ascending order.
pub open spec fn ascending(ids: Seq<u32>) -> Seq<u32> {
    ids.sort_by(at_most())
}

/// The character of one decimal digit.
pub open spec fn digit(n: nat) -> char {
    if n == 0 {
        '0'
    } else if n == 1 {
        '1'
    } else if n == 2 {
        '2'
    } else if n == 3 {
        '3'
    } else if n == 4 {
        '4'
    } else if n == 5 {
        '5'
    } else if n == 6 {
        '6'
    } else if n == 7 {
        '7'
    } else if n == 8 {
        '8'
    } else {
        '9'
    }
}

/// A number in decimal digits, without leading zeros.
pub open spec fn decimal(n: nat) -> Seq<char>
    decreases n,
{
    if n < 10 {
        seq![digit(n)]
    } else {
        decimal(n / 10).push(digit(n % 10))
    }
}

/// The ids in decimal, in their order, with the separator between two.
pub open spec fn separated(ids: Seq<u32>, separator: Seq<char>) -> Seq<char>
    decreases ids.len(),
{
    if ids.len() == 0 {
        Seq::empty()
    } else if ids.len() == 1 {
        decimal(ids[0] as nat)
    } else {
        separated(ids.drop_last(), separator) + separator + decimal(ids.last() as nat)
    }
}

/// The ids in decimal, in their order, with a comma between two.
pub open spec fn joined(ids: Seq<u32>) -> Seq<char> {
    separated(ids, seq![','])
}

/// `itertools::Itertools::sorted`, on ids: it returns the elements it was
/// given, each as often as it came, in ascending order.
#[verifier::external_body]
fn sorted_ids(ids: Vec<u32>) -> (r: Vec<u32>)
    ensures
        sorted_by(r@, at_most()),
        r@.to_multiset() == ids@.to_multiset(),
{
    itertools::Itertools::sorted(ids.into_iter()).collect()
}

/// `itertools::Itertools::join`, on ids: each id as its `Display` writes
/// it, which is in decimal, in the order given, with the separator between
/// two.
#[verifier::external_body]
fn join_ids(ids: &Vec<u32>, separator: &str) -> (r: String)
    ensures
        r@ == separated(ids@, separator@),
{
    itertools::Itertools::join(&mut ids.iter(), separator)
}

/// The ids in ascending order, in decimal, with commas between.
pub fn joined_ascending(ids: Vec<u32>) -> (r: String)
    ensures
        r@ == joined(ascending(ids@)),
{
    let ghost given = ids@;
    let sorted = sorted_ids(ids);
    proof {
        assert(total_ordering(at_most()));
        given.lemma_sort_by_ensures(at_most());
        lemma_sorted_unique(sorted@, ascending(given), at_most());
    }
    proof {
        reveal_strlit(",");
        assert(","@ =~= seq![',']);
    }
    join_ids(&sorted, ",")
}

} // verus!
