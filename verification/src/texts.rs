//! Lists of strings read as sets.

use vstd::prelude::*;

verus! {

/// Whether a list of strings holds the given one.
pub fn contains_text(items: &Vec<String>, wanted: &String) -> (r: bool)
    ensures
        r == items.deep_view().contains(wanted@),
{
    let mut i: usize = 0;
    while i < items.len()
        invariant
            i <= items.len(),
            forall|k: int| 0 <= k < i ==> items.deep_view()[k] != wanted@,
        decreases items.len() - i,
    {
        if items[i] == *wanted {
            assert(items.deep_view()[i as int] == wanted@);
            return true;
        }
        i += 1;
    }
    false
}

/// Whether every string of the first list stands in the second.
pub fn all_contained(a: &Vec<String>, b: &Vec<String>) -> (r: bool)
    ensures
        r == a.deep_view().to_set().subset_of(b.deep_view().to_set()),
{
    let mut i: usize = 0;
    while i < a.len()
        invariant
            i <= a.len(),
            forall|k: int| 0 <= k < i ==> b.deep_view().contains(#[trigger] a.deep_view()[k]),
        decreases a.len() - i,
    {
        if !contains_text(b, &a[i]) {
            proof {
                let x = a.deep_view()[i as int];
                assert(a.deep_view().contains(x));
                assert(a.deep_view().to_set().contains(x));
                assert(!b.deep_view().to_set().contains(x));
            }
            return false;
        }
        i += 1;
    }
    true
}

/// Whether two lists hold the same strings, in whatever order and however
/// often.
pub fn same_texts(a: &Vec<String>, b: &Vec<String>) -> (r: bool)
    ensures
        r == (a.deep_view().to_set() == b.deep_view().to_set()),
{
    let r = all_contained(a, b) && all_contained(b, a);
    proof {
        if r {
            assert(a.deep_view().to_set() =~= b.deep_view().to_set());
        }
    }
    r
}

/// Whether two string slices hold the same characters.
pub fn same_text(a: &str, b: &str) -> (r: bool)
    ensures
        r == (a@ == b@),
{
    a.to_owned() == b.to_owned()
}

} // verus!
