//! Operations on lists of names.

use vstd::prelude::*;

verus! {

/// The position of the first name in `v` equal to `e`, if any.
pub open spec fn first_index(v: Seq<String>, e: Seq<char>) -> Option<int> {
    if exists|i: int| 0 <= i < v.len() && #[trigger] v[i]@ == e {
        Some(
            choose|i: int|
                0 <= i < v.len() && v[i]@ == e && (forall|j: int| 0 <= j < i ==> #[trigger] v[j]@ != e),
        )
    } else {
        None
    }
}

/// Removes the first name in `v` equal to `element`; true iff one was found
/// and removed.
pub fn remove_element(v: &mut Vec<String>, element: &String) -> (r: bool)
    ensures
        r == (first_index(old(v)@, element@) is Some),
        match first_index(old(v)@, element@) {
            Some(i) => final(v)@ == old(v)@.remove(i),
            None => final(v)@ == old(v)@,
        },
{
    let mut i: usize = 0;
    while i < v.len()
        invariant
            i <= v@.len(),
            v@ == old(v)@,
            forall|j: int| 0 <= j < i ==> #[trigger] v@[j]@ != element@,
        decreases v@.len() - i,
    {
        if v[i] == *element {
            proof {
                let s = old(v)@;
                assert(0 <= i < s.len() && s[i as int]@ == element@);
                let k = choose|k: int|
                    0 <= k < s.len() && s[k]@ == element@ && (forall|j: int| 0 <= j < k ==> #[trigger] s[j]@ != element@);
                assert(k == i) by {
                    if k < i {
                        assert(s[k]@ != element@);
                    } else if k > i {
                        assert(s[i as int]@ != element@);
                    }
                }
            }
            v.remove(i);
            return true;
        }
        i = i + 1;
    }
    false
}

} // verus!
