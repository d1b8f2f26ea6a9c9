//! Hit testing: which of several shapes, tried in order, a point falls on.
//! The renderer tells, for each shape, whether it contains the point; the
//! order of the shapes is the interface's rule.
use vstd::prelude::*;

verus! {

/// The position of the first `true` in `s`.
pub open spec fn first_true(s: Seq<bool>) -> Option<int>
    decreases s.len(),
{
    if s.len() == 0 {
        None
    } else if s[0] {
        Some(0)
    } else {
        match first_true(s.drop_first()) {
            Some(i) => Some(i + 1),
            None => None,
        }
    }
}

pub proof fn lemma_first_true(s: Seq<bool>)
    ensures
        match first_true(s) {
            Some(i) => 0 <= i < s.len() && s[i] && forall|j: int| 0 <= j < i ==> !s[j],
            None => forall|j: int| 0 <= j < s.len() ==> !s[j],
        },
    decreases s.len(),
{
    if s.len() > 0 && !s[0] {
        lemma_first_true(s.drop_first());
        assert forall|j: int| 0 <= j < s.len() && !(first_true(s) matches Some(i) && j >= i) implies !s[j] by {
            if j > 0 {
                assert(s[j] == s.drop_first()[j - 1]);
            }
        }
    }
}

/// The position of the first `true` in `s`.
pub fn first_index(s: &[bool]) -> (r: Option<usize>)
    ensures
        match r {
            Some(i) => first_true(s@) == Some(i as int),
            None => first_true(s@) is None,
        },
{
    let mut i: usize = 0;
    while i < s.len()
        invariant
            i <= s@.len(),
            forall|j: int| 0 <= j < i ==> !s@[j],
        decreases s.len() - i,
    {
        if s[i] {
            proof {
                lemma_first_true(s@);
                if let Some(k) = first_true(s@) {
                    if k > i {
                    } else if k < i {
                        assert(!s@[k]);
                    }
                }
            }
            return Some(i);
        }
        i += 1;
    }
    proof {
        lemma_first_true(s@);
    }
    None
}

} // verus!
