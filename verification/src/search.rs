//! First-match search, shared by the ACL resolver and the credential
//! verifier: the spec-level index of the first element satisfying a
//! predicate, and the lemmas that pin an executable scan to it.

use vstd::prelude::*;

verus! {

/// `i` is the first index below `len` satisfying `p`.
pub open spec fn is_first(len: int, p: spec_fn(int) -> bool, i: int) -> bool {
    &&& 0 <= i < len
    &&& p(i)
    &&& forall|j: int| 0 <= j < i ==> !#[trigger] p(j)
}

/// The first index below `len` satisfying `p`, if any.
pub open spec fn first_index(len: int, p: spec_fn(int) -> bool) -> Option<int> {
    if exists|i: int| is_first(len, p, i) {
        Some(choose|i: int| is_first(len, p, i))
    } else {
        None
    }
}

/// A witness of `is_first` determines `first_index`.
pub proof fn lemma_first_index_some(len: int, p: spec_fn(int) -> bool, i: int)
    requires
        is_first(len, p, i),
    ensures
        first_index(len, p) == Some(i),
{
    let w = choose|k: int| is_first(len, p, k);
    if w < i {
        assert(!p(w));
    }
    if i < w {
        assert(!p(i));
    }
}

/// When no index satisfies `p`, there is no first one.
pub proof fn lemma_first_index_none(len: int, p: spec_fn(int) -> bool)
    requires
        forall|i: int| 0 <= i < len ==> !#[trigger] p(i),
    ensures
        first_index(len, p) is None,
{
    if exists|i: int| is_first(len, p, i) {
        let w = choose|i: int| is_first(len, p, i);
        assert(!p(w));
    }
}


/// Some index satisfying `p` means some first index satisfies it.
pub proof fn lemma_exists_first(len: int, p: spec_fn(int) -> bool, i: int)
    requires
        0 <= i < len,
        p(i),
    ensures
        first_index(len, p) is Some,
    decreases i,
{
    if forall|j: int| 0 <= j < i ==> !#[trigger] p(j) {
        assert(is_first(len, p, i));
    } else {
        let j = choose|j: int| 0 <= j < i && #[trigger] p(j);
        lemma_exists_first(len, p, j);
    }
}


/// A present first index is a witness of `is_first`.
pub proof fn lemma_first_index_is_first(len: int, p: spec_fn(int) -> bool)
    requires
        first_index(len, p) is Some,
    ensures
        is_first(len, p, first_index(len, p)->0),
{
}

} // verus!
