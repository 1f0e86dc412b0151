//! Facts about sequences in which nothing occurs twice.

use vstd::prelude::*;

verus! {

/// In a sequence without duplicates an element is found where it stands.
pub proof fn lemma_index_unique<T>(s: Seq<T>, i: int)
    requires
        s.no_duplicates(),
        0 <= i < s.len(),
    ensures
        s.contains(s[i]),
        s.index_of(s[i]) == i,
{
    assert(s.contains(s[i]));
    let k = s.index_of(s[i]);
    assert(0 <= k < s.len() && s[k] == s[i]);
}

/// Taking one element out of a sequence without duplicates leaves a sequence
/// without duplicates, in which that element no longer occurs and every other
/// one still does.
pub proof fn lemma_remove_unique<T>(s: Seq<T>, i: int)
    requires
        s.no_duplicates(),
        0 <= i < s.len(),
    ensures
        s.remove(i).no_duplicates(),
        !s.remove(i).contains(s[i]),
        forall|x: T| x != s[i] ==> (s.remove(i).contains(x) <==> s.contains(x)),
{
    let r = s.remove(i);
    assert forall|a: int, b: int| 0 <= a < r.len() && 0 <= b < r.len() && a != b implies r[a]
        != r[b] by {
        let a0 = if a < i { a } else { a + 1 };
        let b0 = if b < i { b } else { b + 1 };
        assert(r[a] == s[a0] && r[b] == s[b0]);
    }
    assert forall|a: int| 0 <= a < r.len() implies r[a] != s[i] by {
        let a0 = if a < i { a } else { a + 1 };
        assert(r[a] == s[a0]);
    }
    assert forall|x: T| x != s[i] implies (r.contains(x) <==> s.contains(x)) by {
        if s.contains(x) {
            let k = s.index_of(x);
            let k0 = if k < i { k } else { k - 1 };
            assert(r[k0] == x);
        }
        if r.contains(x) {
            let k = r.index_of(x);
            let k0 = if k < i { k } else { k + 1 };
            assert(s[k0] == x);
        }
    }
}

} // verus!
