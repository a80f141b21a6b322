//! Facts about the prefixes of a sequence, for loops that walk one.

use vstd::prelude::*;

verus! {

/// The elements of a prefix of a sequence are those of the prefix one shorter,
/// and the element that the longer one ends with.
pub(crate) proof fn lemma_take_to_set<A>(s: Seq<A>, n: int)
    requires
        0 < n <= s.len(),
    ensures
        s.take(n).to_set() == s.take(n - 1).to_set().insert(s[n - 1]),
{
    let longer = s.take(n);
    let shorter = s.take(n - 1);
    assert forall|t: A| longer.to_set().contains(t) implies shorter.to_set().insert(
        s[n - 1],
    ).contains(t) by {
        let j = choose|j: int| 0 <= j < longer.len() && longer[j] == t;
        if j < n - 1 {
            assert(shorter[j] == t);
        }
    }
    assert forall|t: A| shorter.to_set().insert(s[n - 1]).contains(t) implies longer.to_set().contains(
        t,
    ) by {
        if t == s[n - 1] {
            assert(longer[n - 1] == t);
        } else {
            let j = choose|j: int| 0 <= j < shorter.len() && shorter[j] == t;
            assert(longer[j] == t);
        }
    }
    assert(longer.to_set() =~= shorter.to_set().insert(s[n - 1]));
}

/// `lemma_take_to_set` of every sequence and length at once.
pub(crate) proof fn lemma_prefix_sets<A>()
    ensures
        forall|s: Seq<A>, n: int|
            0 < n <= s.len() ==> #[trigger] s.take(n).to_set() == s.take(n - 1).to_set().insert(
                s[n - 1],
            ),
{
    assert forall|s: Seq<A>, n: int| 0 < n <= s.len() implies #[trigger] s.take(n).to_set()
        == s.take(n - 1).to_set().insert(s[n - 1]) by {
        lemma_take_to_set(s, n);
    }
}

} // verus!
