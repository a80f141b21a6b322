//! From the rows of the ability table to the variants of one character.

use vstd::prelude::*;
use std::collections::HashMap;
use crate::prefix::lemma_prefix_sets;
use crate::loading::AbilityEntry;

verus! {

broadcast use vstd::std_specs::hash::group_hash_axioms;

/// Whether some row is about the character `name`.
pub open spec fn has_entry(entries: Seq<AbilityEntry>, name: Seq<char>) -> bool {
    exists|i: int| 0 <= i < entries.len() && entries[i].0@ == name
}

/// The variants of the character `name`: those of all its rows together.
/// Where two of its rows give the same selector, the later row counts.
pub open spec fn merged_variants(entries: Seq<AbilityEntry>, name: Seq<char>) -> Map<u32, u32>
    decreases entries.len(),
{
    if entries.len() == 0 {
        Map::empty()
    } else {
        let earlier = merged_variants(entries.drop_last(), name);
        if entries.last().0@ == name {
            earlier.union_prefer_right(entries.last().2@)
        } else {
            earlier
        }
    }
}

/// Adds the variants of `from` to `into`; a selector that both have gets the
/// cooldown that `from` gives it.
pub fn absorb(into: &mut HashMap<u32, u32>, from: &HashMap<u32, u32>)
    ensures
        final(into)@ == old(into)@.union_prefer_right(from@),
{
    let ghost before = into@;
    for key in it: from.keys()
        invariant
            it.seq().unref().to_set() == from@.dom(),
            into@ == before.union_prefer_right(
                from@.restrict(it.seq().unref().take(it.index()).to_set()),
            ),
            it.index() == it.seq().len() ==> into@ == before.union_prefer_right(from@),
    {
        let k: u32 = *key;
        proof {
            lemma_prefix_sets::<u32>();
            assert(it.index() + 1 == it.seq().len() ==> it.seq().unref().take(it.index() + 1)
                == it.seq().unref());
        }
        match from.get(&k) {
            Some(secs) => {
                into.insert(k, *secs);
            },
            None => {},
        }
    }
}

/// Looks the character `name` up in the ability table. Returns whether any
/// row is about it, and its variants as `merged_variants` gives them.
pub fn variants_for(entries: &Vec<AbilityEntry>, name: &String) -> (out: (bool, HashMap<u32, u32>))
    ensures
        out.0 == has_entry(entries@, name@),
        out.1@ == merged_variants(entries@, name@),
{
    let mut found = false;
    let mut table: HashMap<u32, u32> = HashMap::new();
    let mut i: usize = 0;
    while i < entries.len()
        invariant
            i <= entries.len(),
            found == has_entry(entries@.take(i as int), name@),
            table@ == merged_variants(entries@.take(i as int), name@),
        decreases entries.len() - i,
    {
        let ghost shorter = entries@.take(i as int);
        let ghost longer = entries@.take(i + 1);
        proof {
            assert(longer.drop_last() == shorter);
        }
        if entries[i].0 == *name {
            found = true;
            absorb(&mut table, &entries[i].2);
            proof {
                assert(longer[i as int].0@ == name@);
            }
        } else {
            proof {
                if has_entry(longer, name@) {
                    let j = choose|j: int| 0 <= j < longer.len() && longer[j].0@ == name@;
                    assert(shorter[j].0@ == name@);
                }
            }
        }
        proof {
            if has_entry(shorter, name@) {
                let j = choose|j: int| 0 <= j < shorter.len() && shorter[j].0@ == name@;
                assert(longer[j].0@ == name@);
            }
        }
        i = i + 1;
    }
    proof {
        assert(entries@.take(entries.len() as int) == entries@);
    }
    (found, table)
}

} // verus!
