//! Building a hash map from a list of key/value pairs, inserted in order, so
//! that the last pair of a key decides its value.
use std::collections::HashMap;
use std::hash::Hash;
use vstd::prelude::*;
use vstd::std_specs::hash::obeys_key_model;

verus! {

/// The map that inserting `pairs` one after another into an empty map gives.
pub open spec fn map_of_pairs<K, V>(pairs: Seq<(K, V)>) -> Map<K, V>
    decreases pairs.len(),
{
    if pairs.len() == 0 {
        Map::empty()
    } else {
        map_of_pairs(pairs.drop_last()).insert(pairs.last().0, pairs.last().1)
    }
}

/// The keys that occur in `pairs`.
pub open spec fn keys_of<K, V>(pairs: Seq<(K, V)>) -> Set<K> {
    Set::new(|k: K| exists|i: int| 0 <= i < pairs.len() && #[trigger] pairs[i].0 == k)
}

/// Builds a map holding `pairs`, inserted in the order given.
pub fn map_of<K: Copy + Eq + Hash, V: Copy>(pairs: &[(K, V)]) -> (r: HashMap<K, V>)
    requires
        obeys_key_model::<K>(),
    ensures
        r@ == map_of_pairs(pairs@),
{
    let mut m: HashMap<K, V> = HashMap::new();
    let mut i: usize = 0;
    while i < pairs.len()
        invariant
            i <= pairs@.len(),
            obeys_key_model::<K>(),
            m@ == map_of_pairs(pairs@.subrange(0, i as int)),
        decreases pairs@.len() - i,
    {
        let (k, v) = pairs[i];
        m.insert(k, v);
        assert(pairs@.subrange(0, i + 1).drop_last() =~= pairs@.subrange(0, i as int));
        i = i + 1;
    }
    assert(pairs@.subrange(0, pairs@.len() as int) =~= pairs@);
    m
}

/// A key maps to the value of its last pair: if no pair after the `i`th has
/// its key, the map holds the `i`th pair.
pub proof fn lemma_last_write_wins<K, V>(pairs: Seq<(K, V)>, i: int)
    requires
        0 <= i < pairs.len(),
        forall|j: int| i < j < pairs.len() ==> #[trigger] pairs[j].0 != pairs[i].0,
    ensures
        map_of_pairs(pairs).contains_key(pairs[i].0),
        map_of_pairs(pairs)[pairs[i].0] == pairs[i].1,
    decreases pairs.len(),
{
    if i < pairs.len() - 1 {
        let front = pairs.drop_last();
        assert forall|j: int| i < j < front.len() implies #[trigger] front[j].0 != front[i].0 by {
            assert(front[j] == pairs[j]);
        }
        lemma_last_write_wins(front, i);
        assert(pairs.last().0 != pairs[i].0);
    }
}

/// The keys of the map are exactly the keys that occur in the pairs; any
/// other key is absent.
pub proof fn lemma_keys<K, V>(pairs: Seq<(K, V)>)
    ensures
        map_of_pairs(pairs).dom() == keys_of(pairs),
    decreases pairs.len(),
{
    if pairs.len() > 0 {
        let front = pairs.drop_last();
        lemma_keys(front);
        assert forall|k: K| #[trigger] keys_of(pairs).contains(k) <==> (keys_of(front).contains(k)
            || k == pairs.last().0) by {
            if keys_of(pairs).contains(k) {
                let i = choose|i: int| 0 <= i < pairs.len() && #[trigger] pairs[i].0 == k;
                if i < front.len() {
                    assert(front[i] == pairs[i]);
                }
            }
            if keys_of(front).contains(k) {
                let i = choose|i: int| 0 <= i < front.len() && #[trigger] front[i].0 == k;
                assert(front[i] == pairs[i]);
            }
            if k == pairs.last().0 {
                assert(pairs[pairs.len() - 1].0 == k);
            }
        }
        assert(map_of_pairs(pairs).dom() =~= keys_of(pairs));
    } else {
        assert(map_of_pairs(pairs).dom() =~= keys_of(pairs));
    }
}

/// No pairs give the empty map.
pub proof fn lemma_no_pairs<K, V>()
    ensures
        map_of_pairs(Seq::<(K, V)>::empty()) == Map::<K, V>::empty(),
{
}

/// Inserting `first` and then `second` gives the map of `first` overwritten
/// by the map of `second`.
pub proof fn lemma_concat<K, V>(first: Seq<(K, V)>, second: Seq<(K, V)>)
    ensures
        map_of_pairs(first + second) == map_of_pairs(first).union_prefer_right(
            map_of_pairs(second),
        ),
    decreases second.len(),
{
    if second.len() == 0 {
        assert(first + second =~= first);
        assert(map_of_pairs(first).union_prefer_right(map_of_pairs(second)) =~= map_of_pairs(
            first,
        ));
    } else {
        lemma_concat(first, second.drop_last());
        assert((first + second).drop_last() =~= first + second.drop_last());
        assert(map_of_pairs(first + second) =~= map_of_pairs(first).union_prefer_right(
            map_of_pairs(second),
        ));
    }
}

/// Inserting the same pairs a second time changes nothing: building twice
/// from the same list gives the same map as building once.
pub proof fn lemma_repeat_idempotent<K, V>(pairs: Seq<(K, V)>)
    ensures
        map_of_pairs(pairs + pairs) == map_of_pairs(pairs),
{
    lemma_concat(pairs, pairs);
    assert(map_of_pairs(pairs).union_prefer_right(map_of_pairs(pairs)) =~= map_of_pairs(pairs));
}

} // verus!
