use vstd::prelude::*;

verus! {

/// The map a key–value entry sequence folds to, a later entry for an equal
/// key shadowing an earlier one.
pub open spec fn fold_map<K, V>(s: Seq<(K, V)>) -> Map<K, V>
    decreases s.len(),
{
    if s.len() == 0 {
        Map::empty()
    } else {
        fold_map(s.drop_last()).insert(s.last().0, s.last().1)
    }
}

/// A key is in the folded map exactly when some entry carries it.
pub proof fn lemma_fold_map_dom<K, V>(s: Seq<(K, V)>)
    ensures
        forall|k: K|
            #[trigger] fold_map(s).dom().contains(k) <==> exists|i: int|
                0 <= i < s.len() && (#[trigger] s[i]).0 == k,
    decreases s.len(),
{
    if s.len() > 0 {
        lemma_fold_map_dom(s.drop_last());
        assert(fold_map(s) == fold_map(s.drop_last()).insert(s.last().0, s.last().1));
        assert forall|k: K| fold_map(s).dom().contains(k) implies exists|i: int|
            0 <= i < s.len() && (#[trigger] s[i]).0 == k by {
            if k == s.last().0 {
                assert(s[s.len() - 1].0 == k);
            } else {
                assert(fold_map(s.drop_last()).dom().contains(k));
                let i = choose|i: int|
                    0 <= i < s.drop_last().len() && (#[trigger] s.drop_last()[i]).0 == k;
                assert(s.drop_last()[i] == s[i]);
                assert(s[i].0 == k);
            }
        }
        assert forall|k: K| exists|i: int| 0 <= i < s.len() && (#[trigger] s[i]).0 == k implies fold_map(
            s,
        ).dom().contains(k) by {
            let i = choose|i: int| 0 <= i < s.len() && (#[trigger] s[i]).0 == k;
            if i < s.len() - 1 {
                assert(s.drop_last()[i].0 == k);
            }
        }
    }
}

/// The folded map carries, for a key, the value of the last entry with it.
pub proof fn lemma_fold_map_last<K, V>(s: Seq<(K, V)>, i: int)
    requires
        0 <= i < s.len(),
        forall|j: int| i < j < s.len() ==> (#[trigger] s[j]).0 != s[i].0,
    ensures
        fold_map(s).dom().contains(s[i].0),
        fold_map(s)[s[i].0] == s[i].1,
    decreases s.len(),
{
    if i == s.len() - 1 {
    } else {
        lemma_fold_map_last(s.drop_last(), i);
        assert(s.drop_last()[i] == s[i]);
    }
}

} // verus!
