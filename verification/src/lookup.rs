use vstd::prelude::*;

verus! {

/// The index of the first occurrence of `key` in `keys`, if any.
pub open spec fn first_index_of(keys: Seq<u32>, key: u32) -> Option<int>
    decreases keys.len(),
{
    if keys.len() == 0 {
        None
    } else {
        match first_index_of(keys.drop_last(), key) {
            Some(i) => Some(i),
            None => if keys.last() == key { Some(keys.len() - 1) } else { None },
        }
    }
}

/// The first occurrence holds the key and no earlier position does; when
/// there is none, no position holds the key.
pub(crate) proof fn lemma_first_index_of(keys: Seq<u32>, key: u32)
    ensures
        match first_index_of(keys, key) {
            Some(i) => 0 <= i < keys.len() && keys[i] == key
                && forall|k: int| 0 <= k < i ==> #[trigger] keys[k] != key,
            None => forall|k: int| 0 <= k < keys.len() ==> #[trigger] keys[k] != key,
        },
    decreases keys.len(),
{
    if keys.len() > 0 {
        lemma_first_index_of(keys.drop_last(), key);
        assert forall|k: int| 0 <= k < keys.len() - 1 implies #[trigger] keys[k] == keys.drop_last()[k] by {}
    }
}

} // verus!
