//! Insertion-ordered maps from names to counts (`indexmap::IndexMap`), as the
//! statistics summary hands them out: most frequent first.

use vstd::prelude::*;

use indexmap::IndexMap;

verus! {

#[verifier::external_type_specification]
#[verifier::external_body]
#[verifier::reject_recursive_types(K)]
#[verifier::reject_recursive_types(V)]
#[verifier::reject_recursive_types(S)]
pub struct ExIndexMap<K, V, S>(IndexMap<K, V, S>);

/// The entries of a name-to-count map, in their order.
pub uninterp spec fn count_entries(m: IndexMap<String, usize>) -> Seq<(Seq<char>, usize)>;

/// The position of the entry for `key`, or -1 if there is none.
pub open spec fn key_position(entries: Seq<(Seq<char>, usize)>, key: Seq<char>) -> int
    decreases entries.len(),
{
    if entries.len() == 0 {
        -1
    } else if entries[0].0 == key {
        0
    } else {
        let rest = key_position(entries.drop_first(), key);
        if rest < 0 {
            -1
        } else {
            rest + 1
        }
    }
}

/// The entries after inserting `key` with `value`: an entry for the key
/// keeps its place and takes the new value; otherwise the pair is appended.
pub open spec fn entries_insert(entries: Seq<(Seq<char>, usize)>, key: Seq<char>, value: usize) -> Seq<(Seq<char>, usize)> {
    let i = key_position(entries, key);
    if i >= 0 {
        entries.update(i, (key, value))
    } else {
        entries.push((key, value))
    }
}

/// The entries of an empty map after inserting `pairs` in order.
pub open spec fn entries_from(pairs: Seq<(Seq<char>, usize)>) -> Seq<(Seq<char>, usize)>
    decreases pairs.len(),
{
    if pairs.len() == 0 {
        Seq::empty()
    } else {
        entries_insert(entries_from(pairs.drop_last()), pairs.last().0, pairs.last().1)
    }
}

/// No two entries have the same key.
pub open spec fn distinct_keys(entries: Seq<(Seq<char>, usize)>) -> bool {
    forall|i: int, j: int| 0 <= i < entries.len() && 0 <= j < entries.len() && i != j ==> #[trigger] entries[i].0 != #[trigger] entries[j].0
}

/// Calls `IndexMap::new`.
///
/// Trusted: the new map has no entries.
#[verifier::external_body]
pub fn count_map_new() -> (m: IndexMap<String, usize>)
    ensures
        count_entries(m) == Seq::<(Seq<char>, usize)>::empty(),
{
    IndexMap::new()
}

/// Calls `IndexMap::insert`.
///
/// Trusted: as indexmap documents, an entry whose key equals `key` keeps its
/// place and takes `value`; otherwise the pair is inserted last. The value
/// that `insert` hands back is dropped.
#[verifier::external_body]
pub fn count_map_insert(m: &mut IndexMap<String, usize>, key: String, value: usize)
    ensures
        count_entries(*final(m)) == entries_insert(count_entries(*old(m)), key@, value),
{
    m.insert(key, value);
}

/// Where a key is found, its entry has that key; otherwise no entry has it.
pub proof fn lemma_key_position(entries: Seq<(Seq<char>, usize)>, key: Seq<char>)
    ensures
        -1 <= key_position(entries, key) < entries.len(),
        key_position(entries, key) >= 0 ==> entries[key_position(entries, key)].0 == key,
        key_position(entries, key) >= 0 ==> forall|j: int| 0 <= j < key_position(entries, key) ==> entries[j].0 != key,
        key_position(entries, key) < 0 ==> forall|j: int| 0 <= j < entries.len() ==> entries[j].0 != key,
    decreases entries.len(),
{
    if entries.len() > 0 && entries[0].0 != key {
        lemma_key_position(entries.drop_first(), key);
        assert forall|j: int| 1 <= j < entries.len() implies entries[j] == entries.drop_first()[j - 1] by {}
    }
}

/// Inserting keeps the keys distinct.
pub proof fn lemma_insert_distinct(entries: Seq<(Seq<char>, usize)>, key: Seq<char>, value: usize)
    requires
        distinct_keys(entries),
    ensures
        distinct_keys(entries_insert(entries, key, value)),
{
    lemma_key_position(entries, key);
    let r = entries_insert(entries, key, value);
    assert forall|i: int, j: int| 0 <= i < r.len() && 0 <= j < r.len() && i != j implies #[trigger] r[i].0 != #[trigger] r[j].0 by {
        if key_position(entries, key) < 0 {
            if i < entries.len() && j < entries.len() {
                assert(r[i] == entries[i] && r[j] == entries[j]);
            } else if i < entries.len() {
                assert(r[i] == entries[i]);
            } else {
                assert(r[j] == entries[j]);
            }
        }
    }
}

/// Inserting pairs whose keys are all distinct yields exactly those pairs,
/// in their order.
pub proof fn lemma_entries_from_distinct(pairs: Seq<(Seq<char>, usize)>)
    requires
        distinct_keys(pairs),
    ensures
        entries_from(pairs) == pairs,
    decreases pairs.len(),
{
    if pairs.len() > 0 {
        let init = pairs.drop_last();
        assert(distinct_keys(init)) by {
            assert forall|i: int, j: int| 0 <= i < init.len() && 0 <= j < init.len() && i != j implies #[trigger] init[i].0 != #[trigger] init[j].0 by {
                assert(init[i] == pairs[i] && init[j] == pairs[j]);
            }
        }
        lemma_entries_from_distinct(init);
        lemma_key_position(init, pairs.last().0);
        if key_position(init, pairs.last().0) >= 0 {
            let k = key_position(init, pairs.last().0);
            assert(init[k] == pairs[k]);
            assert(pairs[k].0 == pairs[pairs.len() - 1].0);
        }
        assert(init.push(pairs.last()) =~= pairs);
    }
}

} // verus!
