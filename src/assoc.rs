use vstd::prelude::*;

verus! {

/// The map a list of entries stands for: a later entry for a key replaces an
/// earlier one.
pub open spec fn to_map<V>(entries: Seq<(Seq<char>, V)>) -> Map<Seq<char>, V>
    decreases entries.len(),
{
    if entries.len() == 0 {
        Map::empty()
    } else {
        to_map(entries.drop_last()).insert(entries.last().0, entries.last().1)
    }
}

/// Whether no entry at or after `from` has key `k`.
pub open spec fn absent_from<V>(entries: Seq<(Seq<char>, V)>, k: Seq<char>, from: int) -> bool {
    forall|j: int| from <= j < entries.len() ==> (#[trigger] entries[j]).0 != k
}

pub proof fn lemma_push<V>(entries: Seq<(Seq<char>, V)>, k: Seq<char>, v: V)
    ensures
        to_map(entries.push((k, v))) == to_map(entries).insert(k, v),
{
    assert(entries.push((k, v)).drop_last() =~= entries);
}

/// The last entry for a key gives its value; a key with no entry is absent.
pub proof fn lemma_lookup<V>(entries: Seq<(Seq<char>, V)>, k: Seq<char>, i: int)
    requires
        -1 <= i < entries.len(),
        i >= 0 ==> entries[i].0 == k,
        absent_from(entries, k, i + 1),
    ensures
        i >= 0 ==> to_map(entries).contains_key(k) && to_map(entries)[k] == entries[i].1,
        i < 0 ==> !to_map(entries).contains_key(k),
    decreases entries.len(),
{
    if entries.len() > 0 && i < entries.len() - 1 {
        assert(entries.drop_last().len() == entries.len() - 1);
        assert forall|j: int| i + 1 <= j < entries.drop_last().len() implies (
        #[trigger] entries.drop_last()[j]).0 != k by {
            assert(entries.drop_last()[j] == entries[j]);
        }
        assert(entries.last() == entries[entries.len() - 1]);
        if i >= 0 {
            assert(entries.drop_last()[i] == entries[i]);
        }
        lemma_lookup(entries.drop_last(), k, i);
    }
}

/// Replacing the value of the last entry for a key updates the map.
pub proof fn lemma_update_last<V>(entries: Seq<(Seq<char>, V)>, k: Seq<char>, v: V, i: int)
    requires
        0 <= i < entries.len(),
        entries[i].0 == k,
        absent_from(entries, k, i + 1),
    ensures
        to_map(entries.update(i, (k, v))) == to_map(entries).insert(k, v),
    decreases entries.len(),
{
    let u = entries.update(i, (k, v));
    if i == entries.len() - 1 {
        assert(u.drop_last() =~= entries.drop_last());
        assert(to_map(u) =~= to_map(entries).insert(k, v));
    } else {
        assert(u.drop_last() =~= entries.drop_last().update(i, (k, v)));
        assert(entries.last() == entries[entries.len() - 1]);
        assert forall|j: int| i + 1 <= j < entries.drop_last().len() implies (
        #[trigger] entries.drop_last()[j]).0 != k by {
            assert(entries.drop_last()[j] == entries[j]);
        }
        lemma_update_last(entries.drop_last(), k, v, i);
        assert(to_map(u) =~= to_map(entries).insert(k, v));
    }
}

/// Index of the last entry whose key is `key`.
pub fn find_last<T>(entries: &Vec<(String, T)>, key: &str) -> (r: Option<usize>)
    ensures
        r matches Some(i) ==> i < entries.len() && entries[i as int].0@ == key@ && forall|j: int|
            i < j < entries.len() ==> (#[trigger] entries[j]).0@ != key@,
        r is None ==> forall|j: int| 0 <= j < entries.len() ==> (#[trigger] entries[j]).0@ != key@,
{
    let k = key.to_owned();
    let mut i: usize = entries.len();
    while i > 0
        invariant
            i <= entries.len(),
            k@ == key@,
            forall|j: int| i <= j < entries.len() ==> (#[trigger] entries[j]).0@ != key@,
        decreases i,
    {
        if entries[i - 1].0 == k {
            return Some(i - 1);
        }
        i = i - 1;
    }
    None
}

} // verus!
