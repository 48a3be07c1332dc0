//! Sets of identifiers: the operations that the cache and the engine need
//! beyond those of `HashSet` itself.

use std::collections::{HashMap, HashSet};
use vstd::prelude::*;
use vstd::std_specs::hash::*;
use vstd::std_specs::iter::IteratorSpec;

verus! {

broadcast use vstd::std_specs::hash::group_hash_axioms;

/// The identifiers that a walk over `keys` meets are exactly those of
/// `ids`, each once.
pub open spec fn walks<K>(keys: Seq<&K>, ids: Set<K>) -> bool {
    &&& forall|j: int| 0 <= j < keys.len() ==> ids.contains(*#[trigger] keys[j])
    &&& forall|x: K| ids.contains(x) ==> exists|j: int| 0 <= j < keys.len() && *#[trigger] keys[j] == x
    &&& forall|i: int, j: int| 0 <= i < j < keys.len() ==> *#[trigger] keys[i] != *#[trigger] keys[j]
}

/// Whether a walk over `keys` meets `id` within its first `count` steps.
pub open spec fn met_within<K>(keys: Seq<&K>, count: int, id: K) -> bool {
    exists|j: int| 0 <= j < count && j < keys.len() && *#[trigger] keys[j] == id
}

/// Whether `list` holds what is wanted of the first `count` steps of a walk
/// over `keys`: each wanted identifier that the walk has met, once, and
/// nothing else.
pub open spec fn gathered<K>(keys: Seq<&K>, count: int, list: Seq<K>, wanted: spec_fn(K) -> bool) -> bool {
    &&& forall|i: int|
        0 <= i < list.len() ==> met_within(keys, count, #[trigger] list[i]) && wanted(list[i])
    &&& forall|i: int, j: int| 0 <= i < j < list.len() ==> #[trigger] list[i] != #[trigger] list[j]
    &&& forall|j: int|
        0 <= j < count && j < keys.len() && wanted(*#[trigger] keys[j]) ==> list.contains(*keys[j])
}

/// One more step of a walk: where the identifier that it meets is wanted
/// and is added to the list, and where it is not wanted and the list stays,
/// the list holds what is wanted of the walk so far.
pub proof fn lemma_gather_step<K>(
    keys: Seq<&K>,
    ids: Set<K>,
    count: int,
    list: Seq<K>,
    longer: Seq<K>,
    wanted: spec_fn(K) -> bool,
)
    requires
        walks(keys, ids),
        0 <= count < keys.len(),
        gathered(keys, count, list, wanted),
        longer == (if wanted(*keys[count]) {
            list.push(*keys[count])
        } else {
            list
        }),
    ensures
        gathered(keys, count + 1, longer, wanted),
{
    assert forall|i: int| 0 <= i < longer.len() implies met_within(keys, count + 1, #[trigger] longer[i])
        && wanted(longer[i]) by {
        if i < list.len() {
            assert(met_within(keys, count, list[i]));
            let j = choose|j: int| 0 <= j < count && j < keys.len() && *#[trigger] keys[j] == list[i];
            assert(*keys[j] == longer[i]);
        } else {
            assert(*keys[count] == longer[i]);
        }
    }
    assert forall|i: int, j: int| 0 <= i < j < longer.len() implies #[trigger] longer[i]
        != #[trigger] longer[j] by {
        if j >= list.len() {
            assert(met_within(keys, count, list[i]));
            let k = choose|k: int| 0 <= k < count && k < keys.len() && *#[trigger] keys[k] == list[i];
            assert(*keys[k] != *keys[count]);
        }
    }
    assert forall|j: int| 0 <= j < count + 1 && j < keys.len() && wanted(*#[trigger] keys[j]) implies longer.contains(
        *keys[j],
    ) by {
        if j < count {
            assert(list.contains(*keys[j]));
            let i = choose|i: int| 0 <= i < list.len() && list[i] == *keys[j];
            assert(longer[i] == *keys[j]);
        } else {
            assert(longer[longer.len() - 1] == *keys[j]);
        }
    }
}

/// At the end of a walk the list holds exactly the wanted identifiers of
/// the set that was walked, each once.
pub proof fn lemma_gathered_all<K>(keys: Seq<&K>, ids: Set<K>, list: Seq<K>, wanted: spec_fn(K) -> bool)
    requires
        walks(keys, ids),
        gathered(keys, keys.len() as int, list, wanted),
    ensures
        forall|x: K| list.contains(x) <==> ids.contains(x) && wanted(x),
        list.no_duplicates(),
{
    assert forall|x: K| list.contains(x) <==> ids.contains(x) && wanted(x) by {
        if list.contains(x) {
            let i = choose|i: int| 0 <= i < list.len() && list[i] == x;
            assert(met_within(keys, keys.len() as int, list[i]));
        }
        if ids.contains(x) && wanted(x) {
            let j = choose|j: int| 0 <= j < keys.len() && *#[trigger] keys[j] == x;
            assert(list.contains(*keys[j]));
        }
    }
    assert forall|i: int, j: int| 0 <= i < list.len() && 0 <= j < list.len() && i != j implies list[i]
        != list[j] by {
        if i < j {
            assert(list[i] != list[j]);
        } else {
            assert(list[j] != list[i]);
        }
    }
}

/// What a walk meets is what the set of its steps holds.
pub proof fn lemma_steps_walk<K>(keys: Seq<&K>, ids: Set<K>)
    requires
        keys.unref().to_set() == ids,
        keys.no_duplicates(),
    ensures
        walks(keys, ids),
{
    assert forall|j: int| 0 <= j < keys.len() implies ids.contains(*#[trigger] keys[j]) by {
        assert(keys.unref()[j] == *keys[j]);
        assert(keys.unref().to_set().contains(keys.unref()[j]));
    }
    assert forall|x: K| ids.contains(x) implies exists|j: int|
        0 <= j < keys.len() && *#[trigger] keys[j] == x by {
        assert(keys.unref().to_set().contains(x));
        let j = choose|j: int| 0 <= j < keys.unref().len() && keys.unref()[j] == x;
        assert(*keys[j] == x);
    }
    assert forall|i: int, j: int| 0 <= i < j < keys.len() implies *#[trigger] keys[i]
        != *#[trigger] keys[j] by {
        assert(keys[i] != keys[j]);
    }
}

/// A walk over a hash set meets each of its identifiers, once.
pub proof fn lemma_iter_walks(ids: &HashSet<u64>)
    ensures
        walks(ids.iter().remaining(), ids@),
{
    lemma_steps_walk(ids.iter().remaining(), ids@);
}

/// A walk over the keys of a hash map meets each of its keys, once.
pub proof fn lemma_keys_walk<K, V>(map: &HashMap<K, V>)
    ensures
        walks(map.keys().remaining(), map@.dom()),
{
    lemma_steps_walk(map.keys().remaining(), map@.dom());
}

/// The first entries of a list and the next one hold what one more of its
/// first entries hold.
pub proof fn lemma_take_to_set_step<K>(list: Seq<K>, count: int)
    requires
        0 <= count < list.len(),
    ensures
        list.take(count + 1).to_set() == list.take(count).to_set().insert(list[count]),
{
    let shorter = list.take(count);
    let longer = list.take(count + 1);
    assert forall|x: K| longer.to_set().contains(x) <==> shorter.to_set().insert(list[count]).contains(x) by {
        if longer.contains(x) {
            let j = choose|j: int| 0 <= j < longer.len() && longer[j] == x;
            if j < count {
                assert(shorter[j] == x);
            }
        }
        if shorter.contains(x) {
            let j = choose|j: int| 0 <= j < shorter.len() && shorter[j] == x;
            assert(longer[j] == x);
        }
        assert(longer[count] == list[count]);
    }
    assert(longer.to_set() =~= shorter.to_set().insert(list[count]));
}

/// A hash set holds finitely many identifiers.
pub proof fn lemma_ids_finite(ids: &HashSet<u64>)
    ensures
        ids@.finite(),
{
    let keys = ids.iter().remaining();
    assert(keys.unref().to_set() == ids@);
    vstd::seq_lib::seq_to_set_is_finite(keys.unref());
}

/// Adds every identifier of `source` to `target`.
pub fn extend_ids(target: &mut HashSet<u64>, source: &HashSet<u64>)
    ensures
        final(target)@ == old(target)@.union(source@),
{
    let ghost before = target@;
    let ghost keys = source.iter().remaining();
    proof {
        lemma_iter_walks(source);
    }
    for id in it: source.iter()
        invariant
            it.seq() == keys,
            walks(keys, source@),
            forall|x: u64|
                #[trigger] target@.contains(x) ==> before.contains(x) || source@.contains(x),
            forall|x: u64| before.contains(x) ==> #[trigger] target@.contains(x),
            forall|j: int| 0 <= j < it.index() ==> target@.contains(*#[trigger] keys[j]),
    {
        target.insert(*id);
    }
    assert(target@ =~= before.union(source@));
}

/// A set of its own that holds the identifiers of `source`.
pub fn copy_ids(source: &HashSet<u64>) -> (copy: HashSet<u64>)
    ensures
        copy@ == source@,
{
    let mut copy: HashSet<u64> = HashSet::new();
    extend_ids(&mut copy, source);
    assert(copy@ =~= source@);
    copy
}

/// The set that holds the identifiers of `ids`, each once.
pub fn ids_from_vec(ids: &Vec<u64>) -> (set: HashSet<u64>)
    ensures
        set@ == ids@.to_set(),
{
    let mut set: HashSet<u64> = HashSet::new();
    let mut i: usize = 0;
    while i < ids.len()
        invariant
            i <= ids.len(),
            set@ == ids@.take(i as int).to_set(),
        decreases ids.len() - i,
    {
        set.insert(ids[i]);
        proof {
            lemma_take_to_set_step(ids@, i as int);
        }
        i += 1;
    }
    assert(ids@.take(ids.len() as int) == ids@);
    set
}

/// The identifiers of `ids`, each once, in the order in which the set is
/// walked.
pub fn ids_to_vec(ids: &HashSet<u64>) -> (list: Vec<u64>)
    ensures
        list@.to_set() == ids@,
        list@.no_duplicates(),
        list@.len() == ids@.len(),
{
    let ghost keys = ids.iter().remaining();
    proof {
        lemma_iter_walks(ids);
    }
    let mut list: Vec<u64> = Vec::new();
    for id in it: ids.iter()
        invariant
            it.seq() == keys,
            walks(keys, ids@),
            keys.len() == ids@.len(),
            list@.len() == it.index(),
            forall|j: int| 0 <= j < it.index() ==> list@[j] == *#[trigger] keys[j],
    {
        list.push(*id);
    }
    assert(list@.no_duplicates()) by {
        assert forall|i: int, j: int| 0 <= i < list@.len() && 0 <= j < list@.len() && i != j implies list@[i]
            != list@[j] by {
            if i < j {
                assert(*keys[i] != *keys[j]);
            } else {
                assert(*keys[j] != *keys[i]);
            }
        }
    }
    assert(list@.to_set() =~= ids@) by {
        assert forall|x: u64| list@.to_set().contains(x) <==> ids@.contains(x) by {
            if list@.contains(x) {
                let j = choose|j: int| 0 <= j < list@.len() && list@[j] == x;
                assert(*keys[j] == x);
            }
            if ids@.contains(x) {
                let j = choose|j: int| 0 <= j < keys.len() && *#[trigger] keys[j] == x;
                assert(list@[j] == x);
            }
        }
    }
    list
}

} // verus!
