use vstd::prelude::*;
use std::collections::HashMap;
use std::collections::HashSet;

use crate::model::Model;

verus! {

broadcast use vstd::std_specs::hash::group_hash_axioms;

/// `m` without the keys of `ids`.
pub open spec fn without_ids<V>(m: Map<i64, V>, ids: Seq<i64>) -> Map<i64, V>
    decreases ids.len(),
{
    if ids.len() == 0 {
        m
    } else {
        without_ids(m, ids.drop_last()).remove(ids.last())
    }
}

/// The identities of a sequence of models.
pub open spec fn ids_of(models: Seq<Model>) -> Seq<i64> {
    models.map_values(|x: Model| x.id)
}

/// `m` with each model of `models` stored under its identity, in order.
pub open spec fn with_models(m: Map<i64, Model>, models: Seq<Model>) -> Map<i64, Model>
    decreases models.len(),
{
    if models.len() == 0 {
        m
    } else {
        with_models(m, models.drop_last()).insert(models.last().id, models.last())
    }
}

/// A provider's key is known to be present.
pub open spec fn key_present(keys: Map<i64, bool>, provider_id: i64) -> bool {
    keys.contains_key(provider_id) && keys[provider_id]
}

/// `m` with each model of `models` whose provider has a key stored under its
/// identity, in order.
pub open spec fn with_keyed_models(m: Map<i64, Model>, models: Seq<Model>, keys: Map<i64, bool>) -> Map<i64, Model>
    decreases models.len(),
{
    if models.len() == 0 {
        m
    } else {
        let prev = with_keyed_models(m, models.drop_last(), keys);
        if key_present(keys, models.last().provider_id) {
            prev.insert(models.last().id, models.last())
        } else {
            prev
        }
    }
}

/// Removes every key of `ids` from `m`.
pub fn remove_ids<V>(m: &mut HashMap<i64, V>, ids: &Vec<i64>)
    ensures
        final(m)@ == without_ids(old(m)@, ids@),
{
    let mut i: usize = 0;
    while i < ids.len()
        invariant
            i <= ids.len(),
            m@ == without_ids(old(m)@, ids@.subrange(0, i as int)),
        decreases ids.len() - i,
    {
        assert(ids@.subrange(0, i + 1).drop_last() == ids@.subrange(0, i as int));
        m.remove(&ids[i]);
        i += 1;
    }
    assert(ids@.subrange(0, ids.len() as int) == ids@);
}

/// Removes the identity of every model of `models` from `m`.
pub fn remove_models<V>(m: &mut HashMap<i64, V>, models: &Vec<Model>)
    ensures
        final(m)@ == without_ids(old(m)@, ids_of(models@)),
{
    let mut i: usize = 0;
    while i < models.len()
        invariant
            i <= models.len(),
            m@ == without_ids(old(m)@, ids_of(models@.subrange(0, i as int))),
        decreases models.len() - i,
    {
        assert(ids_of(models@.subrange(0, i + 1)).drop_last() == ids_of(models@.subrange(0, i as int)));
        m.remove(&models[i].id);
        i += 1;
    }
    assert(models@.subrange(0, models.len() as int) == models@);
}

/// Stores every model of `models` under its identity.
pub fn insert_models(m: &mut HashMap<i64, Model>, models: &Vec<Model>)
    ensures
        final(m)@ == with_models(old(m)@, models@),
{
    let mut i: usize = 0;
    while i < models.len()
        invariant
            i <= models.len(),
            m@ == with_models(old(m)@, models@.subrange(0, i as int)),
        decreases models.len() - i,
    {
        assert(models@.subrange(0, i + 1).drop_last() == models@.subrange(0, i as int));
        m.insert(models[i].id, models[i].clone());
        i += 1;
    }
    assert(models@.subrange(0, models.len() as int) == models@);
}

/// Stores every model of `models` whose provider has a key.
pub fn insert_keyed_models(m: &mut HashMap<i64, Model>, models: &Vec<Model>, keys: &HashMap<i64, bool>)
    ensures
        final(m)@ == with_keyed_models(old(m)@, models@, keys@),
{
    let mut i: usize = 0;
    while i < models.len()
        invariant
            i <= models.len(),
            m@ == with_keyed_models(old(m)@, models@.subrange(0, i as int), keys@),
        decreases models.len() - i,
    {
        assert(models@.subrange(0, i + 1).drop_last() == models@.subrange(0, i as int));
        let keyed = match keys.get(&models[i].provider_id) {
            Some(k) => *k,
            None => false,
        };
        if keyed {
            m.insert(models[i].id, models[i].clone());
        }
        i += 1;
    }
    assert(models@.subrange(0, models.len() as int) == models@);
}

/// Adds every identity of `ids` to `s`.
pub fn insert_ids(s: &mut HashSet<i64>, ids: &Vec<i64>)
    ensures
        final(s)@ == old(s)@ + ids@.to_set(),
{
    let mut i: usize = 0;
    while i < ids.len()
        invariant
            i <= ids.len(),
            s@ == old(s)@ + ids@.subrange(0, i as int).to_set(),
        decreases ids.len() - i,
    {
        assert(ids@.subrange(0, i + 1) == ids@.subrange(0, i as int).push(ids@[i as int]));
        proof { ids@.subrange(0, i as int).lemma_push_to_set_commute(ids@[i as int]); }
        s.insert(ids[i]);
        assert(s@ =~= old(s)@ + ids@.subrange(0, i + 1).to_set());
        i += 1;
    }
    assert(ids@.subrange(0, ids.len() as int) == ids@);
}

/// A key of `ids` is absent from `without_ids(m, ids)`, and every other key
/// keeps its value.
pub proof fn lemma_without_ids(m: Map<i64, Model>, ids: Seq<i64>, k: i64)
    ensures
        ids.contains(k) ==> !without_ids(m, ids).contains_key(k),
        !ids.contains(k) ==> (without_ids(m, ids).contains_key(k) == m.contains_key(k) && (m.contains_key(k)
            ==> without_ids(m, ids)[k] == m[k])),
    decreases ids.len(),
{
    if ids.len() > 0 {
        lemma_without_ids(m, ids.drop_last(), k);
        if ids.contains(k) && k != ids.last() {
            let i = choose|i: int| 0 <= i < ids.len() && ids[i] == k;
            assert(ids.drop_last()[i] == k);
        }
        if !ids.contains(k) {
            assert(k != ids[ids.len() - 1]);
            assert forall|i: int| 0 <= i < ids.drop_last().len() implies ids.drop_last()[i] != k by {
                assert(ids.drop_last()[i] == ids[i]);
            }
        }
    }
}

} // verus!
