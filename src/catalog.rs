use vstd::prelude::*;

use crate::event::InferenceEvent;
use crate::model::Model;
use crate::provider::Provider;

verus! {

broadcast use vstd::seq_lib::group_filter_ensures, vstd::seq::Seq::lemma_filter_push;

/// A provider's catalog must be fetched on this pass: either its availability
/// is only known from a successful fetch, or it refreshes its catalog from a
/// list and the refresh interval has run out at time `now` (seconds).
pub open spec fn refresh_due(p: Provider, now: i64) -> bool {
    p.availability_requires_models_response || (p.models_from_list && now as int
        > p.last_models_update_timestamp as int + p.models_refresh_interval_seconds as int)
}

pub open spec fn due_at(now: i64) -> spec_fn(Provider) -> bool {
    |p: Provider| refresh_due(p, now)
}

/// Some model of `s` is named `n`.
pub open spec fn has_name(s: Seq<Model>, n: Seq<char>) -> bool {
    exists|i: int| 0 <= i < s.len() && (#[trigger] s[i]).model@ == n
}

/// Models whose name does not occur in `s`.
pub open spec fn absent_from(s: Seq<Model>) -> spec_fn(Model) -> bool {
    |m: Model| !has_name(s, m.model@)
}

pub open spec fn of_provider(provider_id: i64) -> spec_fn(Model) -> bool {
    |m: Model| m.provider_id == provider_id
}

pub open spec fn model_id_of() -> spec_fn(Model) -> i64 {
    |m: Model| m.id
}

/// Live models that the known catalog lacks, matched by name (identities are
/// assigned by the store, so they cannot be compared).
pub open spec fn models_to_insert(known: Seq<Model>, live: Seq<Model>) -> Seq<Model> {
    live.filter(absent_from(known))
}

/// Identities of known models that the live catalog no longer lists.
pub open spec fn ids_to_remove(known: Seq<Model>, live: Seq<Model>) -> Seq<i64> {
    known.filter(absent_from(live)).map_values(model_id_of())
}

/// The known catalog after the store applied a diff: removed identities are
/// gone and inserted models are added.
pub open spec fn applied(known: Seq<Model>, to_insert: Seq<Model>, to_remove: Seq<i64>) -> Seq<Model> {
    known.filter(|m: Model| !to_remove.contains(m.id)) + to_insert
}

/// No two models share an identity.
pub open spec fn distinct_ids(s: Seq<Model>) -> bool {
    forall|i: int, j: int| 0 <= i < s.len() && 0 <= j < s.len() && s[i].id == s[j].id ==> i == j
}

/// Whether a provider's catalog must be fetched at time `now`.
pub fn needs_refresh(p: &Provider, now: i64) -> (r: bool)
    ensures
        r == refresh_due(*p, now),
{
    if p.availability_requires_models_response {
        return true;
    }
    if !p.models_from_list {
        return false;
    }
    (now as i128) > (p.last_models_update_timestamp as i128) + (p.models_refresh_interval_seconds as i128)
}

/// The providers whose catalog must be fetched on a pass at time `now`.
pub fn providers_to_refresh(providers: &Vec<Provider>, now: i64) -> (r: Vec<Provider>)
    ensures
        r@ == providers@.filter(due_at(now)),
{
    let mut r: Vec<Provider> = Vec::new();
    let mut i: usize = 0;
    while i < providers.len()
        invariant
            i <= providers.len(),
            r@ == providers@.subrange(0, i as int).filter(due_at(now)),
        decreases providers.len() - i,
    {
        assert(providers@.subrange(0, i + 1) == providers@.subrange(0, i as int).push(providers@[i as int]));
        if needs_refresh(&providers[i], now) {
            r.push(providers[i].clone());
        }
        i += 1;
    }
    assert(providers@.subrange(0, providers.len() as int) == providers@);
    r
}

/// The known models of one provider.
pub fn models_of_provider(models: &Vec<Model>, provider_id: i64) -> (r: Vec<Model>)
    ensures
        r@ == models@.filter(of_provider(provider_id)),
{
    let mut r: Vec<Model> = Vec::new();
    let mut i: usize = 0;
    while i < models.len()
        invariant
            i <= models.len(),
            r@ == models@.subrange(0, i as int).filter(of_provider(provider_id)),
        decreases models.len() - i,
    {
        assert(models@.subrange(0, i + 1) == models@.subrange(0, i as int).push(models@[i as int]));
        if models[i].provider_id == provider_id {
            r.push(models[i].clone());
        }
        i += 1;
    }
    assert(models@.subrange(0, models.len() as int) == models@);
    r
}

/// Whether some model of `models` is named `name`.
pub fn contains_name(models: &Vec<Model>, name: &String) -> (r: bool)
    ensures
        r == has_name(models@, name@),
{
    let mut i: usize = 0;
    while i < models.len()
        invariant
            i <= models.len(),
            forall|j: int| 0 <= j < i ==> (#[trigger] models@[j]).model@ != name@,
        decreases models.len() - i,
    {
        if models[i].model == *name {
            return true;
        }
        i += 1;
    }
    false
}

/// What reconciling one provider's catalog asks of the store.
pub struct CatalogDiff {
    pub to_insert: Vec<Model>,
    pub to_remove: Vec<i64>,
}

/// Diffs a provider's live catalog against its known one.
pub fn catalog_diff(known: &Vec<Model>, live: &Vec<Model>) -> (r: CatalogDiff)
    ensures
        r.to_insert@ == models_to_insert(known@, live@),
        r.to_remove@ == ids_to_remove(known@, live@),
{
    let mut to_insert: Vec<Model> = Vec::new();
    let mut i: usize = 0;
    while i < live.len()
        invariant
            i <= live.len(),
            to_insert@ == live@.subrange(0, i as int).filter(absent_from(known@)),
        decreases live.len() - i,
    {
        assert(live@.subrange(0, i + 1) == live@.subrange(0, i as int).push(live@[i as int]));
        if !contains_name(known, &live[i].model) {
            to_insert.push(live[i].clone());
        }
        i += 1;
    }
    assert(live@.subrange(0, live.len() as int) == live@);
    let mut stale: Vec<Model> = Vec::new();
    let mut to_remove: Vec<i64> = Vec::new();
    let mut k: usize = 0;
    while k < known.len()
        invariant
            k <= known.len(),
            stale@ == known@.subrange(0, k as int).filter(absent_from(live@)),
            to_remove@ == stale@.map_values(model_id_of()),
        decreases known.len() - k,
    {
        assert(known@.subrange(0, k + 1) == known@.subrange(0, k as int).push(known@[k as int]));
        if !contains_name(live, &known[k].model) {
            stale.push(known[k].clone());
            to_remove.push(known[k].id);
            assert(to_remove@ =~= stale@.map_values(model_id_of()));
        }
        k += 1;
    }
    assert(known@.subrange(0, known.len() as int) == known@);
    CatalogDiff { to_insert, to_remove }
}

/// Reconciliation is a diff-and-apply: once the store has applied the diff of
/// a live catalog, diffing the same live catalog again asks for nothing.
pub proof fn lemma_reconcile_idempotent(known: Seq<Model>, live: Seq<Model>)
    requires
        distinct_ids(known),
    ensures
        ({
            let after = applied(known, models_to_insert(known, live), ids_to_remove(known, live));
            &&& models_to_insert(after, live).len() == 0
            &&& ids_to_remove(after, live).len() == 0
        }),
{
    let ins = models_to_insert(known, live);
    let stale = known.filter(absent_from(live));
    let rem = ids_to_remove(known, live);
    let keep = |m: Model| !rem.contains(m.id);
    let kept = known.filter(keep);
    let after = kept + ins;
    // Every live name is in `after`.
    assert forall|i: int| 0 <= i < live.len() implies has_name(after, (#[trigger] live[i]).model@) by {
        let l = live[i];
        if has_name(known, l.model@) {
            let j = choose|j: int| 0 <= j < known.len() && (#[trigger] known[j]).model@ == l.model@;
            let k = known[j];
            if rem.contains(k.id) {
                let r = choose|r: int| 0 <= r < rem.len() && rem[r] == k.id;
                assert(stale.contains(stale[r]));
                known.lemma_filter_contains_rev(absent_from(live), stale[r]);
                let q = choose|q: int| 0 <= q < known.len() && known[q] == stale[r];
                assert(known[q].id == known[j].id);
                assert(!has_name(live, stale[r].model@));
                assert(has_name(live, l.model@));
                assert(false);
            }
            assert(keep(k));
            known.lemma_filter_contains(keep, j);
            let p = choose|p: int| 0 <= p < kept.len() && kept[p] == k;
            assert(after[p] == k);
        } else {
            live.lemma_filter_contains(absent_from(known), i);
            let p = choose|p: int| 0 <= p < ins.len() && ins[p] == l;
            assert(after[kept.len() + p] == l);
        }
    }
    let ins2 = models_to_insert(after, live);
    if ins2.len() > 0 {
        assert(ins2.contains(ins2[0]));
        live.lemma_filter_contains_rev(absent_from(after), ins2[0]);
        let q = choose|q: int| 0 <= q < live.len() && live[q] == ins2[0];
        assert(has_name(after, live[q].model@));
    }
    // Every name in `after` is live.
    assert forall|i: int| 0 <= i < after.len() implies has_name(live, (#[trigger] after[i]).model@) by {
        if i < kept.len() {
            assert(kept.contains(kept[i]));
            let m = kept[i];
            assert(keep(m));
            if !has_name(live, m.model@) {
                known.lemma_filter_contains_rev(keep, m);
                let x = choose|x: int| 0 <= x < known.len() && known[x] == m;
                known.lemma_filter_contains(absent_from(live), x);
                let s = choose|s: int| 0 <= s < stale.len() && stale[s] == m;
                assert(rem[s] == m.id);
                assert(rem.contains(m.id));
            }
        } else {
            let m = ins[i - kept.len()];
            assert(ins.contains(m));
            live.lemma_filter_contains_rev(absent_from(known), m);
            let q = choose|q: int| 0 <= q < live.len() && live[q] == m;
            assert(live[q].model@ == m.model@);
        }
    }
    let stale2 = after.filter(absent_from(live));
    if stale2.len() > 0 {
        assert(stale2.contains(stale2[0]));
        after.lemma_filter_contains_rev(absent_from(live), stale2[0]);
        let q = choose|q: int| 0 <= q < after.len() && after[q] == stale2[0];
        assert(has_name(live, after[q].model@));
    }
}

} // verus!

verus! {

/// What fetching a provider's live catalog gave.
pub enum FetchOutcome {
    /// The provider has no active client, so nothing was fetched.
    NoClient,
    /// The live catalog.
    Fetched(Vec<Model>),
    /// The fetch failed.
    Failed,
}

/// What a pass does about one provider.
pub enum ProviderAction {
    /// Nothing.
    Skip,
    /// Apply this diff in the store, in one transaction with the refresh time.
    Sync(CatalogDiff),
    /// Mark the provider down; these models become unavailable until its next
    /// successful fetch. Nothing is removed from the store.
    MarkDown(Vec<Model>),
}

/// Decides what to do about provider `provider_id`, whose catalog was fetched
/// with `outcome`, given every known model.
pub fn reconcile_provider(known: &Vec<Model>, provider_id: i64, outcome: FetchOutcome) -> (r: ProviderAction)
    ensures
        outcome is NoClient ==> r is Skip,
        outcome matches FetchOutcome::Fetched(live) ==> (r matches ProviderAction::Sync(d) && d.to_insert@
            == models_to_insert(known@.filter(of_provider(provider_id)), live@) && d.to_remove@
            == ids_to_remove(known@.filter(of_provider(provider_id)), live@)),
        outcome is Failed ==> (r matches ProviderAction::MarkDown(ms) && ms@ == known@.filter(
            of_provider(provider_id),
        )),
{
    match outcome {
        FetchOutcome::NoClient => ProviderAction::Skip,
        FetchOutcome::Fetched(live) => {
            let own = models_of_provider(known, provider_id);
            ProviderAction::Sync(catalog_diff(&own, &live))
        },
        FetchOutcome::Failed => ProviderAction::MarkDown(models_of_provider(known, provider_id)),
    }
}

/// The changes gathered over one reconciliation pass, reported as one event.
pub struct RefreshPass {
    pub added_models: Vec<Model>,
    pub removed_model_ids: Vec<i64>,
    pub temporarily_unavailable_models: Vec<Model>,
    pub providers_to_remove: Vec<i64>,
}

impl RefreshPass {
    /// A pass with nothing recorded yet.
    pub fn new() -> (r: Self)
        ensures
            r.added_models@.len() == 0 && r.removed_model_ids@.len() == 0,
            r.temporarily_unavailable_models@.len() == 0 && r.providers_to_remove@.len() == 0,
    {
        RefreshPass {
            added_models: Vec::new(),
            removed_model_ids: Vec::new(),
            temporarily_unavailable_models: Vec::new(),
            providers_to_remove: Vec::new(),
        }
    }

    /// Records what the store inserted and deprecated for one provider.
    pub fn record_synced(&mut self, added: Vec<Model>, removed: Vec<i64>)
        ensures
            final(self).added_models@ == old(self).added_models@ + added@,
            final(self).removed_model_ids@ == old(self).removed_model_ids@ + removed@,
            final(self).temporarily_unavailable_models@ == old(self).temporarily_unavailable_models@,
            final(self).providers_to_remove@ == old(self).providers_to_remove@,
    {
        let mut added = added;
        let mut removed = removed;
        self.added_models.append(&mut added);
        self.removed_model_ids.append(&mut removed);
    }

    /// Records a provider whose fetch failed, with its known models.
    pub fn record_unreachable(&mut self, provider_id: i64, models: Vec<Model>)
        ensures
            final(self).added_models@ == old(self).added_models@,
            final(self).removed_model_ids@ == old(self).removed_model_ids@,
            final(self).temporarily_unavailable_models@ == old(self).temporarily_unavailable_models@ + models@,
            final(self).providers_to_remove@ == old(self).providers_to_remove@.push(provider_id),
    {
        let mut models = models;
        self.temporarily_unavailable_models.append(&mut models);
        self.providers_to_remove.push(provider_id);
    }

    /// The single event that reports the whole pass.
    pub fn into_event(self) -> (r: InferenceEvent)
        ensures
            r matches InferenceEvent::ModelsRefreshed {
                added_models,
                removed_model_ids,
                temporarily_unavailable_models,
                providers_to_remove,
            } && added_models@ == self.added_models@ && removed_model_ids@ == self.removed_model_ids@
                && temporarily_unavailable_models@ == self.temporarily_unavailable_models@
                && providers_to_remove@ == self.providers_to_remove@,
    {
        InferenceEvent::ModelsRefreshed {
            added_models: self.added_models,
            removed_model_ids: self.removed_model_ids,
            temporarily_unavailable_models: self.temporarily_unavailable_models,
            providers_to_remove: self.providers_to_remove,
        }
    }
}

/// The first enabled model of a provider's models (listed by identity), the
/// seed of a default profile.
pub fn first_enabled_model(models: &Vec<Model>) -> (r: Option<i64>)
    ensures
        r matches Some(id) ==> exists|i: int| 0 <= i < models@.len() && models@[i].id == id && !models@[i].disabled
            && forall|j: int| 0 <= j < i ==> (#[trigger] models@[j]).disabled,
        r is None ==> forall|j: int| 0 <= j < models@.len() ==> (#[trigger] models@[j]).disabled,
{
    let mut i: usize = 0;
    while i < models.len()
        invariant
            i <= models.len(),
            forall|j: int| 0 <= j < i ==> (#[trigger] models@[j]).disabled,
        decreases models.len() - i,
    {
        if !models[i].disabled {
            return Some(models[i].id);
        }
        i += 1;
    }
    None
}

/// The lowest identity among `models`, used when no provider has a credential.
pub fn lowest_model_id(models: &Vec<Model>) -> (r: Option<i64>)
    ensures
        models@.len() == 0 <==> r is None,
        r matches Some(id) ==> (exists|i: int| 0 <= i < models@.len() && (#[trigger] models@[i]).id == id) && forall|j: int|
            0 <= j < models@.len() ==> id <= (#[trigger] models@[j]).id,
{
    if models.len() == 0 {
        return None;
    }
    let mut best: i64 = models[0].id;
    let mut i: usize = 1;
    while i < models.len()
        invariant
            1 <= i <= models.len(),
            exists|k: int| 0 <= k < i && (#[trigger] models@[k]).id == best,
            forall|j: int| 0 <= j < i ==> best <= (#[trigger] models@[j]).id,
        decreases models.len() - i,
    {
        if models[i].id < best {
            best = models[i].id;
        }
        i += 1;
    }
    Some(best)
}

} // verus!
