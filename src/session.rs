use vstd::prelude::*;
use std::collections::HashMap;
use std::collections::HashSet;

use crate::catalog_state::{
    ids_of, insert_ids, key_present, lemma_without_ids, insert_keyed_models, insert_models, remove_ids, remove_models, with_keyed_models,
    with_models, without_ids,
};
use crate::chat::{copy_opt_string, is_error_reply, Chat, ChatMessage, ChatProfile};
use crate::event::AppState;
use crate::model::Model;
use crate::model_select::{ModelSelectModal, ModelSelectionMode};
use vstd::std_specs::iter::IteratorSpec;
use crate::provider::Provider;
use crate::text::{decimal_text, labelled_int};
use crate::transcript::{build_views, insert_reply, reply_slot, view_of};

verus! {

broadcast use vstd::std_specs::hash::group_hash_axioms;

/// One generation to run: the model, its provider, and the conversation to
/// continue (the model's view with the new user turn already appended).
pub struct LinkTask {
    pub chat_id: i64,
    pub model_id: i64,
    pub provider_id: i64,
    pub model_name: String,
    pub user_message_id: i64,
    pub user_message_dt: i64,
    pub conversation: Vec<ChatMessage>,
    /// Derive the chat's title once this generation is done.
    pub generate_title: bool,
}

/// What submitting a prompt does for one bound model.
pub enum LinkPlan {
    /// The model cannot run; this error-only turn is stored at once and no
    /// task is spawned.
    Rejected { model_id: i64, reply: ChatMessage },
    /// Run this generation as the next link of its chain.
    Spawn(LinkTask),
}

/// The model a plan is about.
pub open spec fn plan_model(p: LinkPlan) -> i64 {
    match p {
        LinkPlan::Rejected { model_id, .. } => model_id,
        LinkPlan::Spawn(t) => t.model_id,
    }
}

/// The (user message, model) pairs that a list of plans marks pending: one
/// for each spawned link, in plan order.
pub open spec fn spawned_pairs(plans: Seq<LinkPlan>, user_id: i64) -> Seq<(i64, i64)>
    decreases plans.len(),
{
    if plans.len() == 0 {
        Seq::empty()
    } else {
        let prev = spawned_pairs(plans.drop_last(), user_id);
        if plans.last() is Spawn {
            prev.push((user_id, plan_model(plans.last())))
        } else {
            prev
        }
    }
}

/// Each bound model gets exactly one plan, and no other model gets one: so
/// one prompt leads to exactly one assistant turn per bound model, whatever
/// order the turns arrive in.
pub proof fn lemma_one_plan_per_model(ids: Seq<i64>, plans: Seq<LinkPlan>)
    requires
        ids.no_duplicates(),
        plans.len() == ids.len(),
        forall|i: int| 0 <= i < ids.len() ==> plan_model(#[trigger] plans[i]) == ids[i],
    ensures
        forall|m: i64| ids.contains(m) ==> exists|i: int| 0 <= i < plans.len() && plan_model(#[trigger] plans[i]) == m
            && forall|j: int| 0 <= j < plans.len() && plan_model(#[trigger] plans[j]) == m ==> j == i,
        forall|m: i64| !ids.contains(m) ==> forall|j: int| 0 <= j < plans.len() ==> plan_model(#[trigger] plans[j]) != m,
{
    assert forall|m: i64| ids.contains(m) implies exists|i: int| 0 <= i < plans.len() && plan_model(#[trigger] plans[i]) == m
        && forall|j: int| 0 <= j < plans.len() && plan_model(#[trigger] plans[j]) == m ==> j == i by {
        let i = choose|i: int| 0 <= i < ids.len() && ids[i] == m;
        assert(plan_model(plans[i]) == m);
        assert forall|j: int| 0 <= j < plans.len() && plan_model(#[trigger] plans[j]) == m implies j == i by {
            assert(ids[j] == ids[i]);
        }
    }
    assert forall|m: i64| !ids.contains(m) implies forall|j: int| 0 <= j < plans.len() ==> plan_model(#[trigger] plans[j]) != m by {
        assert forall|j: int| 0 <= j < plans.len() implies plan_model(#[trigger] plans[j]) != m by {
            assert(ids[j] == plan_model(plans[j]));
        }
    }
}

/// Error text for a model that is not in the available catalog.
pub open spec fn missing_model_text(model_id: i64) -> Seq<char> {
    "Model id "@ + decimal_text(model_id as int) + " not found"@
}

/// Error text for a model whose provider has no active client.
pub open spec fn missing_provider_text(model_id: i64) -> Seq<char> {
    "Provider for model id "@ + decimal_text(model_id as int) + " not found"@
}

/// The focus after a reply was inserted at `idx` in the view of model `m`:
/// a focus at or after that position moves along with its message (it stays
/// put only at the largest index).
pub open spec fn shifted_focus(f: Map<i64, usize>, m: i64, idx: int) -> Map<i64, usize> {
    if f.contains_key(m) {
        let cur = f[m];
        f.insert(m, if cur >= idx && cur < usize::MAX { (cur + 1) as usize } else { cur })
    } else {
        f
    }
}

/// `i` is the first position of chat `id` in `h`.
pub open spec fn first_chat(h: Seq<Chat>, id: i64, i: int) -> bool {
    0 <= i < h.len() && h[i].id == id && forall|j: int| 0 <= j < i ==> #[trigger] h[j].id != id
}

/// Chat `id` is listed in `h`.
pub open spec fn listed(h: Seq<Chat>, id: i64) -> bool {
    exists|i: int| #[trigger] first_chat(h, id, i)
}

/// Chat `id` is listed in `h` and has no title yet.
pub open spec fn title_unset_in(h: Seq<Chat>, id: i64) -> bool {
    exists|i: int| first_chat(h, id, i) && h[i].title is None
}

/// `h` after a derived title `t` arrives for chat `id`: it is taken only when
/// the chat is listed and still untitled.
pub open spec fn titled(h: Seq<Chat>, id: i64, t: String) -> Seq<Chat> {
    if title_unset_in(h, id) {
        let i = choose|i: int| first_chat(h, id, i) && h[i].title is None;
        h.update(i, Chat { id: h[i].id, dt: h[i].dt, title: Some(t) })
    } else {
        h
    }
}

/// A chat has at most one first position.
pub proof fn lemma_first_chat_unique(h: Seq<Chat>, id: i64, i: int, k: int)
    requires
        first_chat(h, id, i),
        first_chat(h, id, k),
    ensures
        i == k,
{
    if k < i {
        assert(h[k].id != id);
    }
    if i < k {
        assert(h[i].id != id);
    }
}

/// A title the user set is never overwritten by a derived one: once chat `id`
/// (first listed at `i`) carries the user's title, a derived title arriving
/// afterwards leaves the list unchanged.
pub proof fn lemma_user_title_wins(h: Seq<Chat>, id: i64, i: int, user_title: String, derived: String)
    requires
        first_chat(h, id, i),
    ensures
        ({
            let u = h.update(i, Chat { id: h[i].id, dt: h[i].dt, title: Some(user_title) });
            titled(u, id, derived) == u
        }),
{
    let u = h.update(i, Chat { id: h[i].id, dt: h[i].dt, title: Some(user_title) });
    assert(first_chat(u, id, i)) by {
        assert forall|j: int| 0 <= j < i implies #[trigger] u[j].id != id by {
            assert(u[j] == h[j]);
        }
    }
    if title_unset_in(u, id) {
        let k = choose|k: int| first_chat(u, id, k) && u[k].title is None;
        lemma_first_chat_unique(u, id, i, k);
    }
}

/// The derived path sets a title at most once: a second derived title for the
/// same chat changes nothing.
pub proof fn lemma_title_set_once(h: Seq<Chat>, id: i64, first: String, second: String)
    ensures
        titled(titled(h, id, first), id, second) == titled(h, id, first),
{
    if title_unset_in(h, id) {
        let i = choose|i: int| first_chat(h, id, i) && h[i].title is None;
        lemma_user_title_wins(h, id, i, first, second);
    }
}

/// The position of the first chat `id` in `h`, if any.
pub fn find_chat(h: &Vec<Chat>, id: i64) -> (r: Option<usize>)
    ensures
        r matches Some(i) ==> first_chat(h@, id, i as int),
        r is None ==> forall|j: int| 0 <= j < h@.len() ==> #[trigger] h@[j].id != id,
{
    let mut i: usize = 0;
    while i < h.len()
        invariant
            i <= h.len(),
            forall|j: int| 0 <= j < i ==> #[trigger] h@[j].id != id,
        decreases h.len() - i,
    {
        if h[i].id == id {
            return Some(i);
        }
        i += 1;
    }
    None
}

/// `v` without the pair `p`.
pub fn without_pair(v: &Vec<(i64, i64)>, p: (i64, i64)) -> (r: Vec<(i64, i64)>)
    ensures
        forall|q: (i64, i64)| #[trigger] r@.contains(q) <==> (v@.contains(q) && q != p),
{
    let mut r: Vec<(i64, i64)> = Vec::new();
    let mut i: usize = 0;
    while i < v.len()
        invariant
            i <= v.len(),
            forall|q: (i64, i64)| #[trigger] r@.contains(q) <==> (v@.subrange(0, i as int).contains(q) && q != p),
        decreases v.len() - i,
    {
        let q = v[i];
        let ghost prev = r@;
        if q.0 != p.0 || q.1 != p.1 {
            r.push(q);
        }
        let ghost w0 = v@.subrange(0, i as int);
        let ghost w1 = v@.subrange(0, i + 1);
        assert(w1 == w0.push(q));
        assert forall|x: (i64, i64)| #[trigger] r@.contains(x) <==> (w1.contains(x) && x != p) by {
            if prev.contains(x) {
                let k = choose|k: int| 0 <= k < prev.len() && prev[k] == x;
                assert(r@[k] == x);
            }
            if r@.contains(x) && x != q {
                let k = choose|k: int| 0 <= k < r@.len() && r@[k] == x;
                assert(prev[k] == x);
            }
            if w1.contains(x) && x != q {
                let k = choose|k: int| 0 <= k < w1.len() && w1[k] == x;
                assert(w0[k] == x);
            }
            if w0.contains(x) {
                let k = choose|k: int| 0 <= k < w0.len() && w0[k] == x;
                assert(w1[k] == x);
            }
            if x == q && q != p {
                assert(r@[r@.len() - 1] == x);
                assert(w1[i as int] == x);
            }
        }
        i += 1;
    }
    assert(v@.subrange(0, v.len() as int) == v@);
    r
}

/// The predicate "is not available in `avail`".
pub open spec fn missing_from(avail: Map<i64, Model>) -> spec_fn(i64) -> bool {
    |m: i64| !avail.contains_key(m)
}

/// The predicate "is not chat `id`".
pub open spec fn not_chat(id: i64) -> spec_fn(Chat) -> bool {
    |c: Chat| c.id != id
}

/// What the store holds for a chat: its bound models and tools and its
/// chronological message log.
pub struct StoredChat {
    pub model_ids: Vec<i64>,
    pub tool_ids: Vec<i64>,
    pub messages: Vec<ChatMessage>,
}

/// Focus on the first message of each model's view.
pub fn focus_start(model_ids: &Vec<i64>) -> (r: HashMap<i64, usize>)
    ensures
        forall|m: i64| #[trigger] r@.contains_key(m) <==> model_ids@.contains(m),
        forall|m: i64| r@.contains_key(m) ==> #[trigger] r@[m] == 0,
{
    let mut r: HashMap<i64, usize> = HashMap::new();
    let mut i: usize = 0;
    while i < model_ids.len()
        invariant
            i <= model_ids.len(),
            forall|m: i64| #[trigger] r@.contains_key(m) <==> model_ids@.subrange(0, i as int).contains(m),
            forall|m: i64| r@.contains_key(m) ==> #[trigger] r@[m] == 0,
        decreases model_ids.len() - i,
    {
        let m = model_ids[i];
        let ghost w0 = model_ids@.subrange(0, i as int);
        let ghost w1 = model_ids@.subrange(0, i + 1);
        assert(w1 == w0.push(m));
        r.insert(m, 0);
        assert forall|k: i64| #[trigger] r@.contains_key(k) <==> w1.contains(k) by {
            if w0.contains(k) {
                let j = choose|j: int| 0 <= j < w0.len() && w0[j] == k;
                assert(w1[j] == k);
            }
            if w1.contains(k) && k != m {
                let j = choose|j: int| 0 <= j < w1.len() && w1[j] == k;
                assert(w0[j] == k);
            }
            if k == m {
                assert(w1[i as int] == k);
            }
        }
        i += 1;
    }
    assert(model_ids@.subrange(0, model_ids.len() as int) == model_ids@);
    r
}

/// The in-memory state owned by the control loop: the current chat and its
/// per-model views, the catalogs, and what is pending. `C` is the handle of
/// a provider client.
pub struct Session<C> {
    pub state: AppState,
    pub default_profile: ChatProfile,
    pub current_chat: Chat,
    pub current_model_idx: usize,
    pub current_chat_profile: ChatProfile,
    pub chat_history: Vec<Chat>,
    pub chat_history_index: usize,
    /// model id -> that model's view of the current chat.
    pub current_messages: HashMap<i64, Vec<ChatMessage>>,
    /// model id -> index of the focused message in its view.
    pub current_message_index: HashMap<i64, usize>,
    pub title_inference_in_progress_by_chat: HashSet<i64>,
    /// (user message id, model id) pairs whose generation has not reported
    /// back. It is read as a set, through `contains`: pairs are added by
    /// `begin_submission` and every copy of a pair is dropped by
    /// `apply_completion`, so a repeated pair never changes its meaning. A
    /// list is kept because hashing a pair has no model here.
    pub inference_in_progress: Vec<(i64, i64)>,
    /// provider id -> client; a provider without one cannot generate.
    pub provider_clients: HashMap<i64, C>,
    /// provider id -> whether its credential is present.
    pub provider_api_keys_set: HashMap<i64, bool>,
    pub providers_marked_down: HashSet<i64>,
    /// model id -> model, for models that can be selected now.
    pub available_models: HashMap<i64, Model>,
    /// model id -> model, for every known model.
    pub all_models: HashMap<i64, Model>,
    pub providers: HashMap<i64, Provider>,
    /// (model name, provider name) of bound models that cannot run.
    pub unavailable_models_info: Vec<(String, String)>,
}

impl<C> Session<C> {
    /// The view of model `m` in the current chat (empty when it has none).
    pub open spec fn view(&self, m: i64) -> Seq<ChatMessage> {
        if self.current_messages@.contains_key(m) {
            self.current_messages@[m]@
        } else {
            Seq::empty()
        }
    }

    /// Whether model `m` can run now: it is available and its provider has a client.
    pub open spec fn can_run(&self, m: i64) -> bool {
        self.available_models@.contains_key(m) && self.provider_clients@.contains_key(
            self.available_models@[m].provider_id,
        )
    }

    /// A session with no chat loaded and empty catalogs.
    pub fn new(default_profile: ChatProfile) -> (r: Self)
        ensures
            r.default_profile == default_profile,
            r.current_chat_profile.model_ids@ == default_profile.model_ids@,
            r.current_messages@.len() == 0,
            r.inference_in_progress@.len() == 0,
            r.available_models@.len() == 0 && r.all_models@.len() == 0,
            r.provider_clients@.len() == 0 && r.providers@.len() == 0,
            r.state == (if default_profile.model_ids@.len() == 0 {
                AppState::ProviderDialog
            } else {
                AppState::Normal
            }),
    {
        let state = if default_profile.model_ids.len() == 0 {
            AppState::ProviderDialog
        } else {
            AppState::Normal
        };
        let current_chat_profile = default_profile.clone();
        Session {
            state,
            default_profile,
            current_chat: Chat { id: 0, dt: 0, title: None },
            current_model_idx: 0,
            current_chat_profile,
            chat_history: Vec::new(),
            chat_history_index: 0,
            current_messages: HashMap::new(),
            current_message_index: HashMap::new(),
            title_inference_in_progress_by_chat: HashSet::new(),
            inference_in_progress: Vec::new(),
            provider_clients: HashMap::new(),
            provider_api_keys_set: HashMap::new(),
            providers_marked_down: HashSet::new(),
            available_models: HashMap::new(),
            all_models: HashMap::new(),
            providers: HashMap::new(),
            unavailable_models_info: Vec::new(),
        }
    }

    /// Adds a configured provider, with its client when its credential is
    /// present (a provider without one is never an active client).
    pub fn register_provider(&mut self, provider: Provider, client: Option<C>)
        ensures
            final(self).providers@ == old(self).providers@.insert(provider.id, provider),
            final(self).provider_api_keys_set@ == old(self).provider_api_keys_set@.insert(provider.id, client is Some),
            client matches Some(c) ==> final(self).provider_clients@ == old(self).provider_clients@.insert(provider.id, c),
            client is None ==> final(self).provider_clients@ == old(self).provider_clients@,
            final(self).all_models == old(self).all_models,
            final(self).available_models == old(self).available_models,
    {
        let id = provider.id;
        let key_present = client.is_some();
        match client {
            Some(c) => {
                self.provider_clients.insert(id, c);
            },
            None => {},
        }
        self.provider_api_keys_set.insert(id, key_present);
        self.providers.insert(id, provider);
    }

    /// Adds a known model; it is available when its provider's credential is present.
    pub fn register_model(&mut self, model: Model)
        ensures
            final(self).all_models@ == old(self).all_models@.insert(model.id, model),
            key_present(old(self).provider_api_keys_set@, model.provider_id) ==> final(self).available_models@
                == old(self).available_models@.insert(model.id, model),
            !key_present(old(self).provider_api_keys_set@, model.provider_id) ==> final(self).available_models@
                == old(self).available_models@,
            final(self).provider_clients == old(self).provider_clients,
            final(self).provider_api_keys_set == old(self).provider_api_keys_set,
            final(self).providers == old(self).providers,
    {
        let keyed = match self.provider_api_keys_set.get(&model.provider_id) {
            Some(k) => *k,
            None => false,
        };
        if keyed {
            self.available_models.insert(model.id, model.clone());
        }
        self.all_models.insert(model.id, model);
    }

    /// Appends `msg` to the view of model `m`, creating the view if needed.
    fn push_to_view(&mut self, m: i64, msg: ChatMessage)
        requires
            old(self).view(m).len() < usize::MAX,
        ensures
            final(self).current_messages@ == old(self).current_messages@.insert(m, final(self).current_messages@[m]),
            final(self).view(m) == old(self).view(m).push(msg),
            final(self).available_models == old(self).available_models,
            final(self).provider_clients == old(self).provider_clients,
            final(self).inference_in_progress == old(self).inference_in_progress,
            final(self).current_chat_profile == old(self).current_chat_profile,
            final(self).title_inference_in_progress_by_chat == old(self).title_inference_in_progress_by_chat,
    {
        let mut v = match self.current_messages.remove(&m) {
            Some(v) => v,
            None => Vec::new(),
        };
        v.push(msg);
        self.current_messages.insert(m, v);
    }

    /// The plan for bound model `model_id` when the user turn `user` is
    /// submitted; a model that can run is marked pending for that turn.
    fn plan_link(&mut self, model_id: i64, user: &ChatMessage, generate_title: bool) -> (r: LinkPlan)
        ensures
            plan_model(r) == model_id,
            r is Rejected <==> !old(self).can_run(model_id),
            r matches LinkPlan::Rejected { reply, .. } ==> is_error_reply(
                reply,
                user.chat_id,
                model_id,
                user.dt,
                if old(self).available_models@.contains_key(model_id) {
                    missing_provider_text(model_id)
                } else {
                    missing_model_text(model_id)
                },
            ),
            r matches LinkPlan::Spawn(t) ==> {
                &&& t.chat_id == user.chat_id
                &&& t.provider_id == old(self).available_models@[model_id].provider_id
                &&& t.model_name == old(self).available_models@[model_id].model
                &&& t.user_message_id == user.id
                &&& t.user_message_dt == user.dt
                &&& t.conversation@ == old(self).view(model_id)
                &&& t.generate_title == generate_title
            },
            r is Spawn ==> final(self).inference_in_progress@ == old(self).inference_in_progress@.push((user.id, model_id)),
            r is Rejected ==> final(self).inference_in_progress@ == old(self).inference_in_progress@,
            r is Spawn && generate_title ==> final(self).title_inference_in_progress_by_chat@
                == old(self).title_inference_in_progress_by_chat@.insert(user.chat_id),
            !(r is Spawn && generate_title) ==> final(self).title_inference_in_progress_by_chat@
                == old(self).title_inference_in_progress_by_chat@,
            final(self).current_messages == old(self).current_messages,
            final(self).available_models == old(self).available_models,
            final(self).provider_clients == old(self).provider_clients,
            final(self).current_chat_profile == old(self).current_chat_profile,
    {
        let model = match self.available_models.get(&model_id) {
            Some(model) => model.clone(),
            None => {
                let mut text = labelled_int("Model id ", model_id);
                text.append(" not found");
                let reply = ChatMessage::new_assistant_message_with_error(user.chat_id, model_id, text, user.dt);
                return LinkPlan::Rejected { model_id, reply };
            },
        };
        if !self.provider_clients.contains_key(&model.provider_id) {
            let mut text = labelled_int("Provider for model id ", model_id);
            text.append(" not found");
            let reply = ChatMessage::new_assistant_message_with_error(user.chat_id, model_id, text, user.dt);
            return LinkPlan::Rejected { model_id, reply };
        }
        let conversation = match self.current_messages.get(&model_id) {
            Some(v) => {
                let c = v.clone();
                assert(c@ =~= v@);
                c
            },
            None => Vec::new(),
        };
        self.inference_in_progress.push((user.id, model_id));
        if generate_title {
            self.title_inference_in_progress_by_chat.insert(user.chat_id);
        }
        LinkPlan::Spawn(
            LinkTask {
                chat_id: user.chat_id,
                model_id,
                provider_id: model.provider_id,
                model_name: model.model,
                user_message_id: user.id,
                user_message_dt: user.dt,
                conversation,
                generate_title,
            },
        )
    }

    /// Fans a stored user turn out to every bound model: the turn is appended
    /// to each model's view, then each model gets one plan, in profile order
    /// (the first model derives the title when `generate_title`). Each plan
    /// leads to exactly one assistant turn for its model: an error-only turn
    /// at once, or the turn its task reports.
    pub fn begin_submission(&mut self, user: &ChatMessage, generate_title: bool) -> (plans: Vec<LinkPlan>)
        requires
            old(self).current_chat_profile.model_ids@.no_duplicates(),
            forall|m: i64| #[trigger] old(self).view(m).len() < usize::MAX,
        ensures
            ({
                let ids = old(self).current_chat_profile.model_ids@;
                &&& plans@.len() == ids.len()
                &&& forall|i: int| 0 <= i < ids.len() ==> plan_model(#[trigger] plans@[i]) == ids[i]
                &&& forall|i: int| 0 <= i < ids.len() ==> (#[trigger] plans@[i] is Rejected <==> !old(self).can_run(ids[i]))
                &&& forall|i: int| 0 <= i < ids.len() ==> (#[trigger] plans@[i] matches LinkPlan::Rejected { reply, .. }
                    ==> is_error_reply(reply, user.chat_id, ids[i], user.dt,
                        if old(self).available_models@.contains_key(ids[i]) {
                            missing_provider_text(ids[i])
                        } else {
                            missing_model_text(ids[i])
                        }))
                &&& forall|i: int| 0 <= i < ids.len() ==> (#[trigger] plans@[i] matches LinkPlan::Spawn(t) ==> {
                    &&& t.chat_id == user.chat_id
                    &&& t.provider_id == old(self).available_models@[ids[i]].provider_id
                    &&& t.model_name == old(self).available_models@[ids[i]].model
                    &&& t.user_message_id == user.id
                    &&& t.user_message_dt == user.dt
                    &&& t.conversation@ == old(self).view(ids[i]).push(*user)
                    &&& t.generate_title == (generate_title && i == 0)
                    &&& final(self).inference_in_progress@.contains((user.id, ids[i]))
                })
                &&& forall|i: int| 0 <= i < ids.len() ==> #[trigger] final(self).view(ids[i]) == old(self).view(ids[i]).push(*user)
                &&& forall|m: i64| !ids.contains(m) ==> #[trigger] final(self).view(m) == old(self).view(m)
                &&& final(self).inference_in_progress@ == old(self).inference_in_progress@ + spawned_pairs(plans@, user.id)
                &&& final(self).title_inference_in_progress_by_chat@ == if generate_title && ids.len() > 0 && old(self).can_run(ids[0]) {
                    old(self).title_inference_in_progress_by_chat@.insert(user.chat_id)
                } else {
                    old(self).title_inference_in_progress_by_chat@
                }
                &&& final(self).available_models == old(self).available_models
                &&& final(self).provider_clients == old(self).provider_clients
                &&& final(self).current_chat_profile == old(self).current_chat_profile
            }),
    {
        let ghost ids = self.current_chat_profile.model_ids@;
        let n = self.current_chat_profile.model_ids.len();
        let mut i: usize = 0;
        while i < n
            invariant
                i <= n,
                n == ids.len(),
                self.current_chat_profile.model_ids@ == ids,
                ids.no_duplicates(),
                forall|m: i64| #[trigger] old(self).view(m).len() < usize::MAX,
                forall|j: int| 0 <= j < i ==> #[trigger] self.view(ids[j]) == old(self).view(ids[j]).push(*user),
                forall|m: i64| !ids.subrange(0, i as int).contains(m) ==> #[trigger] self.view(m) == old(self).view(m),
                self.available_models == old(self).available_models,
                self.provider_clients == old(self).provider_clients,
                self.inference_in_progress == old(self).inference_in_progress,
                self.current_chat_profile == old(self).current_chat_profile,
                self.title_inference_in_progress_by_chat == old(self).title_inference_in_progress_by_chat,
            decreases n - i,
        {
            let m = self.current_chat_profile.model_ids[i];
            assert(!ids.subrange(0, i as int).contains(m)) by {
                if ids.subrange(0, i as int).contains(m) {
                    let j = choose|j: int| 0 <= j < i && ids.subrange(0, i as int)[j] == m;
                    assert(ids[j] == ids[i as int]);
                }
            }
            let ghost pre = *self;
            self.push_to_view(m, user.clone());
            assert forall|k: i64| !ids.subrange(0, i + 1).contains(k) implies #[trigger] self.view(k) == old(self).view(k) by {
                assert(ids.subrange(0, i + 1)[i as int] == m);
                assert(k != m);
                assert(self.view(k) == pre.view(k));
                if ids.subrange(0, i as int).contains(k) {
                    let j = choose|j: int| 0 <= j < i && ids.subrange(0, i as int)[j] == k;
                    assert(ids.subrange(0, i + 1)[j] == k);
                }
            }
            assert forall|j: int| 0 <= j < i + 1 implies #[trigger] self.view(ids[j]) == old(self).view(ids[j]).push(*user) by {
                if j < i {
                    assert(ids[j] != m);
                    assert(self.view(ids[j]) == pre.view(ids[j]));
                }
            }
            i += 1;
        }
        assert(ids.subrange(0, n as int) == ids);
        let ghost mid = *self;
        let mut plans: Vec<LinkPlan> = Vec::new();
        let mut k: usize = 0;
        while k < n
            invariant
                k <= n,
                n == ids.len(),
                self.current_chat_profile.model_ids@ == ids,
                plans@.len() == k,
                self.current_messages == mid.current_messages,
                self.available_models == old(self).available_models,
                self.provider_clients == old(self).provider_clients,
                forall|j: int| 0 <= j < n ==> #[trigger] mid.view(ids[j]) == old(self).view(ids[j]).push(*user),
                forall|m: i64| !ids.contains(m) ==> #[trigger] mid.view(m) == old(self).view(m),
                forall|j: int| 0 <= j < k ==> plan_model(#[trigger] plans@[j]) == ids[j],
                forall|j: int| 0 <= j < k ==> (#[trigger] plans@[j] is Rejected <==> !old(self).can_run(ids[j])),
                forall|j: int| 0 <= j < k ==> (#[trigger] plans@[j] matches LinkPlan::Rejected { reply, .. }
                    ==> is_error_reply(reply, user.chat_id, ids[j], user.dt,
                        if old(self).available_models@.contains_key(ids[j]) {
                            missing_provider_text(ids[j])
                        } else {
                            missing_model_text(ids[j])
                        })),
                forall|j: int| 0 <= j < k ==> (#[trigger] plans@[j] matches LinkPlan::Spawn(t) ==> {
                    &&& t.chat_id == user.chat_id
                    &&& t.provider_id == old(self).available_models@[ids[j]].provider_id
                    &&& t.model_name == old(self).available_models@[ids[j]].model
                    &&& t.user_message_id == user.id
                    &&& t.user_message_dt == user.dt
                    &&& t.conversation@ == old(self).view(ids[j]).push(*user)
                    &&& t.generate_title == (generate_title && j == 0)
                    &&& self.inference_in_progress@.contains((user.id, ids[j]))
                }),
                forall|p: (i64, i64)| old(self).inference_in_progress@.contains(p) ==> #[trigger] self.inference_in_progress@.contains(p),
                self.inference_in_progress@ == old(self).inference_in_progress@ + spawned_pairs(plans@, user.id),
                self.current_chat_profile == old(self).current_chat_profile,
                self.title_inference_in_progress_by_chat@ == if generate_title && k > 0 && old(self).can_run(ids[0]) {
                    old(self).title_inference_in_progress_by_chat@.insert(user.chat_id)
                } else {
                    old(self).title_inference_in_progress_by_chat@
                },
            decreases n - k,
        {
            let m = self.current_chat_profile.model_ids[k];
            assert(mid.view(ids[k as int]) == old(self).view(ids[k as int]).push(*user));
            assert(self.view(m) == mid.view(m));
            let ghost before = self.inference_in_progress@;
            let plan = self.plan_link(m, user, generate_title && k == 0);
            assert forall|p: (i64, i64)| before.contains(p) implies #[trigger] self.inference_in_progress@.contains(p) by {
                if plan is Spawn {
                    let q = choose|q: int| 0 <= q < before.len() && before[q] == p;
                    assert(self.inference_in_progress@[q] == p);
                }
            }
            proof {
                if plan is Spawn {
                    assert(self.inference_in_progress@[before.len() as int] == (user.id, m));
                }
            }
            let ghost prev_plans = plans@;
            plans.push(plan);
            assert(plans@.drop_last() == prev_plans);
            assert forall|j: int| 0 <= j < k implies (#[trigger] plans@[j] matches LinkPlan::Spawn(t)
                ==> self.inference_in_progress@.contains((user.id, ids[j]))) by {
                assert(plans@[j] == prev_plans[j]);
                if plans@[j] is Spawn {
                    assert(before.contains((user.id, ids[j])));
                }
            }
            k += 1;
        }
        assert forall|j: int| 0 <= j < n implies #[trigger] self.view(ids[j]) == old(self).view(ids[j]).push(*user) by {
            assert(mid.view(ids[j]) == old(self).view(ids[j]).push(*user));
        }
        assert forall|m: i64| !ids.contains(m) implies #[trigger] self.view(m) == old(self).view(m) by {
            assert(mid.view(m) == old(self).view(m));
        }
        plans
    }

    /// Whether the generation of `model_id` for user turn `message_id` is pending.
    pub fn is_message_loading(&self, model_id: i64, message_id: i64) -> (r: bool)
        ensures
            r == self.inference_in_progress@.contains((message_id, model_id)),
    {
        let mut i: usize = 0;
        while i < self.inference_in_progress.len()
            invariant
                i <= self.inference_in_progress.len(),
                forall|j: int| 0 <= j < i ==> #[trigger] self.inference_in_progress@[j] != (message_id, model_id),
            decreases self.inference_in_progress.len() - i,
        {
            let (a, b) = self.inference_in_progress[i];
            if a == message_id && b == model_id {
                return true;
            }
            i += 1;
        }
        false
    }

    /// The view of the model in focus, if it has one.
    pub fn get_current_messages(&self) -> (r: Option<&Vec<ChatMessage>>)
        ensures
            ({
                let ids = self.current_chat_profile.model_ids@;
                let k = self.current_model_idx as int;
                if k < ids.len() && self.current_messages@.contains_key(ids[k]) {
                    r matches Some(v) && *v == self.current_messages@[ids[k]]
                } else {
                    r is None
                }
            }),
    {
        if self.current_model_idx < self.current_chat_profile.model_ids.len() {
            let m = self.current_chat_profile.model_ids[self.current_model_idx];
            self.current_messages.get(&m)
        } else {
            None
        }
    }

    /// Applies a finished generation: the pair is no longer pending and, when
    /// the chat is the current one, the reply goes right after its user turn
    /// in the model's view (found by identity; at the end if it is missing).
    /// A focus at or after that position moves along with its message.
    pub fn apply_completion(&mut self, chat_id: i64, model_id: i64, origin_message_id: i64, result: ChatMessage)
        requires
            old(self).view(model_id).len() < usize::MAX,
        ensures
            forall|p: (i64, i64)| #[trigger] final(self).inference_in_progress@.contains(p) <==> (old(
                self,
            ).inference_in_progress@.contains(p) && p != (origin_message_id, model_id)),
            chat_id == old(self).current_chat.id ==> exists|idx: int|
                reply_slot(old(self).view(model_id), origin_message_id, idx) && #[trigger] final(self).view(model_id)
                    == old(self).view(model_id).insert(idx, result) && final(self).current_message_index@ == shifted_focus(
                    old(self).current_message_index@,
                    model_id,
                    idx,
                ),
            chat_id != old(self).current_chat.id ==> final(self).current_messages == old(self).current_messages,
            chat_id != old(self).current_chat.id ==> final(self).current_message_index == old(self).current_message_index,
            forall|m: i64| m != model_id ==> #[trigger] final(self).view(m) == old(self).view(m),
            final(self).current_chat == old(self).current_chat,
            final(self).chat_history == old(self).chat_history,
            final(self).available_models == old(self).available_models,
            final(self).all_models == old(self).all_models,
    {
        self.inference_in_progress = without_pair(&self.inference_in_progress, (origin_message_id, model_id));
        if chat_id == self.current_chat.id {
            let mut v = match self.current_messages.remove(&model_id) {
                Some(v) => v,
                None => Vec::new(),
            };
            let idx = insert_reply(&mut v, origin_message_id, result);
            self.current_messages.insert(model_id, v);
            let ghost focus = self.current_message_index@;
            match self.current_message_index.remove(&model_id) {
                Some(cur) => {
                    let moved = if cur >= idx && cur < usize::MAX { cur + 1 } else { cur };
                    self.current_message_index.insert(model_id, moved);
                    assert(self.current_message_index@ =~= shifted_focus(focus, model_id, idx as int));
                },
                None => {
                    assert(self.current_message_index@ =~= shifted_focus(focus, model_id, idx as int));
                },
            }
        }
    }

    /// Whether chat `chat_id` is listed and still has no title.
    pub fn title_unset(&self, chat_id: i64) -> (r: bool)
        ensures
            r == title_unset_in(self.chat_history@, chat_id),
    {
        match find_chat(&self.chat_history, chat_id) {
            Some(i) => self.chat_history[i].title.is_none(),
            None => false,
        }
    }

    /// Applies a derived title. It is taken only if the chat is listed and
    /// still untitled, so a title the user set first is never overwritten.
    /// Returns whether it was taken (and must then be stored).
    pub fn apply_title(&mut self, chat_id: i64, title: String) -> (r: bool)
        ensures
            r == title_unset_in(old(self).chat_history@, chat_id),
            final(self).chat_history@ == titled(old(self).chat_history@, chat_id, title),
            r && old(self).current_chat.id == chat_id ==> final(self).current_chat == (Chat {
                id: old(self).current_chat.id,
                dt: old(self).current_chat.dt,
                title: Some(title),
            }),
            !(r && old(self).current_chat.id == chat_id) ==> final(self).current_chat == old(self).current_chat,
            r ==> final(self).title_inference_in_progress_by_chat@ == old(self).title_inference_in_progress_by_chat@.remove(chat_id),
            !r ==> final(self).title_inference_in_progress_by_chat@ == old(self).title_inference_in_progress_by_chat@,
            final(self).current_messages == old(self).current_messages,
            final(self).current_message_index == old(self).current_message_index,
            final(self).inference_in_progress == old(self).inference_in_progress,
    {
        let i = match find_chat(&self.chat_history, chat_id) {
            Some(i) => i,
            None => return false,
        };
        if self.chat_history[i].title.is_some() {
            return false;
        }
        let ghost h = self.chat_history@;
        assert(first_chat(h, chat_id, i as int) && h[i as int].title is None);
        assert forall|k: int| first_chat(h, chat_id, k) implies k == i by {
            if k < i {
                assert(h[k].id != chat_id);
            }
            if k > i {
                assert(h[i as int].id != chat_id);
            }
        }
        let updated = Chat { id: self.chat_history[i].id, dt: self.chat_history[i].dt, title: Some(title.clone()) };
        self.chat_history.set(i, updated);
        if self.current_chat.id == chat_id {
            self.current_chat.title = Some(title);
        }
        self.title_inference_in_progress_by_chat.remove(&chat_id);
        true
    }

    /// Applies the result of a catalog pass: removed models leave both
    /// catalogs; added ones join the full catalog, and the available one when
    /// their provider's credential is present; providers that failed lose
    /// their client and are marked down; their models leave the available
    /// catalog (but stay known, and no message is touched).
    pub fn apply_models_refreshed(
        &mut self,
        added_models: Vec<Model>,
        removed_model_ids: Vec<i64>,
        temporarily_unavailable_models: Vec<Model>,
        providers_to_remove: Vec<i64>,
    )
        ensures
            final(self).all_models@ == with_models(without_ids(old(self).all_models@, removed_model_ids@), added_models@),
            final(self).available_models@ == without_ids(
                with_keyed_models(
                    without_ids(old(self).available_models@, removed_model_ids@),
                    added_models@,
                    old(self).provider_api_keys_set@,
                ),
                ids_of(temporarily_unavailable_models@),
            ),
            forall|i: int| 0 <= i < temporarily_unavailable_models@.len()
                ==> !final(self).available_models@.contains_key(#[trigger] temporarily_unavailable_models@[i].id),
            final(self).provider_api_keys_set@ == without_ids(old(self).provider_api_keys_set@, providers_to_remove@),
            final(self).provider_clients@ == without_ids(old(self).provider_clients@, providers_to_remove@),
            final(self).providers_marked_down@ == old(self).providers_marked_down@ + providers_to_remove@.to_set(),
            final(self).current_messages == old(self).current_messages,
            final(self).chat_history == old(self).chat_history,
            final(self).current_chat == old(self).current_chat,
            final(self).inference_in_progress == old(self).inference_in_progress,
            final(self).current_message_index == old(self).current_message_index,
    {
        remove_ids(&mut self.all_models, &removed_model_ids);
        remove_ids(&mut self.available_models, &removed_model_ids);
        insert_models(&mut self.all_models, &added_models);
        insert_keyed_models(&mut self.available_models, &added_models, &self.provider_api_keys_set);
        remove_ids(&mut self.provider_api_keys_set, &providers_to_remove);
        remove_ids(&mut self.provider_clients, &providers_to_remove);
        insert_ids(&mut self.providers_marked_down, &providers_to_remove);
        let ghost before = self.available_models@;
        remove_models(&mut self.available_models, &temporarily_unavailable_models);
        assert forall|i: int| 0 <= i < temporarily_unavailable_models@.len()
            implies !self.available_models@.contains_key(#[trigger] temporarily_unavailable_models@[i].id) by {
            let ids = ids_of(temporarily_unavailable_models@);
            assert(ids[i] == temporarily_unavailable_models@[i].id);
            lemma_without_ids(before, ids, ids[i]);
        }
    }

    /// Starts composing a new chat, seeded with the default profile. It is
    /// not stored until its first prompt is submitted.
    pub fn create_new_chat(&mut self)
        ensures
            final(self).current_chat.id == 0 && final(self).current_chat.title is None,
            final(self).current_messages@.len() == 0,
            final(self).state == AppState::Normal,
            final(self).current_chat_profile.chat_id == old(self).default_profile.chat_id,
            final(self).current_chat_profile.model_ids@ == old(self).default_profile.model_ids@,
            final(self).current_chat_profile.tool_ids@ == old(self).default_profile.tool_ids@,
            final(self).current_model_idx == 0,
            forall|m: i64| #[trigger] final(self).current_message_index@.contains_key(m)
                <==> old(self).default_profile.model_ids@.contains(m),
            forall|m: i64| final(self).current_message_index@.contains_key(m) ==> #[trigger] final(self).current_message_index@[m] == 0,
            final(self).chat_history@ == old(self).chat_history@.insert(0, final(self).current_chat),
            final(self).chat_history_index == 0,
            final(self).default_profile == old(self).default_profile,
    {
        let chat = Chat { id: 0, dt: crate::clock::now_seconds(), title: None };
        self.current_chat = chat.clone();
        self.current_messages.clear();
        self.state = AppState::Normal;
        self.current_chat_profile = self.default_profile.clone();
        self.current_model_idx = 0;
        self.current_message_index = focus_start(&self.current_chat_profile.model_ids);
        self.chat_history.insert(0, chat);
        self.chat_history_index = 0;
    }

    /// Records that the chat being composed was stored as `chat_id`: the
    /// chat and its history entry take the identity, and every bound model
    /// starts with an empty view.
    pub fn bind_new_chat(&mut self, chat_id: i64)
        requires
            old(self).chat_history_index < old(self).chat_history@.len(),
        ensures
            final(self).current_chat == (Chat { id: chat_id, dt: old(self).current_chat.dt, title: old(self).current_chat.title }),
            ({
                let k = old(self).chat_history_index as int;
                let e = old(self).chat_history@[k];
                final(self).chat_history@ == old(self).chat_history@.update(k, Chat { id: chat_id, dt: e.dt, title: e.title })
            }),
            forall|m: i64| old(self).current_chat_profile.model_ids@.contains(m) ==> #[trigger] final(self).view(m).len() == 0,
            forall|m: i64| #[trigger] final(self).current_messages@.contains_key(m) <==> (old(self).current_messages@.contains_key(m)
                || old(self).current_chat_profile.model_ids@.contains(m)),
            forall|m: i64| !old(self).current_chat_profile.model_ids@.contains(m) ==> #[trigger] final(self).view(m) == old(self).view(m),
            final(self).current_chat_profile == old(self).current_chat_profile,
            final(self).chat_history_index == old(self).chat_history_index,
    {
        self.current_chat.id = chat_id;
        let k = self.chat_history_index;
        let e = Chat { id: chat_id, dt: self.chat_history[k].dt, title: copy_opt_string(&self.chat_history[k].title) };
        self.chat_history.set(k, e);
        let n = self.current_chat_profile.model_ids.len();
        let ghost ids = self.current_chat_profile.model_ids@;
        let ghost start = self.current_messages@;
        let ghost before = *self;
        let mut i: usize = 0;
        while i < n
            invariant
                i <= n,
                n == ids.len(),
                self.current_chat == before.current_chat,
                self.chat_history == before.chat_history,
                self.current_chat_profile == before.current_chat_profile,
                self.chat_history_index == before.chat_history_index,
                self.current_chat_profile.model_ids@ == ids,
                forall|j: int| 0 <= j < i ==> #[trigger] self.current_messages@.contains_key(ids[j]) && self.current_messages@[ids[j]]@.len() == 0,
                forall|m: i64| #[trigger] self.current_messages@.contains_key(m) <==> (start.contains_key(m) || ids.subrange(0, i as int).contains(m)),
                forall|m: i64| !ids.subrange(0, i as int).contains(m) && start.contains_key(m) ==> #[trigger] self.current_messages@[m] == start[m],
            decreases n - i,
        {
            let m = self.current_chat_profile.model_ids[i];
            let ghost w0 = ids.subrange(0, i as int);
            let ghost w1 = ids.subrange(0, i + 1);
            assert(w1 == w0.push(m));
            let ghost pre = self.current_messages@;
            self.current_messages.insert(m, Vec::new());
            assert forall|j: int| 0 <= j < i + 1 implies #[trigger] self.current_messages@.contains_key(ids[j]) && self.current_messages@[ids[j]]@.len() == 0 by {
                if j < i && ids[j] != m {
                    assert(pre.contains_key(ids[j]));
                }
            }
            assert forall|x: i64| #[trigger] self.current_messages@.contains_key(x) <==> (start.contains_key(x) || w1.contains(x)) by {
                if w0.contains(x) {
                    let j = choose|j: int| 0 <= j < w0.len() && w0[j] == x;
                    assert(w1[j] == x);
                }
                if w1.contains(x) && x != m {
                    let j = choose|j: int| 0 <= j < w1.len() && w1[j] == x;
                    assert(w0[j] == x);
                }
                if x == m {
                    assert(w1[i as int] == x);
                }
            }
            assert forall|x: i64| !w1.contains(x) && start.contains_key(x) implies #[trigger] self.current_messages@[x] == start[x] by {
                if w0.contains(x) {
                    let j = choose|j: int| 0 <= j < w0.len() && w0[j] == x;
                    assert(w1[j] == x);
                }
                assert(w1[i as int] == m);
            }
            i += 1;
        }
        assert(ids.subrange(0, n as int) == ids);
        assert forall|m: i64| ids.contains(m) implies #[trigger] self.view(m).len() == 0 by {
            let j = choose|j: int| 0 <= j < ids.len() && ids[j] == m;
            assert(self.current_messages@.contains_key(ids[j]));
        }
    }

    /// The chat selected in the history list, if the selection is valid.
    pub fn selected_chat(&self) -> (r: Option<Chat>)
        ensures
            self.chat_history_index < self.chat_history@.len() ==> r == Some(self.chat_history@[self.chat_history_index as int]),
            self.chat_history_index >= self.chat_history@.len() ==> r is None,
    {
        if self.chat_history_index < self.chat_history.len() {
            Some(self.chat_history[self.chat_history_index].clone())
        } else {
            None
        }
    }

    /// Makes `chat` current. A stored chat brings its bound models and tools,
    /// and each bound model's view is rebuilt from the log; a chat not yet
    /// stored takes the default profile and has no views.
    pub fn load_chat(&mut self, chat: Chat, stored: Option<StoredChat>)
        ensures
            final(self).current_chat == chat,
            final(self).current_model_idx == 0,
            stored matches Some(sc) ==> {
                &&& final(self).current_chat_profile.chat_id == chat.id
                &&& final(self).current_chat_profile.model_ids@ == sc.model_ids@
                &&& final(self).current_chat_profile.tool_ids@ == sc.tool_ids@
                &&& forall|m: i64| #[trigger] final(self).current_messages@.contains_key(m) <==> sc.model_ids@.contains(m)
                &&& forall|m: i64| sc.model_ids@.contains(m) ==> #[trigger] final(self).view(m) == view_of(sc.messages@, m)
            },
            stored is None ==> {
                &&& final(self).current_chat_profile.chat_id == old(self).default_profile.chat_id
                &&& final(self).current_chat_profile.model_ids@ == old(self).default_profile.model_ids@
                &&& final(self).current_chat_profile.tool_ids@ == old(self).default_profile.tool_ids@
                &&& final(self).current_messages@.len() == 0
            },
            forall|m: i64| #[trigger] final(self).current_message_index@.contains_key(m)
                <==> final(self).current_chat_profile.model_ids@.contains(m),
            forall|m: i64| final(self).current_message_index@.contains_key(m) ==> #[trigger] final(self).current_message_index@[m] == 0,
            final(self).chat_history == old(self).chat_history,
    {
        self.current_chat = chat;
        match stored {
            Some(sc) => {
                self.current_messages = build_views(&sc.messages, &sc.model_ids);
                self.current_chat_profile = ChatProfile { chat_id: self.current_chat.id, model_ids: sc.model_ids, tool_ids: sc.tool_ids };
            },
            None => {
                self.current_messages.clear();
                self.current_chat_profile = self.default_profile.clone();
            },
        }
        self.current_model_idx = 0;
        self.current_message_index = focus_start(&self.current_chat_profile.model_ids);
    }

    /// How a bound model that cannot run is reported: its name and its
    /// provider's name, or placeholders when either is unknown.
    pub open spec fn unavailable_label(&self, m: i64) -> (Seq<char>, Seq<char>) {
        if self.all_models@.contains_key(m) {
            let md = self.all_models@[m];
            (md.model@, if self.providers@.contains_key(md.provider_id) {
                self.providers@[md.provider_id].name@
            } else {
                "Unknown Provider"@
            })
        } else {
            ("Unknown Model (ID: "@ + decimal_text(m as int) + ")"@, "Unknown Provider"@)
        }
    }

    /// The bound models of the current chat that are not available.
    pub open spec fn unavailable_ids(&self) -> Seq<i64> {
        self.current_chat_profile.model_ids@.filter(missing_from(self.available_models@))
    }

    /// Names each bound model that is not available, in profile order.
    pub fn unavailable_models(&self) -> (r: Vec<(String, String)>)
        ensures
            r@.len() == self.unavailable_ids().len(),
            forall|i: int| 0 <= i < r@.len() ==> (#[trigger] r@[i].0@, r@[i].1@) == self.unavailable_label(self.unavailable_ids()[i]),
    {
        let ids = &self.current_chat_profile.model_ids;
        let mut r: Vec<(String, String)> = Vec::new();
        let mut i: usize = 0;
        while i < ids.len()
            invariant
                i <= ids.len(),
                ids == &self.current_chat_profile.model_ids,
                r@.len() == ids@.subrange(0, i as int).filter(missing_from(self.available_models@)).len(),
                forall|j: int| 0 <= j < r@.len() ==> (#[trigger] r@[j].0@, r@[j].1@) == self.unavailable_label(
                    ids@.subrange(0, i as int).filter(missing_from(self.available_models@))[j],
                ),
            decreases ids.len() - i,
        {
            let m = ids[i];
            let ghost f0 = ids@.subrange(0, i as int).filter(missing_from(self.available_models@));
            assert(ids@.subrange(0, i + 1) == ids@.subrange(0, i as int).push(m));
            proof {
                ids@.subrange(0, i as int).lemma_filter_push(m, missing_from(self.available_models@));
            }
            if !self.available_models.contains_key(&m) {
                let entry = match self.all_models.get(&m) {
                    Some(md) => {
                        let provider_name = match self.providers.get(&md.provider_id) {
                            Some(p) => p.name.clone(),
                            None => "Unknown Provider".to_string(),
                        };
                        (md.model.clone(), provider_name)
                    },
                    None => {
                        let mut label = labelled_int("Unknown Model (ID: ", m);
                        label.append(")");
                        (label, "Unknown Provider".to_string())
                    },
                };
                r.push(entry);
                assert(ids@.subrange(0, i + 1).filter(missing_from(self.available_models@)) == f0.push(m));
            }
            i += 1;
        }
        assert(ids@.subrange(0, ids.len() as int) == ids@);
        r
    }

    /// Checks that every bound model can be selected before a prompt is sent;
    /// when some cannot, they are listed and the error dialog opens.
    pub fn check_models_available(&mut self) -> (r: bool)
        ensures
            r == (old(self).unavailable_ids().len() == 0),
            r ==> final(self).state == old(self).state && final(self).unavailable_models_info == old(self).unavailable_models_info,
            !r ==> final(self).state == AppState::UnavailableModelsError,
            !r ==> final(self).unavailable_models_info@.len() == old(self).unavailable_ids().len(),
            !r ==> forall|i: int| 0 <= i < final(self).unavailable_models_info@.len() ==> (
                #[trigger] final(self).unavailable_models_info@[i].0@,
                final(self).unavailable_models_info@[i].1@,
            ) == old(self).unavailable_label(old(self).unavailable_ids()[i]),
            final(self).current_messages == old(self).current_messages,
            final(self).current_chat_profile == old(self).current_chat_profile,
    {
        let missing = self.unavailable_models();
        if missing.len() == 0 {
            true
        } else {
            self.unavailable_models_info = missing;
            self.state = AppState::UnavailableModelsError;
            false
        }
    }

    /// Whether the current chat's models may still change: only while it has no messages.
    pub fn can_edit_chat_models(&self) -> (r: bool)
        ensures
            r == (self.current_messages@.len() == 0),
    {
        self.current_messages.is_empty()
    }

    /// Applies the models picked in the selection dialog. The default profile
    /// also seeds the current chat while it has no messages; a chat's own
    /// models change only while it has none.
    pub fn apply_model_selection(&mut self, mode: ModelSelectionMode, selected: Vec<i64>)
        ensures
            mode == ModelSelectionMode::DefaultModels ==> final(self).default_profile.model_ids@ == selected@,
            mode == ModelSelectionMode::CurrentChatModels ==> final(self).default_profile == old(self).default_profile,
            old(self).current_messages@.len() == 0 ==> final(self).current_chat_profile.model_ids@ == selected@,
            old(self).current_messages@.len() != 0 ==> final(self).current_chat_profile == old(self).current_chat_profile,
            final(self).current_messages == old(self).current_messages,
    {
        let editable = self.current_messages.is_empty();
        match mode {
            ModelSelectionMode::DefaultModels => {
                let copy = selected.clone();
                assert(copy@ =~= selected@);
                self.default_profile.model_ids = copy;
                if editable {
                    self.current_chat_profile.model_ids = selected;
                }
            },
            ModelSelectionMode::CurrentChatModels => {
                if editable {
                    self.current_chat_profile.model_ids = selected;
                }
            },
        }
    }

    /// Sets the title the user typed on the current chat and its history entry.
    pub fn set_user_title(&mut self, title: String)
        ensures
            final(self).current_chat == (Chat { id: old(self).current_chat.id, dt: old(self).current_chat.dt, title: Some(title) }),
            old(self).chat_history_index < old(self).chat_history@.len() ==> final(self).chat_history@ == old(self).chat_history@.update(
                old(self).chat_history_index as int,
                Chat {
                    id: old(self).chat_history@[old(self).chat_history_index as int].id,
                    dt: old(self).chat_history@[old(self).chat_history_index as int].dt,
                    title: Some(title),
                },
            ),
            old(self).chat_history_index >= old(self).chat_history@.len() ==> final(self).chat_history == old(self).chat_history,
            final(self).current_messages == old(self).current_messages,
    {
        let k = self.chat_history_index;
        if k < self.chat_history.len() {
            let e = Chat { id: self.chat_history[k].id, dt: self.chat_history[k].dt, title: Some(title.clone()) };
            self.chat_history.set(k, e);
        }
        self.current_chat.title = Some(title);
    }

    /// Drops a deleted chat from the history and keeps the selection inside
    /// the list. Returns whether the history is now empty.
    pub fn forget_chat(&mut self, chat_id: i64) -> (r: bool)
        ensures
            final(self).chat_history@ == old(self).chat_history@.filter(not_chat(chat_id)),
            r == (final(self).chat_history@.len() == 0),
            old(self).chat_history_index < final(self).chat_history@.len() || old(self).chat_history_index == 0
                ==> final(self).chat_history_index == old(self).chat_history_index,
            !(old(self).chat_history_index < final(self).chat_history@.len() || old(self).chat_history_index == 0)
                ==> final(self).chat_history_index == (if final(self).chat_history@.len() > 0 {
                    final(self).chat_history@.len() - 1
                } else {
                    0
                }),
    {
        let mut kept: Vec<Chat> = Vec::new();
        let mut i: usize = 0;
        while i < self.chat_history.len()
            invariant
                i <= self.chat_history.len(),
                kept@ == self.chat_history@.subrange(0, i as int).filter(not_chat(chat_id)),
            decreases self.chat_history.len() - i,
        {
            let c = self.chat_history[i].clone();
            assert(self.chat_history@.subrange(0, i + 1) == self.chat_history@.subrange(0, i as int).push(c));
            proof {
                self.chat_history@.subrange(0, i as int).lemma_filter_push(c, not_chat(chat_id));
            }
            if c.id != chat_id {
                kept.push(c);
            }
            i += 1;
        }
        assert(self.chat_history@.subrange(0, self.chat_history.len() as int) == self.chat_history@);
        self.chat_history = kept;
        let n = self.chat_history.len();
        if self.chat_history_index >= n && self.chat_history_index > 0 {
            self.chat_history_index = if n > 0 { n - 1 } else { 0 };
        }
        n == 0
    }

    /// Replaces the history list and selects chat `selected` again, or the
    /// first entry when it is gone or there was none.
    pub fn reselect_chat(&mut self, history: Vec<Chat>, selected: Option<i64>)
        ensures
            final(self).chat_history == history,
            selected matches Some(id) ==> (listed(history@, id) ==> first_chat(history@, id, final(self).chat_history_index as int)),
            selected matches Some(id) ==> (!listed(history@, id) ==> final(self).chat_history_index == 0),
            selected is None ==> final(self).chat_history_index == 0,
    {
        self.chat_history_index = match selected {
            Some(id) => match find_chat(&history, id) {
                Some(i) => i,
                None => 0,
            },
            None => 0,
        };
        self.chat_history = history;
    }

    /// Models of the default profile that are not available (their provider
    /// has no credential); they are dropped from the stored default profile.
    pub fn unavailable_default_models(&self) -> (r: Vec<i64>)
        ensures
            r@ == self.default_profile.model_ids@.filter(missing_from(self.available_models@)),
    {
        let ids = &self.default_profile.model_ids;
        let mut r: Vec<i64> = Vec::new();
        let mut i: usize = 0;
        while i < ids.len()
            invariant
                i <= ids.len(),
                ids == &self.default_profile.model_ids,
                r@ == ids@.subrange(0, i as int).filter(missing_from(self.available_models@)),
            decreases ids.len() - i,
        {
            let m = ids[i];
            assert(ids@.subrange(0, i + 1) == ids@.subrange(0, i as int).push(m));
            proof {
                ids@.subrange(0, i as int).lemma_filter_push(m, missing_from(self.available_models@));
            }
            if !self.available_models.contains_key(&m) {
                r.push(m);
            }
            i += 1;
        }
        assert(ids@.subrange(0, ids.len() as int) == ids@);
        r
    }

    /// provider id -> display name, for every known provider.
    pub fn provider_names(&self) -> (r: HashMap<i64, String>)
        ensures
            forall|k: i64| #[trigger] r@.contains_key(k) <==> self.providers@.contains_key(k),
            forall|k: i64| r@.contains_key(k) ==> #[trigger] r@[k] == self.providers@[k].name,
    {
        let mut r: HashMap<i64, String> = HashMap::new();
        let ghost expected = vstd::std_specs::hash::spec_hash_map_iter(&self.providers).remaining();
        let ghost mut n: int = 0;
        for entry in it: self.providers.iter()
            invariant
                it.seq() == expected,
                n == it.index(),
                forall|k: i64| #[trigger] r@.contains_key(k) ==> self.providers@.contains_key(k) && r@[k] == self.providers@[k].name,
                forall|j: int| 0 <= j < n ==> r@.contains_key(*(#[trigger] expected[j]).0),
        {
            let (k, p) = entry;
            let ghost before = r@;
            r.insert(*k, p.name.clone());
            proof {
                assert forall|j: int| 0 <= j < n + 1 implies r@.contains_key(*(#[trigger] expected[j]).0) by {
                    if j < n {
                        assert(before.contains_key(*expected[j].0));
                    }
                }
                n = n + 1;
            }
        }
        assert forall|k: i64| self.providers@.contains_key(k) implies #[trigger] r@.contains_key(k) by {
            assert(expected.contains((&k, &self.providers@[k])));
            let j = choose|j: int| 0 <= j < expected.len() && expected[j] == (&k, &self.providers@[k]);
            assert(r@.contains_key(*expected[j].0));
        }
        r
    }

    /// Opens the model selection dialog on the default profile or on the
    /// current chat's models. A chat's models cannot change once it has
    /// messages, so that case opens nothing.
    pub fn open_model_selection(&mut self, mode: ModelSelectionMode) -> (r: Option<ModelSelectModal>)
        ensures
            (mode == ModelSelectionMode::CurrentChatModels && old(self).current_messages@.len() != 0) <==> r is None,
            r is None ==> final(self).state == old(self).state,
            r matches Some(m) ==> {
                &&& final(self).state == AppState::ModelSelection
                &&& m.mode == mode
                &&& m.enabled_model_order@ == (if mode == ModelSelectionMode::DefaultModels {
                    old(self).default_profile.model_ids@
                } else {
                    old(self).current_chat_profile.model_ids@
                })
                &&& m.available_models@ == old(self).available_models@
                &&& forall|k: i64| #[trigger] m.provider_names@.contains_key(k) <==> old(self).providers@.contains_key(k)
            },
            final(self).current_messages == old(self).current_messages,
            final(self).current_chat_profile == old(self).current_chat_profile,
            final(self).default_profile == old(self).default_profile,
    {
        if mode == ModelSelectionMode::CurrentChatModels && !self.current_messages.is_empty() {
            return None;
        }
        let names = self.provider_names();
        let available = self.available_models.clone();
        let modal = match mode {
            ModelSelectionMode::DefaultModels => ModelSelectModal::new(
                mode,
                self.default_profile.model_ids.as_slice(),
                available,
                names,
            ),
            ModelSelectionMode::CurrentChatModels => ModelSelectModal::new(
                mode,
                self.current_chat_profile.model_ids.as_slice(),
                available,
                names,
            ),
        };
        self.state = AppState::ModelSelection;
        Some(modal)
    }

    /// Installs the stored default profile. It also seeds the current chat
    /// while that chat has no messages; with no default model at all, the
    /// provider dialog opens.
    pub fn set_default_profile(&mut self, profile: ChatProfile)
        ensures
            final(self).default_profile == profile,
            old(self).current_messages@.len() == 0 ==> final(self).current_chat_profile.chat_id == profile.chat_id
                && final(self).current_chat_profile.model_ids@ == profile.model_ids@
                && final(self).current_chat_profile.tool_ids@ == profile.tool_ids@,
            old(self).current_messages@.len() != 0 ==> final(self).current_chat_profile == old(self).current_chat_profile,
            final(self).state == (if profile.model_ids@.len() == 0 {
                AppState::ProviderDialog
            } else {
                AppState::Normal
            }),
            final(self).current_messages == old(self).current_messages,
            final(self).available_models == old(self).available_models,
    {
        if self.current_messages.is_empty() {
            self.current_chat_profile = profile.clone();
        }
        self.state = if profile.model_ids.len() == 0 {
            AppState::ProviderDialog
        } else {
            AppState::Normal
        };
        self.default_profile = profile;
    }

    /// Whether some model of the default profile is available; when none is,
    /// the default profile is seeded again with the first viable model.
    pub fn keeps_default_model(&self) -> (r: bool)
        ensures
            r == exists|i: int| 0 <= i < self.default_profile.model_ids@.len()
                && self.available_models@.contains_key(#[trigger] self.default_profile.model_ids@[i]),
    {
        let ids = &self.default_profile.model_ids;
        let mut i: usize = 0;
        while i < ids.len()
            invariant
                i <= ids.len(),
                ids == &self.default_profile.model_ids,
                forall|j: int| 0 <= j < i ==> !self.available_models@.contains_key(#[trigger] ids@[j]),
            decreases ids.len() - i,
        {
            if self.available_models.contains_key(&ids[i]) {
                return true;
            }
            i += 1;
        }
        false
    }

    /// Whether the current chat is still unstored, so that its first prompt
    /// stores it and derives its title.
    pub fn chat_is_new(&self) -> (r: bool)
        ensures
            r == (self.current_chat.id == 0),
    {
        self.current_chat.id == 0
    }
}

} // verus!
