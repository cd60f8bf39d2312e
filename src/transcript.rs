use vstd::prelude::*;

use std::collections::HashMap;

use crate::chat::ChatMessage;

verus! {

broadcast use vstd::std_specs::hash::group_hash_axioms;

/// A message belongs to the view of model `m` when it is shared (no
/// originating model) or was produced by `m`.
pub open spec fn in_view(msg: ChatMessage, m: i64) -> bool {
    msg.model_id is None || msg.model_id == Some(m)
}

/// The view of model `m`: the messages of `log` that belong to it, in log order.
pub open spec fn view_of(log: Seq<ChatMessage>, m: i64) -> Seq<ChatMessage>
    decreases log.len(),
{
    if log.len() == 0 {
        Seq::empty()
    } else {
        let prev = view_of(log.drop_last(), m);
        if in_view(log.last(), m) {
            prev.push(log.last())
        } else {
            prev
        }
    }
}

/// Builds the view of one model from a chat's chronological message log.
pub fn model_view(log: &Vec<ChatMessage>, model_id: i64) -> (r: Vec<ChatMessage>)
    ensures
        r@ == view_of(log@, model_id),
{
    let mut r: Vec<ChatMessage> = Vec::new();
    let mut i: usize = 0;
    while i < log.len()
        invariant
            i <= log.len(),
            r@ == view_of(log@.subrange(0, i as int), model_id),
        decreases log.len() - i,
    {
        let msg = &log[i];
        assert(log@.subrange(0, i + 1).drop_last() == log@.subrange(0, i as int));
        if msg.model_id.is_none() || msg.model_id == Some(model_id) {
            r.push(msg.clone());
        }
        i += 1;
    }
    assert(log@.subrange(0, log.len() as int) == log@);
    r
}

/// Builds the view of each of `model_ids` from a chat's log, keyed by model.
pub fn build_views(log: &Vec<ChatMessage>, model_ids: &Vec<i64>) -> (r: HashMap<i64, Vec<ChatMessage>>)
    ensures
        forall|m: i64| #[trigger] r@.contains_key(m) <==> model_ids@.contains(m),
        forall|m: i64| model_ids@.contains(m) ==> #[trigger] r@[m]@ == view_of(log@, m),
{
    let mut r: HashMap<i64, Vec<ChatMessage>> = HashMap::new();
    let mut i: usize = 0;
    while i < model_ids.len()
        invariant
            i <= model_ids.len(),
            forall|m: i64| #[trigger] r@.contains_key(m) <==> model_ids@.subrange(0, i as int).contains(m),
            forall|m: i64| r@.contains_key(m) ==> #[trigger] r@[m]@ == view_of(log@, m),
        decreases model_ids.len() - i,
    {
        let m = model_ids[i];
        let ghost w0 = model_ids@.subrange(0, i as int);
        let ghost w1 = model_ids@.subrange(0, i + 1);
        assert(w1 == w0.push(m));
        r.insert(m, model_view(log, m));
        assert forall|k: i64| #[trigger] r@.contains_key(k) <==> w1.contains(k) by {
            if w0.contains(k) {
                let j = choose|j: int| 0 <= j < w0.len() && w0[j] == k;
                assert(w1[j] == k);
            }
            if w1.contains(k) && k != m {
                let j = choose|j: int| 0 <= j < w1.len() && w1[j] == k;
                assert(w0[j] == k);
            }
            if k == m {
                assert(w1[i as int] == k);
            }
        }
        i += 1;
    }
    assert(model_ids@.subrange(0, model_ids.len() as int) == model_ids@);
    r
}

/// A view holds exactly the log's messages that belong to it: every shared
/// (user) message is in every model's view, a model's own replies are in its
/// view, and replies of other models (bound or not) are in none of it.
pub proof fn lemma_view_members(log: Seq<ChatMessage>, m: i64)
    ensures
        forall|i: int| 0 <= i < view_of(log, m).len() ==> #[trigger] in_view(view_of(log, m)[i], m),
        forall|i: int| 0 <= i < view_of(log, m).len() ==> log.contains(#[trigger] view_of(log, m)[i]),
        forall|i: int| 0 <= i < log.len() && in_view(log[i], m) ==> view_of(log, m).contains(#[trigger] log[i]),
    decreases log.len(),
{
    if log.len() > 0 {
        let prev_log = log.drop_last();
        lemma_view_members(prev_log, m);
        let prev = view_of(prev_log, m);
        let v = view_of(log, m);
        assert forall|i: int| 0 <= i < prev.len() implies log.contains(#[trigger] prev[i]) by {
            let j = choose|j: int| 0 <= j < prev_log.len() && prev_log[j] == prev[i];
            assert(log[j] == prev[i]);
        }
        assert(log[log.len() - 1] == log.last());
        assert forall|i: int| 0 <= i < log.len() && in_view(log[i], m) implies v.contains(#[trigger] log[i]) by {
            if i < log.len() - 1 {
                assert(prev_log[i] == log[i]);
                assert(prev.contains(prev_log[i]));
                let j = choose|j: int| 0 <= j < prev.len() && prev[j] == prev_log[i];
                assert(v[j] == prev[j]);
            } else {
                assert(v[v.len() - 1] == log[i]);
            }
        }
    }
}

/// Rebuilding a view from a view changes nothing: the projection is idempotent,
/// so a view can be recomputed from any reload of the same log.
pub proof fn lemma_view_idempotent(log: Seq<ChatMessage>, m: i64)
    ensures
        view_of(view_of(log, m), m) == view_of(log, m),
    decreases log.len(),
{
    if log.len() > 0 {
        lemma_view_idempotent(log.drop_last(), m);
        let prev = view_of(log.drop_last(), m);
        if in_view(log.last(), m) {
            assert(prev.push(log.last()).drop_last() == prev);
        }
    }
}

} // verus!

verus! {

/// `idx` is where a reply to the message `origin_id` goes in `view`: just after
/// the first message with that identity, or at the end when there is none.
pub open spec fn reply_slot(view: Seq<ChatMessage>, origin_id: i64, idx: int) -> bool {
    ||| (1 <= idx <= view.len() && view[idx - 1].id == origin_id && forall|j: int|
        0 <= j < idx - 1 ==> #[trigger] view[j].id != origin_id)
    ||| (idx == view.len() && forall|j: int| 0 <= j < view.len() ==> #[trigger] view[j].id != origin_id)
}

/// Inserts `reply` immediately after the message identified by `origin_id`
/// (found by identity, not by index, since other replies may have been
/// inserted since it was sent); appends it when that message is missing.
/// Returns the position of `reply`.
pub fn insert_reply(view: &mut Vec<ChatMessage>, origin_id: i64, reply: ChatMessage) -> (idx: usize)
    requires
        old(view).len() < usize::MAX,
    ensures
        reply_slot(old(view)@, origin_id, idx as int),
        final(view)@ == old(view)@.insert(idx as int, reply),
{
    let mut i: usize = 0;
    while i < view.len() && view[i].id != origin_id
        invariant
            i <= view.len(),
            forall|j: int| 0 <= j < i ==> #[trigger] view@[j].id != origin_id,
        decreases view.len() - i,
    {
        i += 1;
    }
    let idx = if i < view.len() { i + 1 } else { view.len() };
    view.insert(idx, reply);
    idx
}

/// Where a reply goes is determined by the view and the identity of its user
/// turn alone, so replies from different models, each placed in its own
/// model's view, land in the same places whatever order they arrive in.
pub proof fn lemma_reply_slot_unique(view: Seq<ChatMessage>, origin_id: i64, a: int, b: int)
    requires
        reply_slot(view, origin_id, a),
        reply_slot(view, origin_id, b),
    ensures
        a == b,
{
    if a != b {
        if 1 <= a <= view.len() && view[a - 1].id == origin_id && 1 <= b <= view.len() && view[b - 1].id == origin_id {
            if a < b {
                assert(view[a - 1].id != origin_id);
            } else {
                assert(view[b - 1].id != origin_id);
            }
        } else if 1 <= a <= view.len() && view[a - 1].id == origin_id {
            assert(view[a - 1].id != origin_id);
        } else {
            assert(view[b - 1].id != origin_id);
        }
    }
}

/// When the user turn `origin_id` occurs once in a view, at position `p`,
/// its reply goes at `p + 1`, directly after it.
pub proof fn lemma_reply_follows_origin(view: Seq<ChatMessage>, origin_id: i64, p: int, idx: int)
    requires
        0 <= p < view.len(),
        view[p].id == origin_id,
        forall|j: int| 0 <= j < view.len() && j != p ==> #[trigger] view[j].id != origin_id,
        reply_slot(view, origin_id, idx),
    ensures
        idx == p + 1,
{
    assert(reply_slot(view, origin_id, p + 1));
    lemma_reply_slot_unique(view, origin_id, idx, p + 1);
}

} // verus!
