use vstd::prelude::*;
use std::collections::HashMap;

use crate::chat::{is_content_reply, is_error_reply, is_new_user_message, ChatMessage};

verus! {

broadcast use vstd::std_specs::hash::group_hash_axioms;

/// System preamble of every generation.
pub const SYSTEM_PROMPT: &'static str = "You are a helpful assistant.";

/// System preamble of the title request.
pub const TITLE_SYSTEM_PROMPT: &'static str = "You are a conversation title generator.";

/// The synthetic instruction appended to a conversation to ask for its title.
pub const TITLE_INSTRUCTION: &'static str = "Generate a concise title for the above conversation. It should be no more than 6 words.";

/// Content recorded when a provider answers without content.
pub const EMPTY_REPLY: &'static str = "No response generated";

/// Prefix of the error recorded when a generation fails.
pub const FAILURE_PREFIX: &'static str = "Inference failed: ";

/// What became of the previous link of a (chat, model) chain.
pub enum PriorLink {
    /// There was no previous link.
    Absent,
    /// The previous link finished and handed over the conversation so far.
    Finished(Vec<ChatMessage>),
    /// The previous link terminated abnormally.
    Failed,
}

/// The conversation a new link generates from. After a finished link it is
/// that link's conversation followed by the newest turn of the submitted
/// view; otherwise (no link, or a failed one) it is the submitted view.
pub open spec fn chained_input(prior: PriorLink, submitted: Seq<ChatMessage>) -> Seq<ChatMessage> {
    match prior {
        PriorLink::Finished(c) => if submitted.len() > 0 {
            c@.push(submitted.last())
        } else {
            c@
        },
        _ => submitted,
    }
}

/// Builds the input of a new link from its predecessor's outcome and the view
/// captured at submission.
pub fn chain_conversation(prior: PriorLink, submitted: Vec<ChatMessage>) -> (r: Vec<ChatMessage>)
    ensures
        r@ == chained_input(prior, submitted@),
{
    match prior {
        PriorLink::Finished(mut c) => {
            let mut submitted = submitted;
            match submitted.pop() {
                Some(newest) => {
                    c.push(newest);
                    c
                },
                None => c,
            }
        },
        _ => submitted,
    }
}

/// The assistant turn recording a generation's outcome: `Ok(Some(c))` gives
/// content `c`, `Ok(None)` the fixed empty-reply text, `Err(e)` an error-only
/// turn that says the generation failed.
pub fn completion_message(
    chat_id: i64,
    model_id: i64,
    outcome: Result<Option<String>, String>,
    user_message_dt: i64,
) -> (r: ChatMessage)
    ensures
        outcome matches Ok(Some(c)) ==> is_content_reply(r, chat_id, model_id, user_message_dt, c@),
        outcome matches Ok(None) ==> is_content_reply(r, chat_id, model_id, user_message_dt, EMPTY_REPLY@),
        outcome matches Err(e) ==> is_error_reply(r, chat_id, model_id, user_message_dt, FAILURE_PREFIX@ + e@),
{
    match outcome {
        Ok(Some(c)) => ChatMessage::new_assistant_message(chat_id, model_id, c, user_message_dt),
        Ok(None) => ChatMessage::new_assistant_message(chat_id, model_id, EMPTY_REPLY.to_string(), user_message_dt),
        Err(e) => {
            let mut text = FAILURE_PREFIX.to_string();
            text.append(e.as_str());
            ChatMessage::new_assistant_message_with_error(chat_id, model_id, text, user_message_dt)
        },
    }
}

/// The title carried by a title generation's outcome: none on failure.
pub fn derived_title(outcome: Result<Option<String>, String>) -> (r: Option<String>)
    ensures
        outcome matches Ok(Some(c)) ==> r == Some(c),
        outcome matches Ok(None) ==> r is Some && r->Some_0@ == EMPTY_REPLY@,
        outcome is Err ==> r is None,
{
    match outcome {
        Ok(Some(c)) => Some(c),
        Ok(None) => Some(EMPTY_REPLY.to_string()),
        Err(_) => None,
    }
}

/// The conversation sent to ask for a title: the finished conversation
/// followed by one synthetic user turn holding the title instruction.
pub fn title_conversation(conversation: &Vec<ChatMessage>, chat_id: i64) -> (r: Vec<ChatMessage>)
    ensures
        r@.len() == conversation@.len() + 1,
        r@.drop_last() == conversation@,
        is_new_user_message(r@.last(), chat_id, TITLE_INSTRUCTION@),
{
    let mut r = conversation.clone();
    assert(r@ =~= conversation@);
    r.push(ChatMessage::new_user_message(chat_id, TITLE_INSTRUCTION.to_string()));
    r
}

/// The tail handle of each (chat, model) chain: at most one per pair.
pub struct ChainTable<H> {
    links: HashMap<i64, HashMap<i64, H>>,
}

impl<H> ChainTable<H> {
    /// The tail handle of the chain of `model_id` in `chat_id`, if any.
    pub closed spec fn tail(&self, chat_id: i64, model_id: i64) -> Option<H> {
        if self.links@.contains_key(chat_id) && self.links@[chat_id]@.contains_key(model_id) {
            Some(self.links@[chat_id]@[model_id])
        } else {
            None
        }
    }

    /// A table with no chains.
    pub fn new() -> (r: Self)
        ensures
            forall|c: i64, m: i64| #[trigger] r.tail(c, m) is None,
    {
        ChainTable { links: HashMap::new() }
    }

    /// Removes and returns the tail handle of a chain.
    pub fn take(&mut self, chat_id: i64, model_id: i64) -> (r: Option<H>)
        ensures
            r == old(self).tail(chat_id, model_id),
            final(self).tail(chat_id, model_id) is None,
            forall|c: i64, m: i64| (c, m) != (chat_id, model_id) ==> #[trigger] final(self).tail(c, m) == old(self).tail(c, m),
    {
        match self.links.remove(&chat_id) {
            Some(mut inner) => {
                let r = inner.remove(&model_id);
                self.links.insert(chat_id, inner);
                r
            },
            None => None,
        }
    }

    /// Makes `handle` the tail of a chain, in place of any earlier tail.
    pub fn register(&mut self, chat_id: i64, model_id: i64, handle: H)
        ensures
            final(self).tail(chat_id, model_id) == Some(handle),
            forall|c: i64, m: i64| (c, m) != (chat_id, model_id) ==> #[trigger] final(self).tail(c, m) == old(self).tail(c, m),
    {
        let mut inner = match self.links.remove(&chat_id) {
            Some(inner) => inner,
            None => HashMap::new(),
        };
        inner.insert(model_id, handle);
        self.links.insert(chat_id, inner);
    }

    /// Makes `handle` the new tail of a chain and hands back the previous tail,
    /// which the new link must await before doing any visible work. The new
    /// handle is registered before the caller can yield, so no completion can
    /// be observed ahead of its registration.
    pub fn advance(&mut self, chat_id: i64, model_id: i64, handle: H) -> (prior: Option<H>)
        ensures
            prior == old(self).tail(chat_id, model_id),
            final(self).tail(chat_id, model_id) == Some(handle),
            forall|c: i64, m: i64| (c, m) != (chat_id, model_id) ==> #[trigger] final(self).tail(c, m) == old(self).tail(c, m),
    {
        let prior = self.take(chat_id, model_id);
        self.register(chat_id, model_id, handle);
        prior
    }
}

/// Links submitted one after another to the same (chat, model) chain are
/// ordered: when `tables[k + 1]` is `tables[k]` advanced with `links[k]`,
/// which handed back `priors[k]`, every link after the first awaits exactly
/// the link submitted just before it, so the chain runs in submission order.
pub proof fn lemma_chain_order<H>(
    tables: Seq<ChainTable<H>>,
    links: Seq<H>,
    priors: Seq<Option<H>>,
    chat_id: i64,
    model_id: i64,
)
    requires
        tables.len() == links.len() + 1,
        priors.len() == links.len(),
        forall|k: int| 0 <= k < links.len() ==> #[trigger] priors[k] == tables[k].tail(chat_id, model_id),
        forall|k: int| 0 <= k < links.len() ==> #[trigger] tables[k + 1].tail(chat_id, model_id) == Some(links[k]),
    ensures
        forall|k: int| 1 <= k < links.len() ==> #[trigger] priors[k] == Some(links[k - 1]),
        links.len() > 0 ==> tables[links.len() as int].tail(chat_id, model_id) == Some(links.last()),
{
    assert forall|k: int| 1 <= k < links.len() implies #[trigger] priors[k] == Some(links[k - 1]) by {
        assert(tables[(k - 1) + 1].tail(chat_id, model_id) == Some(links[k - 1]));
    }
    if links.len() > 0 {
        assert(tables[(links.len() - 1) + 1].tail(chat_id, model_id) == Some(links[links.len() - 1]));
    }
}

/// Links submitted to one (chat, model) chain finish, and so store their
/// turns, in submission order: with the chain built as in `lemma_chain_order`,
/// and each link finishing (at time `finished[k]`) only after the link it
/// awaited has finished, the finishing times increase with submission order.
pub proof fn lemma_chain_finishes_in_order<H>(
    tables: Seq<ChainTable<H>>,
    links: Seq<H>,
    priors: Seq<Option<H>>,
    finished: Seq<int>,
    chat_id: i64,
    model_id: i64,
)
    requires
        tables.len() == links.len() + 1,
        priors.len() == links.len(),
        finished.len() == links.len(),
        forall|k: int| 0 <= k < links.len() ==> #[trigger] priors[k] == tables[k].tail(chat_id, model_id),
        forall|k: int| 0 <= k < links.len() ==> #[trigger] tables[k + 1].tail(chat_id, model_id) == Some(links[k]),
        forall|k: int| 1 <= k < links.len() && #[trigger] priors[k] == Some(links[k - 1]) ==> finished[k - 1] < finished[k],
    ensures
        forall|j: int, k: int| 0 <= j < k < links.len() ==> #[trigger] finished[j] < #[trigger] finished[k],
{
    lemma_chain_order(tables, links, priors, chat_id, model_id);
    assert forall|t: int| 1 <= t < finished.len() implies finished[t - 1] < #[trigger] finished[t] by {
        assert(priors[t] == Some(links[t - 1]));
    }
    assert forall|j: int, k: int| 0 <= j < k < links.len() implies #[trigger] finished[j] < #[trigger] finished[k] by {
        lemma_increasing_from(finished, j, k);
    }
}

proof fn lemma_increasing_from(finished: Seq<int>, j: int, k: int)
    requires
        0 <= j < k < finished.len(),
        forall|t: int| 1 <= t < finished.len() ==> finished[t - 1] < #[trigger] finished[t],
    ensures
        finished[j] < finished[k],
    decreases k - j,
{
    if j + 1 < k {
        lemma_increasing_from(finished, j, k - 1);
    }
    assert(finished[k - 1] < finished[k]);
}

} // verus!
