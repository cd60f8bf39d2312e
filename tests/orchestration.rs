use shore::catalog::{
    catalog_diff, first_enabled_model, lowest_model_id, needs_refresh, providers_to_refresh, reconcile_provider,
    FetchOutcome, ProviderAction, RefreshPass,
};
use shore::chain::{
    chain_conversation, completion_message, derived_title, title_conversation, ChainTable, PriorLink, EMPTY_REPLY,
    TITLE_INSTRUCTION,
};
use shore::chat::{Chat, ChatMessage, ChatProfile, ChatRole};
use shore::event::{AppState, InferenceEvent};
use shore::model::Model;
use shore::provider::Provider;
use shore::session::{LinkPlan, Session, StoredChat};
use shore::text::{prompt_is_blank, title_from_input};
use shore::transcript::{build_views, insert_reply, model_view};

fn model(id: i64, provider_id: i64, name: &str) -> Model {
    Model { id, provider_id, model: name.to_string(), disabled: false, deprecated: false, created_dt: 0 }
}

fn provider(id: i64, name: &str) -> Provider {
    Provider {
        id,
        name: name.to_string(),
        base_url: "http://localhost".to_string(),
        disabled: false,
        deprecated: false,
        api_key_env_var: String::new(),
        created_dt: 0,
        models_from_list: false,
        availability_requires_models_response: false,
        last_models_update_timestamp: 0,
        models_refresh_interval_seconds: 0,
    }
}

fn user_msg(id: i64, chat_id: i64, text: &str) -> ChatMessage {
    let mut m = ChatMessage::new_user_message(chat_id, text.to_string());
    m.id = id;
    m
}

fn reply(id: i64, chat_id: i64, model_id: i64, text: &str) -> ChatMessage {
    let mut m = ChatMessage::new_assistant_message(chat_id, model_id, text.to_string(), 0);
    m.id = id;
    m
}

fn contents(v: &[ChatMessage]) -> Vec<Option<String>> {
    v.iter().map(|m| m.content.clone()).collect()
}

/// A session with models 1 and 2 (provider 10, with a client) bound to a
/// freshly stored chat 5.
fn two_model_session() -> Session<u8> {
    let profile = ChatProfile { chat_id: 0, model_ids: vec![1, 2], tool_ids: vec![] };
    let mut s: Session<u8> = Session::new(profile);
    s.register_provider(provider(10, "local"), Some(0));
    s.register_model(model(1, 10, "alpha"));
    s.register_model(model(2, 10, "beta"));
    s.create_new_chat();
    s.bind_new_chat(5);
    s
}

#[test]
fn chat_role_codes_round_trip() {
    assert_eq!(ChatRole::from_i64(1).unwrap(), ChatRole::User);
    assert_eq!(ChatRole::from_i64(2).unwrap(), ChatRole::Assistant);
    assert_eq!(ChatRole::from_i64(3).unwrap(), ChatRole::ToolResult);
    assert_eq!(ChatRole::User.to_i64(), 1);
    assert_eq!(ChatRole::Assistant.to_i64(), 2);
    assert_eq!(ChatRole::ToolResult.to_i64(), 3);
    assert_eq!(ChatRole::ToolResult.to_string(), "tool_result");
    assert_eq!(ChatRole::User.to_string(), "user");
}

#[test]
fn chat_role_rejects_unknown_code() {
    assert_eq!(ChatRole::from_i64(7).unwrap_err(), "Invalid ChatRole value: 7");
    assert_eq!(ChatRole::from_i64(-12).unwrap_err(), "Invalid ChatRole value: -12");
    assert_eq!(ChatRole::from_i64(0).unwrap_err(), "Invalid ChatRole value: 0");
}

#[test]
fn view_keeps_shared_turns_and_own_replies() {
    let log = vec![
        user_msg(1, 5, "hi"),
        reply(2, 5, 1, "from one"),
        reply(3, 5, 2, "from two"),
        user_msg(4, 5, "again"),
        reply(5, 5, 3, "from an unbound model"),
    ];
    let v1 = model_view(&log, 1);
    assert_eq!(v1.iter().map(|m| m.id).collect::<Vec<_>>(), vec![1, 2, 4]);
    let v2 = model_view(&log, 2);
    assert_eq!(v2.iter().map(|m| m.id).collect::<Vec<_>>(), vec![1, 3, 4]);
    let views = build_views(&log, &vec![1, 2]);
    assert_eq!(views.len(), 2);
    assert!(views.get(&3).is_none());
    assert_eq!(views[&2].iter().map(|m| m.id).collect::<Vec<_>>(), vec![1, 3, 4]);
}

#[test]
fn view_rebuild_is_idempotent() {
    let log = vec![user_msg(1, 5, "hi"), reply(2, 5, 1, "a"), reply(3, 5, 2, "b"), user_msg(4, 5, "x")];
    let first = model_view(&log, 2);
    let second = model_view(&log, 2);
    let again = model_view(&first, 2);
    let ids = |v: &Vec<ChatMessage>| v.iter().map(|m| m.id).collect::<Vec<_>>();
    assert_eq!(ids(&first), ids(&second));
    assert_eq!(ids(&first), ids(&again));
    assert_eq!(ids(&first), vec![1, 3, 4]);
}

#[test]
fn reply_goes_after_its_origin_or_at_end() {
    let mut v = vec![user_msg(1, 5, "hi"), user_msg(2, 5, "again")];
    let idx = insert_reply(&mut v, 1, reply(9, 5, 1, "late answer"));
    assert_eq!(idx, 1);
    assert_eq!(v.iter().map(|m| m.id).collect::<Vec<_>>(), vec![1, 9, 2]);
    let idx = insert_reply(&mut v, 77, reply(10, 5, 1, "orphan"));
    assert_eq!(idx, 3);
    assert_eq!(v.iter().map(|m| m.id).collect::<Vec<_>>(), vec![1, 9, 2, 10]);
}

#[test]
fn one_failure_one_success_scenario() {
    let mut s = two_model_session();
    let user = user_msg(100, 5, "hi");
    let plans = s.begin_submission(&user, true);
    assert_eq!(plans.len(), 2);
    let mut results = Vec::new();
    for plan in plans {
        match plan {
            LinkPlan::Spawn(task) => {
                assert_eq!(contents(&task.conversation), vec![Some("hi".to_string())]);
                let outcome = if task.model_id == 1 { Err("connection reset".to_string()) } else { Ok(Some("hello".to_string())) };
                results.push((task.model_id, completion_message(task.chat_id, task.model_id, outcome, task.user_message_dt)));
            }
            LinkPlan::Rejected { .. } => panic!("both models can run"),
        }
    }
    assert!(s.is_message_loading(1, 100));
    assert!(s.is_message_loading(2, 100));
    // B reports first, then A.
    results.reverse();
    for (model_id, msg) in results {
        s.apply_completion(5, model_id, 100, msg);
    }
    assert!(!s.is_message_loading(1, 100));
    assert!(!s.is_message_loading(2, 100));
    let a = &s.current_messages[&1];
    assert_eq!(a.len(), 2);
    assert_eq!(a[0].id, 100);
    assert_eq!(a[1].chat_role, ChatRole::Assistant);
    assert_eq!(a[1].model_id, Some(1));
    assert_eq!(a[1].content, None);
    assert_eq!(a[1].error.as_deref(), Some("Inference failed: connection reset"));
    let b = &s.current_messages[&2];
    assert_eq!(b.len(), 2);
    assert_eq!(b[0].id, 100);
    assert_eq!(b[1].model_id, Some(2));
    assert_eq!(b[1].content.as_deref(), Some("hello"));
    assert_eq!(b[1].error, None);
}

#[test]
fn each_bound_model_gets_exactly_one_plan() {
    let profile = ChatProfile { chat_id: 0, model_ids: vec![1, 2, 3], tool_ids: vec![] };
    let mut s: Session<u8> = Session::new(profile);
    s.register_provider(provider(10, "keyed"), Some(0));
    s.register_provider(provider(20, "no key"), None);
    s.register_model(model(1, 10, "alpha"));
    s.register_model(model(2, 20, "beta"));
    s.create_new_chat();
    s.bind_new_chat(5);
    let user = user_msg(100, 5, "hi");
    let plans = s.begin_submission(&user, true);
    assert_eq!(plans.len(), 3);
    match &plans[0] {
        LinkPlan::Spawn(t) => {
            assert_eq!(t.model_id, 1);
            assert!(t.generate_title);
            assert_eq!(t.model_name, "alpha");
        }
        _ => panic!("model 1 can run"),
    }
    match &plans[1] {
        LinkPlan::Rejected { model_id, reply } => {
            assert_eq!(*model_id, 2);
            assert_eq!(reply.error.as_deref(), Some("Model id 2 not found"));
            assert_eq!(reply.content, None);
        }
        _ => panic!("model 2 has no credential"),
    }
    match &plans[2] {
        LinkPlan::Rejected { model_id, reply } => {
            assert_eq!(*model_id, 3);
            assert_eq!(reply.error.as_deref(), Some("Model id 3 not found"));
        }
        _ => panic!("model 3 is unknown"),
    }
    assert_eq!(s.current_messages.len(), 3);
    for m in [1, 2, 3] {
        assert_eq!(s.current_messages[&m].len(), 1);
    }
}

#[test]
fn missing_provider_client_is_rejected() {
    let profile = ChatProfile { chat_id: 0, model_ids: vec![1], tool_ids: vec![] };
    let mut s: Session<u8> = Session::new(profile);
    s.register_provider(provider(10, "p"), Some(0));
    s.register_model(model(1, 10, "alpha"));
    s.provider_clients.clear();
    s.create_new_chat();
    s.bind_new_chat(5);
    let user = user_msg(100, 5, "hi");
    let plans = s.begin_submission(&user, false);
    match &plans[0] {
        LinkPlan::Rejected { reply, .. } => {
            assert_eq!(reply.error.as_deref(), Some("Provider for model id 1 not found"));
            assert_eq!(reply.dt, user.dt);
        }
        _ => panic!("no client"),
    }
    assert!(!s.is_message_loading(1, 100));
}

#[test]
fn second_prompt_chains_on_completed_first_response() {
    let first_done = vec![user_msg(1, 5, "hi"), reply(2, 5, 1, "first answer")];
    let submitted = vec![user_msg(1, 5, "hi"), user_msg(3, 5, "again")];
    let input = chain_conversation(PriorLink::Finished(first_done), submitted);
    assert_eq!(
        contents(&input),
        vec![Some("hi".to_string()), Some("first answer".to_string()), Some("again".to_string())]
    );
}

#[test]
fn failed_or_absent_prior_link_uses_submitted_view() {
    let submitted = vec![user_msg(1, 5, "hi"), user_msg(3, 5, "again")];
    let input = chain_conversation(PriorLink::Failed, submitted.clone());
    assert_eq!(input.iter().map(|m| m.id).collect::<Vec<_>>(), vec![1, 3]);
    let input = chain_conversation(PriorLink::Absent, submitted);
    assert_eq!(input.iter().map(|m| m.id).collect::<Vec<_>>(), vec![1, 3]);
}

#[test]
fn chain_links_await_in_submission_order() {
    let mut table: ChainTable<u32> = ChainTable::new();
    let priors: Vec<Option<u32>> = (1..=4).map(|h| table.advance(5, 1, h)).collect();
    assert_eq!(priors, vec![None, Some(1), Some(2), Some(3)]);
    assert_eq!(table.advance(5, 2, 10), None);
    assert_eq!(table.take(5, 1), Some(4));
    assert_eq!(table.take(5, 1), None);
    table.register(6, 1, 11);
    assert_eq!(table.take(6, 1), Some(11));
}

#[test]
fn completion_message_forms() {
    let ok = completion_message(5, 1, Ok(Some("text".to_string())), 42);
    assert_eq!(ok.content.as_deref(), Some("text"));
    assert_eq!(ok.dt, 42);
    assert!(ok.response_dt.is_some());
    let empty = completion_message(5, 1, Ok(None), 42);
    assert_eq!(empty.content.as_deref(), Some(EMPTY_REPLY));
    assert_eq!(empty.content.as_deref(), Some("No response generated"));
    let err = completion_message(5, 1, Err("boom".to_string()), 42);
    assert_eq!(err.error.as_deref(), Some("Inference failed: boom"));
    assert_eq!(err.content, None);
    assert_eq!(err.model_id, Some(1));
}

#[test]
fn title_request_and_result() {
    let conv = vec![user_msg(1, 5, "hi"), reply(2, 5, 1, "hello")];
    let req = title_conversation(&conv, 5);
    assert_eq!(req.len(), 3);
    assert_eq!(req[2].content.as_deref(), Some(TITLE_INSTRUCTION));
    assert_eq!(req[2].chat_role, ChatRole::User);
    assert_eq!(derived_title(Ok(Some("Greetings".to_string()))), Some("Greetings".to_string()));
    assert_eq!(derived_title(Ok(None)), Some("No response generated".to_string()));
    assert_eq!(derived_title(Err("x".to_string())), None);
}

#[test]
fn user_title_beats_derived_title() {
    let mut s = two_model_session();
    assert!(s.title_unset(5));
    s.set_user_title("Mine".to_string());
    assert!(!s.title_unset(5));
    assert!(!s.apply_title(5, "Derived".to_string()));
    assert_eq!(s.current_chat.title.as_deref(), Some("Mine"));
    assert_eq!(s.chat_history[0].title.as_deref(), Some("Mine"));
}

#[test]
fn derived_title_applies_once() {
    let mut s = two_model_session();
    assert!(s.apply_title(5, "First".to_string()));
    assert_eq!(s.current_chat.title.as_deref(), Some("First"));
    assert!(!s.apply_title(5, "Second".to_string()));
    assert_eq!(s.chat_history[0].title.as_deref(), Some("First"));
    assert!(!s.apply_title(99, "Elsewhere".to_string()));
}

#[test]
fn reconciliation_diff_then_reapply_is_empty() {
    let known = vec![model(1, 10, "a"), model(2, 10, "b")];
    let live = vec![model(0, 10, "b"), model(0, 10, "c")];
    let d = catalog_diff(&known, &live);
    assert_eq!(d.to_insert.iter().map(|m| m.model.clone()).collect::<Vec<_>>(), vec!["c".to_string()]);
    assert_eq!(d.to_remove, vec![1]);
    let mut after: Vec<Model> = known.into_iter().filter(|m| !d.to_remove.contains(&m.id)).collect();
    let mut inserted = d.to_insert.clone();
    inserted[0].id = 3;
    after.extend(inserted);
    let d2 = catalog_diff(&after, &live);
    assert!(d2.to_insert.is_empty());
    assert!(d2.to_remove.is_empty());
}

#[test]
fn refresh_selection_rules() {
    let mut p = provider(1, "p");
    assert!(!needs_refresh(&p, 100));
    p.models_from_list = true;
    p.last_models_update_timestamp = 50;
    p.models_refresh_interval_seconds = 50;
    assert!(!needs_refresh(&p, 100));
    assert!(needs_refresh(&p, 101));
    p.models_refresh_interval_seconds = i64::MAX;
    assert!(!needs_refresh(&p, i64::MAX));
    let mut q = provider(2, "q");
    q.availability_requires_models_response = true;
    let picked = providers_to_refresh(&vec![p, q], 0);
    assert_eq!(picked.len(), 1);
    assert_eq!(picked[0].id, 2);
}

#[test]
fn unreachable_provider_models_leave_selection_but_messages_stay() {
    let profile = ChatProfile { chat_id: 0, model_ids: vec![1], tool_ids: vec![] };
    let mut s: Session<u8> = Session::new(profile);
    let mut p = provider(10, "ollama");
    p.availability_requires_models_response = true;
    s.register_provider(p.clone(), Some(0));
    s.register_provider(provider(20, "other"), Some(0));
    s.register_model(model(1, 10, "llama"));
    s.register_model(model(2, 10, "mistral"));
    s.register_model(model(3, 20, "gpt"));
    s.create_new_chat();
    s.bind_new_chat(5);
    let user = user_msg(100, 5, "hi");
    let _ = s.begin_submission(&user, false);
    s.apply_completion(5, 1, 100, reply(101, 5, 1, "answer"));

    let due = providers_to_refresh(&vec![p], 0);
    assert_eq!(due.len(), 1);
    let known: Vec<Model> = vec![model(1, 10, "llama"), model(2, 10, "mistral"), model(3, 20, "gpt")];
    let mut pass = RefreshPass::new();
    match reconcile_provider(&known, 10, FetchOutcome::Failed) {
        ProviderAction::MarkDown(models) => {
            assert_eq!(models.len(), 2);
            pass.record_unreachable(10, models);
        }
        _ => panic!("a failed fetch marks the provider down"),
    }
    match pass.into_event() {
        InferenceEvent::ModelsRefreshed { added_models, removed_model_ids, temporarily_unavailable_models, providers_to_remove } => {
            assert!(removed_model_ids.is_empty());
            s.apply_models_refreshed(added_models, removed_model_ids, temporarily_unavailable_models, providers_to_remove);
        }
        _ => panic!("a pass reports one catalog event"),
    }
    assert!(!s.available_models.contains_key(&1));
    assert!(!s.available_models.contains_key(&2));
    assert!(s.available_models.contains_key(&3));
    assert!(s.all_models.contains_key(&1));
    assert!(!s.provider_clients.contains_key(&10));
    assert!(s.providers_marked_down.contains(&10));
    let view = &s.current_messages[&1];
    assert_eq!(view.len(), 2);
    assert_eq!(view[1].content.as_deref(), Some("answer"));
}

#[test]
fn refresh_pass_gathers_synced_changes() {
    let known = vec![model(1, 10, "a"), model(2, 20, "z")];
    let mut pass = RefreshPass::new();
    match reconcile_provider(&known, 10, FetchOutcome::Fetched(vec![model(0, 10, "b")])) {
        ProviderAction::Sync(d) => {
            assert_eq!(d.to_remove, vec![1]);
            assert_eq!(d.to_insert.len(), 1);
            pass.record_synced(vec![model(7, 10, "b")], d.to_remove);
        }
        _ => panic!("a fetched catalog is synced"),
    }
    assert!(matches!(reconcile_provider(&known, 10, FetchOutcome::NoClient), ProviderAction::Skip));
    assert_eq!(pass.added_models.len(), 1);
    assert_eq!(pass.removed_model_ids, vec![1]);
    let profile = ChatProfile { chat_id: 0, model_ids: vec![], tool_ids: vec![] };
    let mut s: Session<u8> = Session::new(profile);
    assert_eq!(s.state, AppState::ProviderDialog);
    s.register_provider(provider(10, "p"), Some(0));
    s.register_model(model(1, 10, "a"));
    s.apply_models_refreshed(pass.added_models, pass.removed_model_ids, vec![], vec![]);
    assert!(!s.all_models.contains_key(&1));
    assert!(s.available_models.contains_key(&7));
}

#[test]
fn unavailable_bound_models_block_the_prompt() {
    let profile = ChatProfile { chat_id: 0, model_ids: vec![1, 42], tool_ids: vec![] };
    let mut s: Session<u8> = Session::new(profile);
    s.register_provider(provider(10, "nokey"), None);
    s.register_model(model(1, 10, "alpha"));
    s.create_new_chat();
    let names = s.unavailable_models();
    assert_eq!(
        names,
        vec![
            ("alpha".to_string(), "nokey".to_string()),
            ("Unknown Model (ID: 42)".to_string(), "Unknown Provider".to_string())
        ]
    );
    assert!(!s.check_models_available());
    assert_eq!(s.state, AppState::UnavailableModelsError);
    assert_eq!(s.unavailable_default_models(), vec![1, 42]);
}

#[test]
fn loading_a_stored_chat_rebuilds_views() {
    let mut s = two_model_session();
    let log = vec![user_msg(1, 8, "hi"), reply(2, 8, 3, "three"), reply(3, 8, 4, "four")];
    s.load_chat(Chat { id: 8, dt: 0, title: None }, Some(StoredChat { model_ids: vec![3, 4], tool_ids: vec![], messages: log }));
    assert_eq!(s.current_chat_profile.model_ids, vec![3, 4]);
    assert_eq!(s.current_messages[&3].iter().map(|m| m.id).collect::<Vec<_>>(), vec![1, 2]);
    assert_eq!(s.get_current_messages().map(|v| v.len()), Some(2));
    s.load_chat(Chat { id: 0, dt: 0, title: None }, None);
    assert!(s.current_messages.is_empty());
    assert_eq!(s.current_chat_profile.model_ids, vec![1, 2]);
}

#[test]
fn deleting_and_reselecting_chats() {
    let mut s = two_model_session();
    s.reselect_chat(vec![Chat { id: 3, dt: 0, title: None }, Chat { id: 4, dt: 0, title: None }], Some(4));
    assert_eq!(s.chat_history_index, 1);
    assert!(!s.forget_chat(4));
    assert_eq!(s.chat_history_index, 0);
    assert!(s.forget_chat(3));
    s.reselect_chat(vec![Chat { id: 3, dt: 0, title: None }], Some(9));
    assert_eq!(s.chat_history_index, 0);
}

#[test]
fn blank_prompts_and_titles() {
    assert!(prompt_is_blank("   \n\t"));
    assert!(prompt_is_blank(""));
    assert!(!prompt_is_blank("  hi "));
    assert_eq!(title_from_input("  My chat \n"), Some("My chat".to_string()));
    assert_eq!(title_from_input("   "), None);
}

#[test]
fn first_viable_model_choice() {
    let mut a = model(4, 1, "a");
    a.disabled = true;
    let b = model(6, 1, "b");
    assert_eq!(first_enabled_model(&vec![a.clone(), b.clone()]), Some(6));
    assert_eq!(first_enabled_model(&vec![a.clone()]), None);
    assert_eq!(lowest_model_id(&vec![b, a, model(2, 9, "c")]), Some(2));
    assert_eq!(lowest_model_id(&vec![]), None);
}

#[test]
fn rejected_models_are_not_pending_and_title_follows_first_model() {
    let profile = ChatProfile { chat_id: 0, model_ids: vec![2, 1], tool_ids: vec![] };
    let mut s: Session<u8> = Session::new(profile);
    s.register_provider(provider(10, "keyed"), Some(0));
    s.register_model(model(1, 10, "alpha"));
    s.create_new_chat();
    assert!(s.chat_is_new());
    s.bind_new_chat(5);
    assert!(!s.chat_is_new());
    let user = user_msg(100, 5, "hi");
    let _ = s.begin_submission(&user, true);
    assert_eq!(s.inference_in_progress, vec![(100, 1)]);
    // The first bound model (2) cannot run, so no title is derived.
    assert!(s.title_inference_in_progress_by_chat.is_empty());
    assert_eq!(s.provider_clients.len(), 1);
}

#[test]
fn focus_moves_with_its_message() {
    let mut s = two_model_session();
    let _ = s.begin_submission(&user_msg(100, 5, "hi"), false);
    let _ = s.begin_submission(&user_msg(200, 5, "again"), false);
    s.current_message_index.insert(1, 1);
    s.current_message_index.insert(2, 0);
    s.apply_completion(5, 1, 100, reply(101, 5, 1, "first"));
    assert_eq!(s.current_message_index[&1], 2);
    assert_eq!(s.current_message_index[&2], 0);
    s.apply_completion(9, 2, 100, reply(102, 9, 2, "other chat"));
    assert_eq!(s.current_message_index[&2], 0);
    assert_eq!(s.current_messages[&2].len(), 2);
}

#[test]
fn default_profile_installation() {
    let mut s: Session<u8> = Session::new(ChatProfile { chat_id: 0, model_ids: vec![], tool_ids: vec![] });
    assert_eq!(s.state, AppState::ProviderDialog);
    s.register_provider(provider(10, "keyed"), Some(0));
    s.register_model(model(1, 10, "alpha"));
    s.set_default_profile(ChatProfile { chat_id: 0, model_ids: vec![3, 1], tool_ids: vec![4] });
    assert_eq!(s.state, AppState::Normal);
    assert_eq!(s.current_chat_profile.model_ids, vec![3, 1]);
    assert_eq!(s.current_chat_profile.tool_ids, vec![4]);
    assert!(s.keeps_default_model());
    s.set_default_profile(ChatProfile { chat_id: 0, model_ids: vec![3], tool_ids: vec![] });
    assert!(!s.keeps_default_model());
}
