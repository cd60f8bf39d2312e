use std::collections::HashMap;

use shore::model_select::{ModelSelectModal, ModelSelectionMode};
use shore::session::Session;
use shore::chat::ChatProfile;

fn modal(ids: &[i64]) -> ModelSelectModal {
    let mut names = HashMap::new();
    names.insert(1, "Local".to_string());
    ModelSelectModal::new(ModelSelectionMode::DefaultModels, ids, HashMap::new(), names)
}

#[test]
fn new_dialog_selects_given_models_in_order() {
    let m = modal(&[3, 1, 2]);
    assert_eq!(m.enabled_model_order, vec![3, 1, 2]);
    assert_eq!(m.get_selected_model_ids(), vec![3, 1, 2]);
    assert_eq!(m.selection_index, 0);
}

#[test]
fn provider_names_fall_back_to_identity() {
    let m = modal(&[]);
    assert_eq!(m.get_provider_name(1), "Local");
    assert_eq!(m.get_provider_name(9), "Provider 9");
}

#[test]
fn moving_models_in_order() {
    let mut m = modal(&[3, 1, 2]);
    m.move_model_up(1);
    assert_eq!(m.enabled_model_order, vec![1, 3, 2]);
    m.move_model_up(1);
    assert_eq!(m.enabled_model_order, vec![1, 3, 2]);
    m.move_model_down(3);
    assert_eq!(m.enabled_model_order, vec![1, 2, 3]);
    m.move_model_down(3);
    assert_eq!(m.enabled_model_order, vec![1, 2, 3]);
    m.move_model_down(8);
    assert_eq!(m.enabled_model_order, vec![1, 2, 3]);
}

#[test]
fn toggling_models_updates_order() {
    let mut m = modal(&[3, 1]);
    m.add_to_order(5);
    m.add_to_order(3);
    assert_eq!(m.enabled_model_order, vec![3, 1, 5]);
    m.remove_from_order(3);
    assert_eq!(m.enabled_model_order, vec![1, 5]);
    m.selection_states.insert(1, false);
    m.selection_states.insert(5, true);
    assert_eq!(m.get_selected_model_ids(), vec![5]);
}

#[test]
fn applying_a_selection() {
    let profile = ChatProfile { chat_id: 0, model_ids: vec![1], tool_ids: vec![] };
    let mut s: Session<u8> = Session::new(profile);
    s.create_new_chat();
    assert!(s.can_edit_chat_models());
    s.apply_model_selection(ModelSelectionMode::DefaultModels, vec![2, 3]);
    assert_eq!(s.default_profile.model_ids, vec![2, 3]);
    assert_eq!(s.current_chat_profile.model_ids, vec![2, 3]);
    s.apply_model_selection(ModelSelectionMode::CurrentChatModels, vec![4]);
    assert_eq!(s.current_chat_profile.model_ids, vec![4]);
    assert_eq!(s.default_profile.model_ids, vec![2, 3]);
}

fn avail() -> HashMap<i64, shore::model::Model> {
    let mk = |id: i64, p: i64, name: &str| shore::model::Model {
        id,
        provider_id: p,
        model: name.to_string(),
        disabled: false,
        deprecated: false,
        created_dt: 0,
    };
    let mut m = HashMap::new();
    m.insert(1, mk(1, 1, "b"));
    m.insert(2, mk(2, 1, "a"));
    m.insert(3, mk(3, 2, "c"));
    m.insert(4, mk(4, 1, "a"));
    m
}

#[test]
fn filtered_models_list_selected_then_sorted_rest() {
    let mut names = HashMap::new();
    names.insert(1, "Local".to_string());
    names.insert(2, "Remote".to_string());
    let mut m = ModelSelectModal::new(ModelSelectionMode::CurrentChatModels, &[3], avail(), names);
    let ids: Vec<i64> = m.get_filtered_models().iter().map(|e| e.0).collect();
    assert_eq!(ids, vec![3, 2, 4, 1]);
    m.search_query = "REM".to_string();
    let ids: Vec<i64> = m.get_filtered_models().iter().map(|e| e.0).collect();
    assert_eq!(ids, vec![3]);
    m.search_query = "B".to_string();
    let ids: Vec<i64> = m.get_filtered_models().iter().map(|e| e.0).collect();
    assert_eq!(ids, vec![1]);
}

use shore::model_select::{ModalKey, ModalResult, ModelDialogMode};

fn dialog() -> ModelSelectModal {
    let mut names = HashMap::new();
    names.insert(1, "Local".to_string());
    names.insert(2, "Remote".to_string());
    ModelSelectModal::new(ModelSelectionMode::DefaultModels, &[3], avail(), names)
}

#[test]
fn search_mode_edits_query() {
    let mut m = dialog();
    assert!(matches!(m.handle_key(ModalKey::Char('/'), true), ModalResult::Continue));
    assert_eq!(m.dialog_mode, ModelDialogMode::Search);
    m.selection_index = 2;
    m.handle_key(ModalKey::Char('r'), true);
    m.handle_key(ModalKey::Char('e'), true);
    assert_eq!(m.search_query, "re");
    assert_eq!(m.selection_index, 0);
    m.handle_key(ModalKey::Char('x'), false);
    assert_eq!(m.search_query, "re");
    m.handle_key(ModalKey::Backspace, true);
    assert_eq!(m.search_query, "r");
    m.handle_key(ModalKey::Enter, true);
    assert_eq!(m.dialog_mode, ModelDialogMode::Normal);
    assert_eq!(m.search_query, "r");
    m.handle_key(ModalKey::Char('x'), true);
    assert_eq!(m.search_query, "");
}

#[test]
fn normal_mode_counts_moves_and_toggles() {
    let mut m = dialog();
    m.handle_key(ModalKey::Char('1'), true);
    m.handle_key(ModalKey::Char('2'), true);
    assert_eq!(m.numeric_prefix, Some(12));
    m.handle_key(ModalKey::Char('j'), true);
    assert_eq!(m.selection_index, 3);
    assert_eq!(m.numeric_prefix, None);
    m.handle_key(ModalKey::Char('k'), true);
    assert_eq!(m.selection_index, 2);
    // Rows: 3 (selected), then 2, 4, 1 by provider and name.
    m.handle_key(ModalKey::Char(' '), true);
    assert_eq!(m.selection_states.get(&4), Some(&true));
    // Model 4 is now selected but not in the stored order, so it leaves the
    // list: row 2 holds model 1.
    let rows: Vec<i64> = m.get_filtered_models().iter().map(|e| e.0).collect();
    assert_eq!(rows, vec![3, 2, 1]);
    m.handle_key(ModalKey::Enter, true);
    assert_eq!(m.selection_states.get(&1), Some(&true));
    match m.handle_key(ModalKey::Esc, true) {
        ModalResult::Apply(ids) => assert_eq!(ids, vec![3]),
        ModalResult::Continue => panic!("Esc without a search closes the dialog"),
    }
}

#[test]
fn huge_count_saturates() {
    let mut m = dialog();
    for _ in 0..25 {
        m.handle_key(ModalKey::Char('9'), true);
    }
    assert_eq!(m.numeric_prefix, Some(usize::MAX));
    m.handle_key(ModalKey::Char('j'), true);
    assert_eq!(m.selection_index, 3);
}

#[test]
fn visual_mode_toggles_a_range() {
    let mut m = dialog();
    m.handle_key(ModalKey::Char('j'), true);
    m.handle_key(ModalKey::Char('v'), true);
    assert_eq!(m.dialog_mode, ModelDialogMode::Visual);
    assert_eq!(m.visual_start_index, Some(1));
    m.handle_key(ModalKey::Char('j'), true);
    m.handle_key(ModalKey::Char('j'), true);
    m.handle_key(ModalKey::Char('j'), true);
    assert_eq!(m.selection_index, 3);
    m.handle_key(ModalKey::Char('h'), true);
    for id in [1, 2, 4] {
        assert_eq!(m.selection_states.get(&id), Some(&true));
    }
    assert_eq!(m.selection_states.get(&3), Some(&true));
    // The toggled models left the list; the range now covers no row.
    m.handle_key(ModalKey::Char('h'), true);
    for id in [1, 2, 4] {
        assert_eq!(m.selection_states.get(&id), Some(&true));
    }
    m.handle_key(ModalKey::Char('k'), true);
    assert_eq!(m.selection_index, 2);
    m.handle_key(ModalKey::Esc, true);
    assert_eq!(m.dialog_mode, ModelDialogMode::Normal);
    assert_eq!(m.visual_start_index, None);
}

#[test]
fn opening_the_selection_dialog() {
    let profile = ChatProfile { chat_id: 0, model_ids: vec![1, 2], tool_ids: vec![] };
    let mut s: Session<u8> = Session::new(profile);
    s.register_provider(shore::provider::Provider {
        id: 10,
        name: "Local".to_string(),
        base_url: String::new(),
        disabled: false,
        deprecated: false,
        api_key_env_var: String::new(),
        created_dt: 0,
        models_from_list: false,
        availability_requires_models_response: false,
        last_models_update_timestamp: 0,
        models_refresh_interval_seconds: 0,
    }, Some(0));
    s.create_new_chat();
    let m = s.open_model_selection(ModelSelectionMode::CurrentChatModels).unwrap();
    assert_eq!(m.enabled_model_order, vec![1, 2]);
    assert_eq!(m.get_provider_name(10), "Local");
    assert_eq!(s.state, shore::event::AppState::ModelSelection);
    s.bind_new_chat(7);
    assert!(s.open_model_selection(ModelSelectionMode::CurrentChatModels).is_none());
    let d = s.open_model_selection(ModelSelectionMode::DefaultModels).unwrap();
    assert_eq!(d.mode, ModelSelectionMode::DefaultModels);
    assert_eq!(s.provider_names().len(), 1);
}
