use vstd::prelude::*;

use crate::chat::ChatMessage;
use crate::model::Model;

verus! {

/// Which dialog or mode has the keyboard.
#[derive(Debug, Clone, PartialEq, Eq, Structural)]
pub enum AppState {
    Normal,
    SearchMode,
    ModelSelection,
    DatabaseSelection,
    ProviderDialog,
    DeleteConfirmation,
    TitleEdit,
    UnavailableModelsError,
}

/// A notification carried from a finished task back to the control loop.
#[derive(Debug)]
pub enum InferenceEvent {
    /// A generation finished (with content or an error) and its turn is stored.
    InferenceComplete { chat_id: i64, model_id: i64, origin_message_id: i64, result: ChatMessage },
    /// A derived title is ready; it is stored only if the chat still has none.
    TitleInferenceComplete { chat_id: i64, title: String },
    /// One full catalog reconciliation pass finished.
    ModelsRefreshed {
        added_models: Vec<Model>,
        removed_model_ids: Vec<i64>,
        temporarily_unavailable_models: Vec<Model>,
        providers_to_remove: Vec<i64>,
    },
}

} // verus!
