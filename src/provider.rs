use vstd::prelude::*;

use crate::chat::copy_opt_string;

verus! {

/// What a generation is asked to continue from.
pub enum GenerationRequest {
    /// An ordinary prompt.
    Prompt(String),
    /// Results of tool calls: call id, tool name and the tool's output.
    ToolResults(Vec<(String, String, String)>),
}

/// A tool invocation requested by a model.
#[derive(Debug)]
pub struct ToolCallRequest {
    pub tool_call_id: String,
    pub name: Option<String>,
    pub params: Option<String>,
}

impl Clone for ToolCallRequest {
    fn clone(&self) -> (r: Self)
        ensures
            r == *self,
    {
        ToolCallRequest {
            tool_call_id: self.tool_call_id.clone(),
            name: copy_opt_string(&self.name),
            params: copy_opt_string(&self.params),
        }
    }
}

/// What a provider returns for one generation.
#[derive(Debug, Clone)]
pub struct GenerationResult {
    pub content: Option<String>,
    pub tool_calls: Vec<ToolCallRequest>,
}

/// A generation whose content has been decoded into `T`.
#[derive(Debug)]
pub struct StructuredGenerationResult<T> {
    pub content: Option<T>,
    pub tool_calls: Vec<ToolCallRequest>,
}

/// A configured backend. `availability_requires_models_response` means the
/// provider counts as available only once its catalog has been fetched;
/// `models_from_list` means its catalog is refreshed every
/// `models_refresh_interval_seconds`.
#[derive(Debug)]
pub struct Provider {
    pub id: i64,
    pub name: String,
    pub base_url: String,
    pub disabled: bool,
    pub deprecated: bool,
    pub api_key_env_var: String,
    pub created_dt: i64,
    pub models_from_list: bool,
    pub availability_requires_models_response: bool,
    pub last_models_update_timestamp: i64,
    pub models_refresh_interval_seconds: i64,
}

impl Clone for Provider {
    fn clone(&self) -> (r: Self)
        ensures
            r == *self,
    {
        Provider {
            id: self.id,
            name: self.name.clone(),
            base_url: self.base_url.clone(),
            disabled: self.disabled,
            deprecated: self.deprecated,
            api_key_env_var: self.api_key_env_var.clone(),
            created_dt: self.created_dt,
            models_from_list: self.models_from_list,
            availability_requires_models_response: self.availability_requires_models_response,
            last_models_update_timestamp: self.last_models_update_timestamp,
            models_refresh_interval_seconds: self.models_refresh_interval_seconds,
        }
    }
}

} // verus!
