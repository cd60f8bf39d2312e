use vstd::prelude::*;

use crate::chat::{copy_opt_string, ChatMessage, ChatRole};

verus! {

/// Roles of a chat-completion request.
#[derive(Debug, Clone, Copy, PartialEq, Eq, Structural)]
pub enum WireRole {
    System,
    User,
    Assistant,
    Tool,
}

/// The request role of each message role.
pub open spec fn wire_role_of(r: ChatRole) -> WireRole {
    match r {
        ChatRole::User => WireRole::User,
        ChatRole::Assistant => WireRole::Assistant,
        ChatRole::ToolResult => WireRole::Tool,
    }
}

/// One message of a chat-completion request. `tool_calls` holds the stored
/// JSON list of tool calls, unparsed.
#[derive(Debug)]
pub struct WireMessage {
    pub role: WireRole,
    pub content: String,
    pub name: Option<String>,
    pub tool_calls: Option<String>,
    pub tool_call_id: Option<String>,
}

/// The request message for a stored turn: its role mapped, missing content
/// sent as empty text.
pub open spec fn is_wire_of(w: WireMessage, m: ChatMessage) -> bool {
    &&& w.role == wire_role_of(m.chat_role)
    &&& (m.content matches Some(c) ==> w.content@ == c@)
    &&& (m.content is None ==> w.content@.len() == 0)
    &&& w.name == m.name
    &&& w.tool_calls == m.tool_calls
    &&& w.tool_call_id == m.tool_call_id
}

/// Maps a message role to its request role.
pub fn chat_role_to_message_role(r: &ChatRole) -> (w: WireRole)
    ensures
        w == wire_role_of(*r),
{
    match r {
        ChatRole::User => WireRole::User,
        ChatRole::Assistant => WireRole::Assistant,
        ChatRole::ToolResult => WireRole::Tool,
    }
}

/// The messages of a generation request: the system preamble first unless
/// it is empty, then every turn of the conversation in order.
pub fn request_messages(system_prompt: &str, conversation: &Vec<ChatMessage>) -> (r: Vec<WireMessage>)
    ensures
        ({
            let off: int = if system_prompt@.len() > 0 { 1 } else { 0 };
            &&& r@.len() == conversation@.len() + off
            &&& off == 1 ==> r@[0].role == WireRole::System && r@[0].content@ == system_prompt@ && r@[0].name is None
                && r@[0].tool_calls is None && r@[0].tool_call_id is None
            &&& forall|i: int| 0 <= i < conversation@.len() ==> is_wire_of(#[trigger] r@[i + off], conversation@[i])
        }),
{
    let mut r: Vec<WireMessage> = Vec::new();
    let has_system = system_prompt.unicode_len() > 0;
    if has_system {
        r.push(WireMessage { role: WireRole::System, content: system_prompt.to_string(), name: None, tool_calls: None, tool_call_id: None });
    }
    let ghost off: int = if has_system { 1 } else { 0 };
    let mut i: usize = 0;
    while i < conversation.len()
        invariant
            i <= conversation.len(),
            off == (if system_prompt@.len() > 0 { 1int } else { 0int }),
            r@.len() == i + off,
            off == 1 ==> r@[0].role == WireRole::System && r@[0].content@ == system_prompt@ && r@[0].name is None
                && r@[0].tool_calls is None && r@[0].tool_call_id is None,
            forall|j: int| 0 <= j < i ==> is_wire_of(#[trigger] r@[j + off], conversation@[j]),
        decreases conversation.len() - i,
    {
        let m = &conversation[i];
        let content = match &m.content {
            Some(c) => c.clone(),
            None => String::new(),
        };
        r.push(WireMessage {
            role: chat_role_to_message_role(&m.chat_role),
            content,
            name: copy_opt_string(&m.name),
            tool_calls: copy_opt_string(&m.tool_calls),
            tool_call_id: copy_opt_string(&m.tool_call_id),
        });
        i += 1;
    }
    r
}

} // verus!
