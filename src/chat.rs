use vstd::prelude::*;

use crate::clock::now_millis;
use crate::model::Model;
use crate::text::{decimal_text, labelled_int};

verus! {

/// Who authored a message.
#[derive(Debug, Clone, Copy, PartialEq, Eq, Structural, PartialOrd, Ord, Hash)]
pub enum ChatRole {
    User,
    Assistant,
    ToolResult,
}

/// The integer stored for each role.
pub open spec fn role_code(r: ChatRole) -> i64 {
    match r {
        ChatRole::User => 1,
        ChatRole::Assistant => 2,
        ChatRole::ToolResult => 3,
    }
}

/// The lower-case name of each role.
pub open spec fn role_label(r: ChatRole) -> Seq<char> {
    match r {
        ChatRole::User => "user"@,
        ChatRole::Assistant => "assistant"@,
        ChatRole::ToolResult => "tool_result"@,
    }
}

impl ChatRole {
    /// Decodes a stored role; any integer other than 1, 2 or 3 is rejected.
    pub fn from_i64(value: i64) -> (r: Result<ChatRole, String>)
        ensures
            (1 <= value <= 3) <==> r is Ok,
            r is Ok ==> role_code(r->Ok_0) == value,
            r is Err ==> r->Err_0@ == "Invalid ChatRole value: "@ + decimal_text(value as int),
    {
        if value == 1 {
            Ok(ChatRole::User)
        } else if value == 2 {
            Ok(ChatRole::Assistant)
        } else if value == 3 {
            Ok(ChatRole::ToolResult)
        } else {
            Err(labelled_int("Invalid ChatRole value: ", value))
        }
    }

    /// The integer stored for this role.
    pub fn to_i64(self) -> (r: i64)
        ensures
            r == role_code(self),
    {
        match self {
            ChatRole::User => 1,
            ChatRole::Assistant => 2,
            ChatRole::ToolResult => 3,
        }
    }

    /// The lower-case name of this role (`user`, `assistant`, `tool_result`).
    pub fn to_string(&self) -> (r: String)
        ensures
            r@ == role_label(*self),
    {
        match self {
            ChatRole::User => "user".to_string(),
            ChatRole::Assistant => "assistant".to_string(),
            ChatRole::ToolResult => "tool_result".to_string(),
        }
    }
}

/// Copies an optional string.
pub fn copy_opt_string(s: &Option<String>) -> (r: Option<String>)
    ensures
        r == *s,
{
    match s {
        Some(t) => Some(t.clone()),
        None => None,
    }
}

/// A conversation. An `id` of 0 marks a chat that has not been stored yet.
#[derive(Debug, PartialEq, Eq)]
pub struct Chat {
    pub id: i64,
    /// Creation time, in seconds.
    pub dt: i64,
    pub title: Option<String>,
}

impl Clone for Chat {
    fn clone(&self) -> (r: Self)
        ensures
            r == *self,
    {
        Chat { id: self.id, dt: self.dt, title: copy_opt_string(&self.title) }
    }
}

impl Default for Chat {
    fn default() -> (r: Self)
        ensures
            r.id == 0 && r.dt == 0 && r.title is None,
    {
        Chat { id: 0, dt: 0, title: None }
    }
}

/// One turn of a conversation. Times are in milliseconds.
#[derive(Debug)]
pub struct ChatMessage {
    pub id: i64,
    pub dt: i64,
    pub response_dt: Option<i64>,
    pub chat_id: i64,
    /// The model that produced the message; `None` for shared (user) turns.
    pub model_id: Option<i64>,
    pub chat_role: ChatRole,
    pub content: Option<String>,
    pub name: Option<String>,
    pub reasoning_content: Option<String>,
    pub tool_calls: Option<String>,
    pub tool_call_id: Option<String>,
    pub error: Option<String>,
}

impl Clone for ChatMessage {
    fn clone(&self) -> (r: Self)
        ensures
            r == *self,
    {
        ChatMessage {
            id: self.id,
            dt: self.dt,
            response_dt: self.response_dt,
            chat_id: self.chat_id,
            model_id: self.model_id,
            chat_role: self.chat_role,
            content: copy_opt_string(&self.content),
            name: copy_opt_string(&self.name),
            reasoning_content: copy_opt_string(&self.reasoning_content),
            tool_calls: copy_opt_string(&self.tool_calls),
            tool_call_id: copy_opt_string(&self.tool_call_id),
            error: copy_opt_string(&self.error),
        }
    }
}

/// A user turn with content `c` in chat `chat_id`, not yet stored.
pub open spec fn is_new_user_message(m: ChatMessage, chat_id: i64, c: Seq<char>) -> bool {
    &&& m.id == 0
    &&& m.response_dt is None
    &&& m.chat_id == chat_id
    &&& m.model_id is None
    &&& m.chat_role == ChatRole::User
    &&& m.content is Some && m.content->Some_0@ == c
    &&& m.name is None && m.reasoning_content is None
    &&& m.tool_calls is None && m.tool_call_id is None
    &&& m.error is None
}

/// An assistant turn of `model_id` in chat `chat_id`, answering the user turn
/// stamped `user_dt`, not yet stored, that carries either content or an error.
pub open spec fn is_new_assistant_message(
    m: ChatMessage,
    chat_id: i64,
    model_id: i64,
    user_dt: i64,
) -> bool {
    &&& m.id == 0
    &&& m.dt == user_dt
    &&& m.response_dt is Some
    &&& m.chat_id == chat_id
    &&& m.model_id == Some(model_id)
    &&& m.chat_role == ChatRole::Assistant
    &&& m.name is None && m.reasoning_content is None
    &&& m.tool_calls is None && m.tool_call_id is None
}

/// An assistant turn that carries content `c` and no error.
pub open spec fn is_content_reply(m: ChatMessage, chat_id: i64, model_id: i64, user_dt: i64, c: Seq<char>) -> bool {
    &&& is_new_assistant_message(m, chat_id, model_id, user_dt)
    &&& m.content is Some && m.content->Some_0@ == c
    &&& m.error is None
}

/// An assistant turn that carries error `e` and no content.
pub open spec fn is_error_reply(m: ChatMessage, chat_id: i64, model_id: i64, user_dt: i64, e: Seq<char>) -> bool {
    &&& is_new_assistant_message(m, chat_id, model_id, user_dt)
    &&& m.content is None
    &&& m.error is Some && m.error->Some_0@ == e
}

impl ChatMessage {
    /// A user turn stamped with the current time.
    pub fn new_user_message(chat_id: i64, content: String) -> (r: ChatMessage)
        ensures
            is_new_user_message(r, chat_id, content@),
    {
        ChatMessage {
            id: 0,
            dt: now_millis(),
            response_dt: None,
            chat_id,
            model_id: None,
            chat_role: ChatRole::User,
            content: Some(content),
            name: None,
            reasoning_content: None,
            tool_calls: None,
            tool_call_id: None,
            error: None,
        }
    }

    /// An assistant turn with content. It carries the timestamp of the user
    /// turn it answers, so that ordering the log by timestamp keeps each reply
    /// with its prompt even when replies arrive after later prompts; its own
    /// time is kept in `response_dt`.
    pub fn new_assistant_message(chat_id: i64, model_id: i64, content: String, user_message_dt: i64) -> (r: ChatMessage)
        ensures
            is_content_reply(r, chat_id, model_id, user_message_dt, content@),
    {
        ChatMessage {
            id: 0,
            dt: user_message_dt,
            response_dt: Some(now_millis()),
            chat_id,
            model_id: Some(model_id),
            chat_role: ChatRole::Assistant,
            content: Some(content),
            name: None,
            reasoning_content: None,
            tool_calls: None,
            tool_call_id: None,
            error: None,
        }
    }

    /// An assistant turn that carries only an error, stamped like a reply
    /// with content.
    pub fn new_assistant_message_with_error(chat_id: i64, model_id: i64, error: String, user_message_dt: i64) -> (r: ChatMessage)
        ensures
            is_error_reply(r, chat_id, model_id, user_message_dt, error@),
    {
        ChatMessage {
            id: 0,
            dt: user_message_dt,
            response_dt: Some(now_millis()),
            chat_id,
            model_id: Some(model_id),
            chat_role: ChatRole::Assistant,
            content: None,
            name: None,
            reasoning_content: None,
            tool_calls: None,
            tool_call_id: None,
            error: Some(error),
        }
    }
}

/// The ordered models and tools bound to a chat. The profile of chat 0 is
/// the default one, used to seed new chats.
#[derive(Debug)]
pub struct ChatProfile {
    pub chat_id: i64,
    pub model_ids: Vec<i64>,
    pub tool_ids: Vec<i64>,
}

impl Clone for ChatProfile {
    fn clone(&self) -> (r: Self)
        ensures
            r.chat_id == self.chat_id,
            r.model_ids@ == self.model_ids@,
            r.tool_ids@ == self.tool_ids@,
    {
        ChatProfile { chat_id: self.chat_id, model_ids: self.model_ids.clone(), tool_ids: self.tool_ids.clone() }
    }
}

/// A chat together with the models bound to it.
#[derive(Debug, Clone)]
pub struct ChatWithModels {
    pub chat: Chat,
    pub models: Vec<Model>,
}

} // verus!
