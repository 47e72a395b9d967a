//! The canonical request items and stream events that the agent core speaks,
//! as far as the Chat Completions translation reads or writes them.

use crate::json::JsonValue;
use vstd::prelude::*;

verus! {

/// One part of a message's content.
#[derive(Debug)]
pub enum ContentItem {
    InputText { text: String },
    InputImage { image_url: String },
    OutputText { text: String },
}

/// One item of a Responses API conversation.
#[derive(Debug)]
pub enum ResponseItem {
    Message {
        id: Option<String>,
        role: String,
        content: Vec<ContentItem>,
        phase: Option<String>,
        internal_chat_message_metadata_passthrough: Option<JsonValue>,
    },
    FunctionCall { id: String, call_id: String, name: String, arguments: String },
    FunctionCallOutput { id: String, call_id: String, output: String },
    /// Any other kind of item (reasoning and the like).
    Other,
}

/// A request in the Responses API format, the canonical format of the agent core.
/// `tools` holds the raw JSON text of the tool list.
#[derive(Debug)]
pub struct ResponsesApiRequest {
    pub model: String,
    pub instructions: String,
    pub input: Vec<ResponseItem>,
    pub tools: Option<String>,
    pub tool_choice: String,
    pub parallel_tool_calls: bool,
    pub reasoning: Option<JsonValue>,
    pub store: bool,
    pub stream: bool,
    pub stream_options: Option<JsonValue>,
    pub included: Vec<String>,
    pub service_tier: Option<String>,
    pub prompt_cache_key: Option<String>,
    pub text: Option<JsonValue>,
    pub client_metadata: Option<JsonValue>,
    pub access_programs: Option<JsonValue>,
}

/// Token counts reported for a response.
#[derive(Debug, Clone, Copy, PartialEq, Eq, Structural)]
pub struct TokenUsage {
    pub input_tokens: i64,
    pub cached_input_tokens: i64,
    pub output_tokens: i64,
    pub reasoning_output_tokens: i64,
    pub total_tokens: i64,
}

/// One rate-limit window as the server reported it.
#[derive(Debug, Clone)]
pub struct RateLimitWindow {
    /// The share of the window already used, in percent, as the decimal text the server sent.
    pub used_percent: String,
    /// The length of the window, in minutes.
    pub window_minutes: Option<i64>,
    /// When the window resets, in seconds since the Unix epoch.
    pub resets_at: Option<i64>,
}

/// A snapshot of the rate limits that apply to a request.
#[derive(Debug, Clone)]
pub struct RateLimitSnapshot {
    /// The limit the snapshot is for; `None` for the default one.
    pub limit_id: Option<String>,
    pub primary: Option<RateLimitWindow>,
    pub secondary: Option<RateLimitWindow>,
}

/// An event of a response stream.
#[derive(Debug)]
pub enum ResponseEvent {
    Created,
    OutputTextDelta(String),
    ToolCallInputDelta { item_id: String, call_id: Option<String>, delta: String },
    Completed { response_id: String, token_usage: Option<TokenUsage>, end_turn: Option<bool> },
    ServerModel(String),
    RateLimits(RateLimitSnapshot),
}

/// An error of a response stream.
#[derive(Debug)]
pub enum ApiError {
    Stream(String),
}

} // verus!
