//! Chat Completions request conversion, Chat Completions stream decoding and
//! model catalog commands, with their behaviour stated as Verus contracts.

pub mod chat_completions;
pub mod chat_completions_sse;
pub mod json;
pub mod model_cmd;
pub mod protocol;
pub mod text;
