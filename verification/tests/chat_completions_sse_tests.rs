use rift_chat::chat_completions_sse::{
    apply_chunk, input_needs_fresh_id, new_stream_state, sse_step_with_id, stream_start_events, SseStep, ChatCompletionChunk, ChunkChoice,
    ChunkDelta, ChunkToolCall, ChunkToolCallFunction, ChunkUsage, SseInput, StreamState,
};
use rift_chat::protocol::{ApiError, RateLimitSnapshot, RateLimitWindow, ResponseEvent, TokenUsage};

fn text_chunk(id: &str, text: Option<&str>, finish: Option<&str>) -> ChatCompletionChunk {
    ChatCompletionChunk {
        id: id.to_string(),
        choices: vec![ChunkChoice {
            index: 0,
            delta: Some(ChunkDelta { role: None, content: text.map(str::to_string), tool_calls: None }),
            finish_reason: finish.map(str::to_string),
        }],
        usage: None,
    }
}

const FRESH: &str = "3f2b8c1e-9d4a-4e6b-8a7c-0123456789ab";

fn sse_step(state: &mut StreamState, input: SseInput) -> SseStep {
    sse_step_with_id(state, input, FRESH)
}

fn event(data: &str, chunk: Option<ChatCompletionChunk>) -> SseInput {
    SseInput::Event { event: String::new(), data: data.to_string(), chunk }
}

#[test]
fn a_full_text_stream() {
    let mut state = new_stream_state();
    let start = stream_start_events(Some("gpt-4o".to_string()), Vec::new());
    assert!(matches!(&start[..], [Ok(ResponseEvent::ServerModel(m))] if m == "gpt-4o"));

    let out = sse_step(&mut state, event("{..}", Some(text_chunk("c1", Some("Hel"), None))));
    assert!(!out.finished);
    assert_eq!(out.events.len(), 2);
    assert!(matches!(out.events[0], Ok(ResponseEvent::Created)));
    assert!(matches!(&out.events[1], Ok(ResponseEvent::OutputTextDelta(t)) if t == "Hel"));

    let out = sse_step(&mut state, SseInput::Event {
        event: "message".to_string(),
        data: "{..}".to_string(),
        chunk: Some(text_chunk("c2", Some("lo"), Some("stop"))),
    });
    assert_eq!(out.events.len(), 1);
    assert!(matches!(&out.events[0], Ok(ResponseEvent::OutputTextDelta(t)) if t == "lo"));
    assert_eq!(state.response_id.as_deref(), Some("c1"));

    let mut usage_chunk = text_chunk("c3", Some(""), None);
    usage_chunk.usage = Some(ChunkUsage { prompt_tokens: 10, completion_tokens: 5, total_tokens: 15 });
    let out = sse_step(&mut state, event("{..}", Some(usage_chunk)));
    assert!(out.events.is_empty());

    let out = sse_step(&mut state, event("[DONE]", None));
    assert!(out.finished);
    assert_eq!(out.events.len(), 1);
    match &out.events[0] {
        Ok(ResponseEvent::Completed { response_id, token_usage, end_turn }) => {
            assert_eq!(response_id, "c1");
            assert_eq!(
                *token_usage,
                Some(TokenUsage {
                    input_tokens: 10,
                    cached_input_tokens: 0,
                    output_tokens: 5,
                    reasoning_output_tokens: 0,
                    total_tokens: 15
                })
            );
            assert_eq!(*end_turn, Some(true));
        }
        other => panic!("unexpected {:?}", other),
    }
}

#[test]
fn tool_call_deltas_carry_item_ids() {
    let mut state = StreamState { response_id: Some("r".to_string()), finish_reason: None, usage: None };
    let chunk = ChatCompletionChunk {
        id: "abc".to_string(),
        choices: vec![ChunkChoice {
            index: 0,
            delta: Some(ChunkDelta {
                role: Some("assistant".to_string()),
                content: None,
                tool_calls: Some(vec![
                    ChunkToolCall {
                        index: 12,
                        id: Some("call_1".to_string()),
                        function: Some(ChunkToolCallFunction { name: Some("shell".to_string()), arguments: Some("{\"a\"".to_string()) }),
                    },
                    ChunkToolCall { index: 0, id: None, function: None },
                ]),
            }),
            finish_reason: Some("tool_calls".to_string()),
        }],
        usage: None,
    };
    let events = apply_chunk(&mut state, chunk);
    assert_eq!(events.len(), 2);
    match &events[0] {
        Ok(ResponseEvent::ToolCallInputDelta { item_id, call_id, delta }) => {
            assert_eq!(item_id, "chatcmpl-abc-tc-12");
            assert_eq!(call_id.as_deref(), Some("call_1"));
            assert_eq!(delta, "{\"a\"");
        }
        other => panic!("unexpected {:?}", other),
    }
    match &events[1] {
        Ok(ResponseEvent::ToolCallInputDelta { item_id, call_id, delta }) => {
            assert_eq!(item_id, "chatcmpl-abc-tc-0");
            assert!(call_id.is_none());
            assert_eq!(delta, "");
        }
        other => panic!("unexpected {:?}", other),
    }
    assert_eq!(state.response_id.as_deref(), Some("r"));
    assert_eq!(state.finish_reason.as_deref(), Some("tool_calls"));

    let out = sse_step(&mut state, event("[DONE]", None));
    assert!(matches!(&out.events[0], Ok(ResponseEvent::Completed { response_id, end_turn: Some(false), .. }) if response_id == "r"));
}

#[test]
fn completion_without_chunks_uses_the_fresh_id() {
    let mut state = new_stream_state();
    let done = event("[DONE]", None);
    assert!(input_needs_fresh_id(&state, &done));
    assert!(!input_needs_fresh_id(&state, &event("{..}", None)));
    assert!(!input_needs_fresh_id(&state, &SseInput::IdleTimeout));
    let out = sse_step_with_id(&mut state, done, "fixed");
    assert!(out.finished);
    match &out.events[0] {
        Ok(ResponseEvent::Completed { response_id, token_usage, end_turn }) => {
            assert_eq!(response_id, "chatcmpl-fixed");
            assert!(token_usage.is_none());
            assert!(end_turn.is_none());
        }
        other => panic!("unexpected {:?}", other),
    }
    let mut state = StreamState { response_id: Some("c9".to_string()), finish_reason: None, usage: None };
    let done = event("[DONE]", None);
    assert!(!input_needs_fresh_id(&state, &done));
    let out = sse_step_with_id(&mut state, done, "unused");
    assert!(matches!(&out.events[0], Ok(ResponseEvent::Completed { response_id, .. }) if response_id == "c9"));
}

#[test]
fn eos_ends_the_turn() {
    let mut state = new_stream_state();
    sse_step(&mut state, event("{..}", Some(text_chunk("x", Some("a"), Some("eos")))));
    let out = sse_step(&mut state, event("[DONE]", None));
    assert!(matches!(&out.events[0], Ok(ResponseEvent::Completed { end_turn: Some(true), .. })));
}

#[test]
fn failures_and_timeouts_end_the_stream() {
    let mut state = new_stream_state();
    let out = sse_step(&mut state, SseInput::Failed("connection reset".to_string()));
    assert!(out.finished);
    assert!(matches!(&out.events[..], [Err(ApiError::Stream(m))] if m == "SSE error: connection reset"));
    let out = sse_step(&mut state, SseInput::IdleTimeout);
    assert!(out.finished);
    assert!(matches!(&out.events[..], [Err(ApiError::Stream(m))] if m == "stream idle timeout"));
    let out = sse_step(&mut state, SseInput::Ended);
    assert!(out.finished);
    assert!(out.events.is_empty());
    assert!(state.response_id.is_none());
}

#[test]
fn other_event_types_and_undecodable_data_are_ignored() {
    let mut state = new_stream_state();
    let out = sse_step(&mut state, SseInput::Event {
        event: "ping".to_string(),
        data: "[DONE]".to_string(),
        chunk: Some(text_chunk("c", Some("x"), None)),
    });
    assert!(!out.finished);
    assert!(out.events.is_empty());
    let out = sse_step(&mut state, event("not json", None));
    assert!(!out.finished);
    assert!(out.events.is_empty());
    assert!(state.response_id.is_none());
    assert!(stream_start_events(None, Vec::new()).is_empty());
}

fn snapshot(limit_id: Option<&str>, used: &str) -> RateLimitSnapshot {
    RateLimitSnapshot {
        limit_id: limit_id.map(str::to_string),
        primary: Some(RateLimitWindow { used_percent: used.to_string(), window_minutes: Some(300), resets_at: Some(1_700_000_000) }),
        secondary: None,
    }
}

#[test]
fn rate_limits_follow_the_server_model_in_order() {
    let start = stream_start_events(
        Some("gpt-4o".to_string()),
        vec![snapshot(None, "12.5"), snapshot(Some("codex_other"), "80")],
    );
    assert_eq!(start.len(), 3);
    assert!(matches!(&start[0], Ok(ResponseEvent::ServerModel(m)) if m == "gpt-4o"));
    match &start[1] {
        Ok(ResponseEvent::RateLimits(r)) => {
            assert!(r.limit_id.is_none());
            let w = r.primary.as_ref().unwrap();
            assert_eq!(w.used_percent, "12.5");
            assert_eq!(w.window_minutes, Some(300));
            assert_eq!(w.resets_at, Some(1_700_000_000));
            assert!(r.secondary.is_none());
        }
        _ => panic!("expected a rate-limit event"),
    }
    match &start[2] {
        Ok(ResponseEvent::RateLimits(r)) => {
            assert_eq!(r.limit_id.as_deref(), Some("codex_other"));
            assert_eq!(r.primary.as_ref().unwrap().used_percent, "80");
        }
        _ => panic!("expected a rate-limit event"),
    }
}

#[test]
fn rate_limits_without_a_server_model() {
    let start = stream_start_events(None, vec![snapshot(None, "1")]);
    assert_eq!(start.len(), 1);
    assert!(matches!(&start[0], Ok(ResponseEvent::RateLimits(_))));
}
