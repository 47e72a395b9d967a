//! Decoding of a Chat Completions server-sent event stream into the canonical
//! response events: the decisions taken for each input of the stream.

use crate::protocol::{ApiError, RateLimitSnapshot, ResponseEvent, TokenUsage};
use crate::text::{decimal, str_eq, u64_to_decimal};
use vstd::prelude::*;

verus! {

/// One streamed Chat Completions chunk.
#[derive(Debug)]
pub struct ChatCompletionChunk {
    pub id: String,
    pub choices: Vec<ChunkChoice>,
    pub usage: Option<ChunkUsage>,
}

/// One choice of a chunk.
#[derive(Debug)]
pub struct ChunkChoice {
    pub index: u32,
    pub delta: Option<ChunkDelta>,
    pub finish_reason: Option<String>,
}

/// What a choice adds to the response.
#[derive(Debug)]
pub struct ChunkDelta {
    pub role: Option<String>,
    pub content: Option<String>,
    pub tool_calls: Option<Vec<ChunkToolCall>>,
}

/// A piece of a tool call.
#[derive(Debug)]
pub struct ChunkToolCall {
    pub index: u32,
    pub id: Option<String>,
    pub function: Option<ChunkToolCallFunction>,
}

/// A piece of the function of a tool call.
#[derive(Debug)]
pub struct ChunkToolCallFunction {
    pub name: Option<String>,
    pub arguments: Option<String>,
}

/// Token counts of a chunk.
#[derive(Debug, Clone, Copy, PartialEq, Eq, Structural)]
pub struct ChunkUsage {
    pub prompt_tokens: u32,
    pub completion_tokens: u32,
    pub total_tokens: u32,
}

/// What the decoder remembers between inputs.
#[derive(Debug)]
pub struct StreamState {
    /// The id of the first chunk decoded.
    pub response_id: Option<String>,
    /// The last finish reason reported.
    pub finish_reason: Option<String>,
    /// The last token counts reported.
    pub usage: Option<TokenUsage>,
}

/// One input of the stream, as the transport delivers it.
#[derive(Debug)]
pub enum SseInput {
    /// A server-sent event: its type (empty when absent), its data, and the
    /// data decoded as a chunk (`None` where the data is no chunk).
    Event { event: String, data: String, chunk: Option<ChatCompletionChunk> },
    /// The event stream failed; the text describes the failure.
    Failed(String),
    /// The event stream ended.
    Ended,
    /// No event arrived within the idle timeout.
    IdleTimeout,
}

/// What the decoder emits for one input, and whether the stream is over.
#[derive(Debug)]
pub struct SseStep {
    pub events: Vec<Result<ResponseEvent, ApiError>>,
    pub finished: bool,
}

/// An emitted event, with its strings taken by their characters.
pub enum EventView {
    Created,
    OutputTextDelta(Seq<char>),
    ToolCallInputDelta { item_id: Seq<char>, call_id: Option<Seq<char>>, delta: Seq<char> },
    Completed { response_id: Seq<char>, token_usage: Option<TokenUsage>, end_turn: Option<bool> },
    ServerModel(Seq<char>),
    RateLimits(RateLimitSnapshot),
    StreamError(Seq<char>),
}

pub open spec fn opt_chars(o: Option<String>) -> Option<Seq<char>> {
    match o {
        Some(s) => Some(s@),
        None => None,
    }
}

pub open spec fn event_view(e: Result<ResponseEvent, ApiError>) -> EventView {
    match e {
        Ok(ResponseEvent::Created) => EventView::Created,
        Ok(ResponseEvent::OutputTextDelta(t)) => EventView::OutputTextDelta(t@),
        Ok(ResponseEvent::ToolCallInputDelta { item_id, call_id, delta }) => EventView::ToolCallInputDelta {
            item_id: item_id@,
            call_id: opt_chars(call_id),
            delta: delta@,
        },
        Ok(ResponseEvent::Completed { response_id, token_usage, end_turn }) => EventView::Completed {
            response_id: response_id@,
            token_usage,
            end_turn,
        },
        Ok(ResponseEvent::ServerModel(m)) => EventView::ServerModel(m@),
        Ok(ResponseEvent::RateLimits(r)) => EventView::RateLimits(r),
        Err(ApiError::Stream(m)) => EventView::StreamError(m@),
    }
}

pub open spec fn events_view(es: Seq<Result<ResponseEvent, ApiError>>) -> Seq<EventView> {
    es.map_values(|e: Result<ResponseEvent, ApiError>| event_view(e))
}

/// The events that open a stream: the model the server reports, if any, then
/// one `RateLimits` event for each rate-limit snapshot, in order.
pub open spec fn start_events(server_model: Option<String>, snapshots: Seq<RateLimitSnapshot>) -> Seq<EventView> {
    (match server_model {
        Some(m) => seq![EventView::ServerModel(m@)],
        None => Seq::empty(),
    }) + snapshots.map_values(|r: RateLimitSnapshot| EventView::RateLimits(r))
}

/// Event types that carry chunks: no type, or `message`.
pub open spec fn is_message_event(event: Seq<char>) -> bool {
    event.len() == 0 || event == "message"@
}

/// The data that ends a stream.
pub open spec fn is_done(data: Seq<char>) -> bool {
    data == "[DONE]"@
}

/// Whether a finish reason ends the turn: `stop` and `eos` do.
pub open spec fn end_turn_for(finish_reason: Option<String>) -> Option<bool> {
    match finish_reason {
        Some(r) => Some(r@ == "stop"@ || r@ == "eos"@),
        None => None,
    }
}

/// The token usage reported by a chunk.
pub open spec fn usage_from(u: ChunkUsage) -> TokenUsage {
    TokenUsage {
        input_tokens: u.prompt_tokens as i64,
        cached_input_tokens: 0,
        output_tokens: u.completion_tokens as i64,
        reasoning_output_tokens: 0,
        total_tokens: u.total_tokens as i64,
    }
}

/// The item id of the tool call with `index` in the chunk `chunk_id`: `chatcmpl-{chunk_id}-tc-{index}`.
pub open spec fn tool_call_item_id(chunk_id: Seq<char>, index: u32) -> Seq<char> {
    "chatcmpl-"@ + chunk_id + "-tc-"@ + decimal(index as nat)
}

pub open spec fn tool_call_event(chunk_id: Seq<char>, tc: ChunkToolCall) -> EventView {
    EventView::ToolCallInputDelta {
        item_id: tool_call_item_id(chunk_id, tc.index),
        call_id: opt_chars(tc.id),
        delta: match tc.function {
            Some(f) => match f.arguments {
                Some(a) => a@,
                None => Seq::empty(),
            },
            None => Seq::empty(),
        },
    }
}

pub open spec fn tool_call_events(chunk_id: Seq<char>, calls: Seq<ChunkToolCall>) -> Seq<EventView>
    decreases calls.len(),
{
    if calls.len() == 0 {
        Seq::empty()
    } else {
        tool_call_events(chunk_id, calls.drop_last()).push(tool_call_event(chunk_id, calls.last()))
    }
}

/// The events of one delta: its text, if not empty, then one event per tool call.
pub open spec fn delta_events(chunk_id: Seq<char>, d: ChunkDelta) -> Seq<EventView> {
    let text = match d.content {
        Some(c) => if c@.len() > 0 {
            seq![EventView::OutputTextDelta(c@)]
        } else {
            Seq::empty()
        },
        None => Seq::empty(),
    };
    let calls = match d.tool_calls {
        Some(tcs) => tool_call_events(chunk_id, tcs@),
        None => Seq::empty(),
    };
    text + calls
}

pub open spec fn choice_events(chunk_id: Seq<char>, c: ChunkChoice) -> Seq<EventView> {
    match c.delta {
        Some(d) => delta_events(chunk_id, d),
        None => Seq::empty(),
    }
}

pub open spec fn choices_events(chunk_id: Seq<char>, cs: Seq<ChunkChoice>) -> Seq<EventView>
    decreases cs.len(),
{
    if cs.len() == 0 {
        Seq::empty()
    } else {
        choices_events(chunk_id, cs.drop_last()) + choice_events(chunk_id, cs.last())
    }
}

/// The finish reason after the choices `cs`: that of the last choice that reports one, else `prev`.
pub open spec fn last_finish_reason(cs: Seq<ChunkChoice>, prev: Option<String>) -> Option<String>
    decreases cs.len(),
{
    if cs.len() == 0 {
        prev
    } else {
        match cs.last().finish_reason {
            Some(r) => Some(r),
            None => last_finish_reason(cs.drop_last(), prev),
        }
    }
}

/// The state after decoding `chunk`.
pub open spec fn chunk_state(s: StreamState, chunk: ChatCompletionChunk) -> StreamState {
    StreamState {
        response_id: if s.response_id is None {
            Some(chunk.id)
        } else {
            s.response_id
        },
        finish_reason: last_finish_reason(chunk.choices@, s.finish_reason),
        usage: match chunk.usage {
            Some(u) => Some(usage_from(u)),
            None => s.usage,
        },
    }
}

/// The events of `chunk`: `Created` for the first chunk, then those of its choices.
pub open spec fn chunk_events(s: StreamState, chunk: ChatCompletionChunk) -> Seq<EventView> {
    (if s.response_id is None {
        seq![EventView::Created]
    } else {
        Seq::empty()
    }) + choices_events(chunk.id@, chunk.choices@)
}

/// The response id of the completion: the first chunk's id, else `chatcmpl-` and a fresh id.
pub open spec fn completion_id(response_id: Option<String>, fresh: Seq<char>) -> Seq<char> {
    match response_id {
        Some(r) => r@,
        None => "chatcmpl-"@ + fresh,
    }
}

/// Whether `input` ends the stream: `[DONE]`, a failure, the end, or the idle timeout.
pub open spec fn step_finished(input: SseInput) -> bool {
    match input {
        SseInput::Event { event, data, .. } => is_message_event(event@) && is_done(data@),
        _ => true,
    }
}

/// The state after `input`: only a decoded chunk changes it.
pub open spec fn step_state(s: StreamState, input: SseInput) -> StreamState {
    match input {
        SseInput::Event { event, data, chunk } => if is_message_event(event@) && !is_done(data@) {
            match chunk {
                Some(c) => chunk_state(s, c),
                None => s,
            }
        } else {
            s
        },
        _ => s,
    }
}

/// The events emitted for `input` in state `s`; `fresh` is the fresh id used
/// where no chunk has given the response an id.
pub open spec fn step_events(s: StreamState, input: SseInput, fresh: Seq<char>) -> Seq<EventView> {
    match input {
        SseInput::Event { event, data, chunk } => if !is_message_event(event@) {
            Seq::empty()
        } else if is_done(data@) {
            seq![
                EventView::Completed {
                    response_id: completion_id(s.response_id, fresh),
                    token_usage: s.usage,
                    end_turn: end_turn_for(s.finish_reason),
                },
            ]
        } else {
            match chunk {
                Some(c) => chunk_events(s, c),
                None => Seq::empty(),
            }
        },
        SseInput::Failed(msg) => seq![EventView::StreamError("SSE error: "@ + msg@)],
        SseInput::Ended => Seq::empty(),
        SseInput::IdleTimeout => seq![EventView::StreamError("stream idle timeout"@)],
    }
}

/// The state of a stream before its first input.
pub fn new_stream_state() -> (s: StreamState)
    ensures
        s.response_id is None,
        s.finish_reason is None,
        s.usage is None,
{
    StreamState { response_id: None, finish_reason: None, usage: None }
}

/// The events that open a stream: `ServerModel` where the server named its
/// model, then the rate-limit snapshots, each as a `RateLimits` event.
pub fn stream_start_events(
    server_model: Option<String>,
    snapshots: Vec<RateLimitSnapshot>,
) -> (r: Vec<Result<ResponseEvent, ApiError>>)
    ensures
        events_view(r@) == start_events(server_model, snapshots@),
{
    let mut r: Vec<Result<ResponseEvent, ApiError>> = Vec::new();
    match server_model {
        Some(m) => {
            r.push(Ok(ResponseEvent::ServerModel(m)));
        },
        None => {},
    }
    let ghost head = events_view(r@);
    let mut rest = snapshots;
    let ghost all = rest@;
    let n: usize = rest.len();
    let mut i: usize = 0;
    while rest.len() > 0
        invariant
            all.len() == n,
            i <= all.len(),
            rest@ == all.skip(i as int),
            events_view(r@) == head + all.take(i as int).map_values(|x: RateLimitSnapshot| EventView::RateLimits(x)),
        decreases rest.len(),
    {
        let snapshot = rest.remove(0);
        let ghost before = r@;
        r.push(Ok(ResponseEvent::RateLimits(snapshot)));
        assert(snapshot == all[i as int]);
        assert(r@ =~= before.push(Ok(ResponseEvent::RateLimits(snapshot))));
        assert(events_view(r@) =~= events_view(before).push(EventView::RateLimits(snapshot)));
        i = i + 1;
        assert(rest@ =~= all.skip(i as int));
        assert(all.take(i as int) =~= all.take(i - 1).push(snapshot));
        assert(events_view(r@) =~= head + all.take(i as int).map_values(
            |x: RateLimitSnapshot| EventView::RateLimits(x),
        ));
    }
    assert(i == all.len());
    assert(all.take(all.len() as int) =~= all);
    r
}

fn tool_call_item_id_exec(chunk_id: &str, index: u32) -> (r: String)
    ensures
        r@ == tool_call_item_id(chunk_id@, index),
{
    let mut r = String::from_str("chatcmpl-");
    r.append(chunk_id);
    r.append("-tc-");
    let digits = u64_to_decimal(index as u64);
    r.append(digits.as_str());
    r
}

fn push_event(events: &mut Vec<Result<ResponseEvent, ApiError>>, e: Result<ResponseEvent, ApiError>)
    ensures
        events_view(final(events)@) == events_view(old(events)@).push(event_view(e)),
{
    let ghost before = events@;
    events.push(e);
    assert(events_view(events@) =~= events_view(before).push(event_view(e)));
}

fn delta_events_exec(
    events: &mut Vec<Result<ResponseEvent, ApiError>>,
    chunk_id: &String,
    d: &ChunkDelta,
)
    ensures
        events_view(final(events)@) == events_view(old(events)@) + delta_events(chunk_id@, *d),
{
    let ghost start = events_view(events@);
    match &d.content {
        Some(c) => {
            if c.unicode_len() > 0 {
                push_event(events, Ok(ResponseEvent::OutputTextDelta(c.clone())));
            }
        },
        None => {},
    }
    let ghost text_part = events_view(events@);
    assert(text_part == start + match d.content {
        Some(c) => if c@.len() > 0 {
            seq![EventView::OutputTextDelta(c@)]
        } else {
            Seq::<EventView>::empty()
        },
        None => Seq::<EventView>::empty(),
    });
    match &d.tool_calls {
        Some(tcs) => {
            let mut k: usize = 0;
            assert(tcs@.take(0) =~= Seq::<ChunkToolCall>::empty());
            while k < tcs.len()
                invariant
                    k <= tcs@.len(),
                    events_view(events@) == text_part + tool_call_events(chunk_id@, tcs@.take(k as int)),
                decreases tcs.len() - k,
            {
                assert(tcs@.take(k + 1).drop_last() =~= tcs@.take(k as int));
                assert(tcs@.take(k + 1).last() == tcs@[k as int]);
                let tc = &tcs[k];
                let item_id = tool_call_item_id_exec(chunk_id.as_str(), tc.index);
                let call_id = match &tc.id {
                    Some(x) => Some(x.clone()),
                    None => None,
                };
                let delta = match &tc.function {
                    Some(f) => match &f.arguments {
                        Some(a) => a.clone(),
                        None => String::new(),
                    },
                    None => String::new(),
                };
                push_event(events, Ok(ResponseEvent::ToolCallInputDelta { item_id, call_id, delta }));
                k = k + 1;
                assert(events_view(events@) =~= text_part + tool_call_events(chunk_id@, tcs@.take(k as int)));
            }
            assert(tcs@.take(tcs@.len() as int) =~= tcs@);
        },
        None => {},
    }
    assert(events_view(events@) =~= start + delta_events(chunk_id@, *d));
}

/// Decodes one chunk: remembers its id if it is the first, its token counts
/// and its last finish reason, and emits `Created` for the first chunk, then
/// for each choice its non-empty text and one event per tool call.
pub fn apply_chunk(state: &mut StreamState, chunk: ChatCompletionChunk) -> (events: Vec<
    Result<ResponseEvent, ApiError>,
>)
    ensures
        *final(state) == chunk_state(*old(state), chunk),
        events_view(events@) == chunk_events(*old(state), chunk),
{
    let ghost s0 = *state;
    let mut events: Vec<Result<ResponseEvent, ApiError>> = Vec::new();
    if state.response_id.is_none() {
        state.response_id = Some(chunk.id.clone());
        push_event(&mut events, Ok(ResponseEvent::Created));
    }
    match &chunk.usage {
        Some(u) => {
            state.usage = Some(
                TokenUsage {
                    input_tokens: u.prompt_tokens as i64,
                    cached_input_tokens: 0,
                    output_tokens: u.completion_tokens as i64,
                    reasoning_output_tokens: 0,
                    total_tokens: u.total_tokens as i64,
                },
            );
        },
        None => {},
    }
    let ghost head = events_view(events@);
    assert(head =~= (if s0.response_id is None {
        seq![EventView::Created]
    } else {
        Seq::<EventView>::empty()
    }));
    let mut i: usize = 0;
    assert(chunk.choices@.take(0) =~= Seq::<ChunkChoice>::empty());
    while i < chunk.choices.len()
        invariant
            i <= chunk.choices@.len(),
            state.response_id == chunk_state(s0, chunk).response_id,
            state.usage == chunk_state(s0, chunk).usage,
            state.finish_reason == last_finish_reason(chunk.choices@.take(i as int), s0.finish_reason),
            events_view(events@) == head + choices_events(chunk.id@, chunk.choices@.take(i as int)),
        decreases chunk.choices.len() - i,
    {
        assert(chunk.choices@.take(i + 1).drop_last() =~= chunk.choices@.take(i as int));
        assert(chunk.choices@.take(i + 1).last() == chunk.choices@[i as int]);
        let choice = &chunk.choices[i];
        match &choice.finish_reason {
            Some(reason) => {
                state.finish_reason = Some(reason.clone());
            },
            None => {},
        }
        let ghost before = events_view(events@);
        match &choice.delta {
            Some(d) => {
                delta_events_exec(&mut events, &chunk.id, d);
            },
            None => {},
        }
        assert(events_view(events@) =~= before + choice_events(chunk.id@, *choice));
        i = i + 1;
        assert(events_view(events@) =~= head + choices_events(chunk.id@, chunk.choices@.take(i as int)));
    }
    assert(chunk.choices@.take(chunk.choices@.len() as int) =~= chunk.choices@);
    events
}

/// Whether the end-of-stream answer needs a fresh response id: no chunk has given one.
pub open spec fn needs_fresh_id(s: StreamState, input: SseInput) -> bool {
    s.response_id is None && match input {
        SseInput::Event { event, data, .. } => is_message_event(event@) && is_done(data@),
        _ => false,
    }
}

/// Decides what one input of the stream does, given the fresh id to use
/// where the stream completes before any chunk gave the response an id.
pub fn sse_step_with_id(state: &mut StreamState, input: SseInput, fresh_id: &str) -> (out: SseStep)
    ensures
        *final(state) == step_state(*old(state), input),
        events_view(out.events@) == step_events(*old(state), input, fresh_id@),
        out.finished == step_finished(input),
{
    let ghost s0 = *state;
    let ghost inp = input;
    let mut events: Vec<Result<ResponseEvent, ApiError>> = Vec::new();
    match input {
        SseInput::Event { event, data, chunk } => {
            let is_message = event.unicode_len() == 0 || str_eq(event.as_str(), "message");
            if !is_message {
                assert(events_view(events@) =~= Seq::<EventView>::empty());
                return SseStep { events, finished: false };
            }
            if str_eq(data.as_str(), "[DONE]") {
                let response_id = match &state.response_id {
                    Some(r) => r.clone(),
                    None => {
                        let mut r = String::from_str("chatcmpl-");
                        r.append(fresh_id);
                        r
                    },
                };
                let end_turn = match &state.finish_reason {
                    Some(r) => Some(str_eq(r.as_str(), "stop") || str_eq(r.as_str(), "eos")),
                    None => None,
                };
                push_event(
                    &mut events,
                    Ok(ResponseEvent::Completed { response_id, token_usage: state.usage, end_turn }),
                );
                assert(events_view(events@) =~= step_events(s0, inp, fresh_id@));
                return SseStep { events, finished: true };
            }
            match chunk {
                Some(c) => {
                    let evs = apply_chunk(state, c);
                    return SseStep { events: evs, finished: false };
                },
                None => {
                    assert(events_view(events@) =~= Seq::<EventView>::empty());
                    return SseStep { events, finished: false };
                },
            }
        },
        SseInput::Failed(msg) => {
            let mut m = String::from_str("SSE error: ");
            m.append(msg.as_str());
            push_event(&mut events, Err(ApiError::Stream(m)));
            assert(events_view(events@) =~= step_events(s0, inp, fresh_id@));
            SseStep { events, finished: true }
        },
        SseInput::Ended => {
            assert(events_view(events@) =~= Seq::<EventView>::empty());
            SseStep { events, finished: true }
        },
        SseInput::IdleTimeout => {
            push_event(&mut events, Err(ApiError::Stream(String::from_str("stream idle timeout"))));
            assert(events_view(events@) =~= step_events(s0, inp, fresh_id@));
            SseStep { events, finished: true }
        },
    }
}


/// Whether the answer to `input` needs a fresh response id: the input is the
/// `[DONE]` of a message event and no chunk has given the response an id.
/// Only then does `sse_step_with_id` read the id it is given.
pub fn input_needs_fresh_id(state: &StreamState, input: &SseInput) -> (r: bool)
    ensures
        r == needs_fresh_id(*state, *input),
{
    match input {
        SseInput::Event { event, data, .. } => state.response_id.is_none() && (event.unicode_len() == 0
            || str_eq(event.as_str(), "message")) && str_eq(data.as_str(), "[DONE]"),
        _ => false,
    }
}

/// The fresh id is read only where `needs_fresh_id` holds.
pub proof fn lemma_fresh_id_unused(s: StreamState, input: SseInput, f1: Seq<char>, f2: Seq<char>)
    requires
        !needs_fresh_id(s, input),
    ensures
        step_events(s, input, f1) == step_events(s, input, f2),
{
}

// ---------------------------------------------------------------------------
// Laws
// ---------------------------------------------------------------------------

/// The state after a run of inputs.
pub open spec fn run_state(s: StreamState, inputs: Seq<SseInput>) -> StreamState
    decreases inputs.len(),
{
    if inputs.len() == 0 {
        s
    } else {
        step_state(run_state(s, inputs.drop_last()), inputs.last())
    }
}

/// Once a chunk has given the response its id, no later input changes it.
pub proof fn lemma_response_id_stable(s: StreamState, inputs: Seq<SseInput>)
    requires
        s.response_id is Some,
    ensures
        run_state(s, inputs).response_id == s.response_id,
    decreases inputs.len(),
{
    if inputs.len() > 0 {
        lemma_response_id_stable(s, inputs.drop_last());
    }
}

/// The completion reports the id of the first chunk: after a first chunk
/// with id `c.id` and any further inputs, `[DONE]` completes the response
/// with that id.
pub proof fn lemma_completion_carries_first_id(
    s: StreamState,
    event: String,
    data: String,
    c: ChatCompletionChunk,
    rest: Seq<SseInput>,
    done_event: String,
    done_data: String,
    fresh: Seq<char>,
)
    requires
        s.response_id is None,
        is_message_event(event@),
        !is_done(data@),
        is_message_event(done_event@),
        is_done(done_data@),
    ensures
        ({
            let first = step_state(s, SseInput::Event { event, data, chunk: Some(c) });
            let last = run_state(first, rest);
            step_events(last, SseInput::Event { event: done_event, data: done_data, chunk: None }, fresh)
                == seq![
                EventView::Completed {
                    response_id: c.id@,
                    token_usage: last.usage,
                    end_turn: end_turn_for(last.finish_reason),
                },
            ]
        }),
{
    let first = step_state(s, SseInput::Event { event, data, chunk: Some(c) });
    lemma_response_id_stable(first, rest);
}

proof fn lemma_tool_call_events_kinds(id: Seq<char>, calls: Seq<ChunkToolCall>)
    ensures
        forall|i: int|
            0 <= i < tool_call_events(id, calls).len() ==> #[trigger] tool_call_events(id, calls)[i] is ToolCallInputDelta,
    decreases calls.len(),
{
    if calls.len() > 0 {
        lemma_tool_call_events_kinds(id, calls.drop_last());
    }
}

/// The text carried by the text deltas among `evs`, in order.
pub open spec fn streamed_text(evs: Seq<EventView>) -> Seq<char>
    decreases evs.len(),
{
    if evs.len() == 0 {
        Seq::empty()
    } else {
        streamed_text(evs.drop_last()) + match evs.last() {
            EventView::OutputTextDelta(t) => t,
            _ => Seq::empty(),
        }
    }
}

/// The text content of the deltas of the choices `cs`, in order.
pub open spec fn choices_text(cs: Seq<ChunkChoice>) -> Seq<char>
    decreases cs.len(),
{
    if cs.len() == 0 {
        Seq::empty()
    } else {
        choices_text(cs.drop_last()) + match cs.last().delta {
            Some(d) => match d.content {
                Some(c) => c@,
                None => Seq::empty(),
            },
            None => Seq::empty(),
        }
    }
}

proof fn lemma_streamed_text_concat(a: Seq<EventView>, b: Seq<EventView>)
    ensures
        streamed_text(a + b) == streamed_text(a) + streamed_text(b),
    decreases b.len(),
{
    if b.len() == 0 {
        assert(a + b =~= a);
        assert(streamed_text(a) + streamed_text(b) =~= streamed_text(a));
    } else {
        lemma_streamed_text_concat(a, b.drop_last());
        assert((a + b).drop_last() =~= a + b.drop_last());
        assert((a + b).last() == b.last());
        let tail = match b.last() {
            EventView::OutputTextDelta(t) => t,
            _ => Seq::<char>::empty(),
        };
        assert(streamed_text(a) + streamed_text(b.drop_last()) + tail =~= streamed_text(a) + (streamed_text(
            b.drop_last(),
        ) + tail));
    }
}

proof fn lemma_streamed_text_of_one(evs: Seq<EventView>)
    requires
        evs.len() <= 1,
    ensures
        evs.len() == 0 ==> streamed_text(evs) == Seq::<char>::empty(),
        evs.len() == 1 ==> streamed_text(evs) == match evs[0] {
            EventView::OutputTextDelta(t) => t,
            _ => Seq::<char>::empty(),
        },
{
    if evs.len() == 1 {
        assert(evs.drop_last() =~= Seq::<EventView>::empty());
        assert(streamed_text(evs.drop_last()) == Seq::<char>::empty());
        assert(evs.last() == evs[0]);
        let t = match evs[0] {
            EventView::OutputTextDelta(t) => t,
            _ => Seq::<char>::empty(),
        };
        assert(Seq::<char>::empty() + t =~= t);
    }
}

proof fn lemma_tool_call_events_carry_no_text(id: Seq<char>, calls: Seq<ChunkToolCall>)
    ensures
        streamed_text(tool_call_events(id, calls)) == Seq::<char>::empty(),
    decreases calls.len(),
{
    if calls.len() > 0 {
        lemma_tool_call_events_carry_no_text(id, calls.drop_last());
        let prev = tool_call_events(id, calls.drop_last());
        let all = prev.push(tool_call_event(id, calls.last()));
        assert(all.drop_last() =~= prev);
        assert(streamed_text(all) =~= Seq::<char>::empty());
    }
}

proof fn lemma_choices_text(id: Seq<char>, cs: Seq<ChunkChoice>)
    ensures
        streamed_text(choices_events(id, cs)) == choices_text(cs),
    decreases cs.len(),
{
    if cs.len() > 0 {
        lemma_choices_text(id, cs.drop_last());
        let c = cs.last();
        lemma_streamed_text_concat(choices_events(id, cs.drop_last()), choice_events(id, c));
        match c.delta {
            Some(d) => {
                let text: Seq<EventView> = match d.content {
                    Some(t) => if t@.len() > 0 {
                        seq![EventView::OutputTextDelta(t@)]
                    } else {
                        Seq::empty()
                    },
                    None => Seq::empty(),
                };
                let calls: Seq<EventView> = match d.tool_calls {
                    Some(tcs) => tool_call_events(id, tcs@),
                    None => Seq::empty(),
                };
                match d.tool_calls {
                    Some(tcs) => lemma_tool_call_events_carry_no_text(id, tcs@),
                    None => {},
                }
                lemma_streamed_text_concat(text, calls);
                let own: Seq<char> = match d.content {
                    Some(t) => t@,
                    None => Seq::empty(),
                };
                lemma_streamed_text_of_one(text);
                assert(streamed_text(text) =~= own);
                assert(streamed_text(text) + streamed_text(calls) =~= own);
            },
            None => {},
        }
        assert(choices_text(cs.drop_last()) + streamed_text(choice_events(id, c)) =~= choices_text(cs));
    }
}

/// No text is lost or altered: the text deltas that a chunk yields carry,
/// concatenated, exactly the concatenated text contents of its choices, in
/// order, whitespace included.
pub proof fn lemma_chunk_text_kept(s: StreamState, input: SseInput, fresh: Seq<char>)
    requires
        input matches SseInput::Event { event, data, chunk } && is_message_event(event@) && !is_done(data@)
            && chunk is Some,
    ensures
        streamed_text(step_events(s, input, fresh)) == choices_text(input->Event_chunk->0.choices@),
{
    let c = input->Event_chunk->0;
    let head: Seq<EventView> = if s.response_id is None {
        seq![EventView::Created]
    } else {
        Seq::empty()
    };
    lemma_choices_text(c.id@, c.choices@);
    lemma_streamed_text_concat(head, choices_events(c.id@, c.choices@));
    lemma_streamed_text_of_one(head);
    assert(streamed_text(head) =~= Seq::<char>::empty());
    assert(Seq::<char>::empty() + choices_text(c.choices@) =~= choices_text(c.choices@));
}

/// A delta with non-empty text content yields that content, unchanged, as
/// its first event.
pub proof fn lemma_delta_text_first(chunk_id: Seq<char>, d: ChunkDelta)
    requires
        d.content matches Some(c) && c@.len() > 0,
    ensures
        delta_events(chunk_id, d).len() >= 1,
        delta_events(chunk_id, d)[0] == EventView::OutputTextDelta(d.content->0@),
{
}

/// `[DONE]` answers with one `Completed` event whose end of turn is decided by
/// the last finish reason reported: `Some(true)` exactly for `stop` and
/// `eos`, `Some(false)` for every other reason, `None` where none was reported.
pub proof fn lemma_done_end_turn(s: StreamState, input: SseInput, fresh: Seq<char>)
    requires
        input matches SseInput::Event { event, data, .. } && is_message_event(event@) && is_done(data@),
    ensures
        step_events(s, input, fresh).len() == 1,
        step_events(s, input, fresh)[0] is Completed,
        s.finish_reason is None ==> step_events(s, input, fresh)[0]->Completed_end_turn == None::<bool>,
        s.finish_reason matches Some(r) ==> (step_events(s, input, fresh)[0]->Completed_end_turn == Some(true)
            <==> (r@ == "stop"@ || r@ == "eos"@)),
        s.finish_reason matches Some(r) ==> (step_events(s, input, fresh)[0]->Completed_end_turn == Some(false)
            <==> !(r@ == "stop"@ || r@ == "eos"@)),
{
}

/// A chunk whose last choice reports a finish reason makes it the one that
/// `[DONE]` answers with.
pub proof fn lemma_last_finish_reason_kept(s: StreamState, chunk: ChatCompletionChunk)
    requires
        chunk.choices@.len() > 0,
        chunk.choices@.last().finish_reason is Some,
    ensures
        chunk_state(s, chunk).finish_reason == chunk.choices@.last().finish_reason,
{
}

proof fn lemma_choices_events_kinds(id: Seq<char>, cs: Seq<ChunkChoice>)
    ensures
        forall|i: int|
            0 <= i < choices_events(id, cs).len() ==> (#[trigger] choices_events(id, cs)[i] is OutputTextDelta
                || choices_events(id, cs)[i] is ToolCallInputDelta),
    decreases cs.len(),
{
    if cs.len() > 0 {
        lemma_choices_events_kinds(id, cs.drop_last());
        let prev = choices_events(id, cs.drop_last());
        let c = cs.last();
        match c.delta {
            Some(d) => match d.tool_calls {
                Some(tcs) => lemma_tool_call_events_kinds(id, tcs@),
                None => {},
            },
            None => {},
        }
        let cur = choice_events(id, c);
        assert forall|i: int| 0 <= i < (prev + cur).len() implies ((prev + cur)[i] is OutputTextDelta || (prev
            + cur)[i] is ToolCallInputDelta) by {
            if i >= prev.len() {
                let k = i - prev.len();
                match c.delta {
                    Some(d) => {
                        let text = match d.content {
                            Some(t) => if t@.len() > 0 {
                                seq![EventView::OutputTextDelta(t@)]
                            } else {
                                Seq::empty()
                            },
                            None => Seq::empty(),
                        };
                        if k >= text.len() {
                            match d.tool_calls {
                                Some(tcs) => {
                                    assert(cur[k] == tool_call_events(id, tcs@)[k - text.len()]);
                                },
                                None => {},
                            }
                        }
                    },
                    None => {},
                }
            }
        }
    }
}

/// `Created` opens the response exactly once: an input emits it only while no
/// chunk has been decoded, the response has an id afterwards, and the first
/// decoded chunk does emit it, before any other event.
pub proof fn lemma_created_once(s: StreamState, input: SseInput, fresh: Seq<char>)
    ensures
        step_events(s, input, fresh).contains(EventView::Created) ==> s.response_id is None && step_state(
            s,
            input,
        ).response_id is Some,
        s.response_id is None && (input matches SseInput::Event { event, data, chunk } && is_message_event(
            event@,
        ) && !is_done(data@) && chunk is Some) ==> step_events(s, input, fresh).len() > 0 && step_events(
            s,
            input,
            fresh,
        )[0] == EventView::Created,
{
    match input {
        SseInput::Event { event, data, chunk } => {
            if is_message_event(event@) && !is_done(data@) {
                match chunk {
                    Some(c) => {
                        lemma_choices_events_kinds(c.id@, c.choices@);
                        let evs = step_events(s, input, fresh);
                        let head: Seq<EventView> = if s.response_id is None {
                            seq![EventView::Created]
                        } else {
                            Seq::empty()
                        };
                        let body = choices_events(c.id@, c.choices@);
                        assert(evs == head + body);
                        if evs.contains(EventView::Created) {
                            let k = choose|k: int| 0 <= k < evs.len() && evs[k] == EventView::Created;
                            if k >= head.len() {
                                assert(evs[k] == body[k - head.len()]);
                            }
                        }
                    },
                    None => {},
                }
            }
        },
        _ => {},
    }
}

/// Inputs that end the stream leave the state as it was; events of types
/// other than `message` change nothing, emit nothing and do not end the stream.
pub proof fn lemma_terminal_and_ignored_inputs(s: StreamState, input: SseInput, fresh: Seq<char>)
    ensures
        step_finished(input) ==> step_state(s, input) == s,
        step_finished(input) ==> step_events(s, input, fresh).len() <= 1,
        (input matches SseInput::Event { event, .. } && !is_message_event(event@)) ==> step_state(s, input) == s
            && step_events(s, input, fresh).len() == 0 && !step_finished(input),
{
}

/// The state, the events emitted so far and whether the stream has ended,
/// after a run of inputs. Inputs after the end are not read: the reading
/// task stops at the first input that ends the stream.
pub open spec fn run(s: StreamState, inputs: Seq<SseInput>, fresh: Seq<char>) -> (StreamState, Seq<EventView>, bool)
    decreases inputs.len(),
{
    if inputs.len() == 0 {
        (s, Seq::empty(), false)
    } else {
        let prev = run(s, inputs.drop_last(), fresh);
        if prev.2 {
            prev
        } else {
            (
                step_state(prev.0, inputs.last()),
                prev.1 + step_events(prev.0, inputs.last(), fresh),
                step_finished(inputs.last()),
            )
        }
    }
}

/// Inputs that the decoder skips: events of another type than `message`, and
/// message events whose data is neither `[DONE]` nor a chunk.
pub open spec fn is_ignored_input(x: SseInput) -> bool {
    match x {
        SseInput::Event { event, data, chunk } => !is_message_event(event@) || (!is_done(data@) && chunk is None),
        _ => false,
    }
}

/// Skipped inputs leave no trace: a run with one more of them anywhere ends
/// in the same state with the same events, and ends exactly when the other does.
pub proof fn lemma_ignored_inputs_leave_no_trace(
    s: StreamState,
    a: Seq<SseInput>,
    x: SseInput,
    b: Seq<SseInput>,
    fresh: Seq<char>,
)
    requires
        is_ignored_input(x),
    ensures
        run(s, a + seq![x] + b, fresh) == run(s, a + b, fresh),
    decreases b.len(),
{
    if b.len() == 0 {
        assert(a + seq![x] + b =~= a.push(x));
        assert(a + b =~= a);
        assert(a.push(x).drop_last() =~= a);
        let prev = run(s, a, fresh);
        if !prev.2 {
            assert(prev.1 + step_events(prev.0, x, fresh) =~= prev.1);
        }
    } else {
        lemma_ignored_inputs_leave_no_trace(s, a, x, b.drop_last(), fresh);
        assert((a + seq![x] + b).drop_last() =~= a + seq![x] + b.drop_last());
        assert((a + b).drop_last() =~= a + b.drop_last());
        assert((a + seq![x] + b).last() == b.last());
        assert((a + b).last() == b.last());
    }
}

/// Events that end a response: its completion and stream errors.
pub open spec fn is_terminal_event(e: EventView) -> bool {
    e is Completed || e is StreamError
}

proof fn lemma_open_steps_emit_no_terminal(s: StreamState, input: SseInput, fresh: Seq<char>)
    requires
        !step_finished(input),
    ensures
        forall|i: int|
            0 <= i < step_events(s, input, fresh).len() ==> !is_terminal_event(
                #[trigger] step_events(s, input, fresh)[i],
            ),
{
    match input {
        SseInput::Event { event, data, chunk } => {
            if is_message_event(event@) && !is_done(data@) {
                match chunk {
                    Some(c) => {
                        lemma_choices_events_kinds(c.id@, c.choices@);
                        let head: Seq<EventView> = if s.response_id is None {
                            seq![EventView::Created]
                        } else {
                            Seq::empty()
                        };
                        let body = choices_events(c.id@, c.choices@);
                        assert forall|i: int| 0 <= i < (head + body).len() implies !is_terminal_event(
                            (head + body)[i],
                        ) by {
                            if i >= head.len() {
                                assert((head + body)[i] == body[i - head.len()]);
                            }
                        }
                    },
                    None => {},
                }
            }
        },
        _ => {},
    }
}

/// A run emits at most one terminal event, and only as its last event, once
/// the stream has ended.
pub proof fn lemma_one_terminal_event_last(s: StreamState, inputs: Seq<SseInput>, fresh: Seq<char>)
    ensures
        forall|i: int|
            0 <= i < run(s, inputs, fresh).1.len() && is_terminal_event(#[trigger] run(s, inputs, fresh).1[i])
                ==> i == run(s, inputs, fresh).1.len() - 1 && run(s, inputs, fresh).2,
    decreases inputs.len(),
{
    if inputs.len() > 0 {
        lemma_one_terminal_event_last(s, inputs.drop_last(), fresh);
        let prev = run(s, inputs.drop_last(), fresh);
        if !prev.2 {
            let x = inputs.last();
            let evs = step_events(prev.0, x, fresh);
            let all = prev.1 + evs;
            if !step_finished(x) {
                lemma_open_steps_emit_no_terminal(prev.0, x, fresh);
            } else {
                lemma_terminal_and_ignored_inputs(prev.0, x, fresh);
            }
            assert forall|i: int| 0 <= i < all.len() && is_terminal_event(#[trigger] all[i]) implies i == all.len()
                - 1 && step_finished(x) by {
                if i < prev.1.len() {
                    assert(all[i] == prev.1[i]);
                } else {
                    assert(all[i] == evs[i - prev.1.len()]);
                }
            }
        }
    }
}

} // verus!
