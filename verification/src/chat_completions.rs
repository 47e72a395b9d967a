//! Translation of a Responses API request into a Chat Completions request.

use crate::json::{field_index, json_get, json_parse, parse_json, JsonValue};
use crate::protocol::{ContentItem, ResponseItem, ResponsesApiRequest};
use crate::text::str_eq;
use vstd::prelude::*;

verus! {

/// Chat Completions message format.
#[derive(Debug)]
pub struct ChatMessage {
    pub role: String,
    pub content: Option<String>,
    pub name: Option<String>,
    pub tool_calls: Option<Vec<ChatToolCall>>,
    pub tool_call_id: Option<String>,
}

/// A tool call made by the assistant.
#[derive(Debug)]
pub struct ChatToolCall {
    pub id: String,
    pub call_type: String,
    pub function: ChatToolCallFunction,
}

/// The function named by a tool call, with its arguments as JSON text.
#[derive(Debug)]
pub struct ChatToolCallFunction {
    pub name: String,
    pub arguments: String,
}

/// Tool definition in Chat Completions format.
#[derive(Debug)]
pub struct ChatToolDefinition {
    pub tool_type: String,
    pub function: ChatFunctionDefinition,
}

/// A function that the model may call: its name, description and JSON Schema parameters.
#[derive(Debug)]
pub struct ChatFunctionDefinition {
    pub name: String,
    pub description: String,
    pub parameters: JsonValue,
}

/// Request body for the Chat Completions API. The request never sets a
/// sampling temperature, so the body carries none.
#[derive(Debug)]
pub struct ChatCompletionsRequest {
    pub model: String,
    pub messages: Vec<ChatMessage>,
    pub tools: Option<Vec<ChatToolDefinition>>,
    pub tool_choice: Option<String>,
    pub parallel_tool_calls: bool,
    pub stream: bool,
    pub stream_options: Option<ChatStreamOptions>,
    pub max_tokens: Option<u32>,
    pub service_tier: Option<String>,
}

/// Stream options of a Chat Completions request.
#[derive(Debug, Clone, Copy, PartialEq, Eq, Structural)]
pub struct ChatStreamOptions {
    pub include_usage: bool,
}

// ---------------------------------------------------------------------------
// Messages
// ---------------------------------------------------------------------------

/// Items that become a chat message: messages, function calls and function call outputs.
pub open spec fn is_translated(item: ResponseItem) -> bool {
    !(item is Other)
}

/// `is_translated` as a predicate to filter by.
pub open spec fn translated_pred() -> spec_fn(ResponseItem) -> bool {
    |item: ResponseItem| is_translated(item)
}

/// The items of `items` that become chat messages, in their order.
pub open spec fn translated_items(items: Seq<ResponseItem>) -> Seq<ResponseItem> {
    items.filter(translated_pred())
}

/// The text of the output-text parts of a message's content, joined without separator.
pub open spec fn output_text(content: Seq<ContentItem>) -> Seq<char>
    decreases content.len(),
{
    if content.len() == 0 {
        Seq::empty()
    } else {
        output_text(content.drop_last()) + match content.last() {
            ContentItem::OutputText { text } => text@,
            _ => Seq::empty(),
        }
    }
}

/// `m` is the system message that carries `instructions`.
pub open spec fn is_system_message(m: ChatMessage, instructions: Seq<char>) -> bool {
    &&& m.role@ == "system"@
    &&& m.content matches Some(c) && c@ == instructions
    &&& m.name is None
    &&& m.tool_calls is None
    &&& m.tool_call_id is None
}

/// `m` is the chat message that `item` becomes.
pub open spec fn is_message_for(m: ChatMessage, item: ResponseItem) -> bool {
    match item {
        ResponseItem::Message { role, content, .. } => {
            &&& m.role == role
            &&& m.content matches Some(c) && c@ == output_text(content@)
            &&& m.name is None
            &&& m.tool_calls is None
            &&& m.tool_call_id is None
        },
        ResponseItem::FunctionCall { call_id, name, arguments, .. } => {
            &&& m.role@ == "assistant"@
            &&& m.content is None
            &&& m.name is None
            &&& m.tool_call_id is None
            &&& m.tool_calls matches Some(calls) && calls@.len() == 1 && {
                let call = calls@[0];
                &&& call.id == call_id
                &&& call.call_type@ == "function"@
                &&& call.function.name == name
                &&& call.function.arguments == arguments
            }
        },
        ResponseItem::FunctionCallOutput { call_id, output, .. } => {
            &&& m.role@ == "tool"@
            &&& m.content == Some(output)
            &&& m.name is None
            &&& m.tool_calls is None
            &&& m.tool_call_id == Some(call_id)
        },
        ResponseItem::Other => false,
    }
}

/// Number of leading system messages: one where there are instructions.
pub open spec fn system_count(instructions: Seq<char>) -> int {
    if instructions.len() > 0 {
        1
    } else {
        0
    }
}

/// `msgs` are the chat messages for `input` and `instructions`: the system
/// message where `instructions` is not empty, then one message per translated
/// item, in order.
pub open spec fn messages_for(
    msgs: Seq<ChatMessage>,
    input: Seq<ResponseItem>,
    instructions: Seq<char>,
) -> bool {
    let sys = system_count(instructions);
    let items = translated_items(input);
    &&& msgs.len() == sys + items.len()
    &&& instructions.len() > 0 ==> is_system_message(msgs[0], instructions)
    &&& forall|j: int| #![trigger items[j]] 0 <= j < items.len() ==> is_message_for(msgs[sys + j], items[j])
}

/// The joined text of the output-text parts of `content`.
fn output_text_of(content: &Vec<ContentItem>) -> (r: String)
    ensures
        r@ == output_text(content@),
{
    let mut r = String::new();
    let mut i: usize = 0;
    while i < content.len()
        invariant
            i <= content@.len(),
            r@ == output_text(content@.take(i as int)),
        decreases content.len() - i,
    {
        assert(content@.take(i + 1).drop_last() =~= content@.take(i as int));
        match &content[i] {
            ContentItem::OutputText { text } => {
                r.append(text.as_str());
            },
            _ => {},
        }
        i = i + 1;
    }
    assert(content@.take(content@.len() as int) =~= content@);
    r
}

/// The chat message for one translated item.
fn message_for_item(item: &ResponseItem) -> (m: ChatMessage)
    requires
        is_translated(*item),
    ensures
        is_message_for(m, *item),
{
    match item {
        ResponseItem::Message { role, content, .. } => ChatMessage {
            role: role.clone(),
            content: Some(output_text_of(content)),
            name: None,
            tool_calls: None,
            tool_call_id: None,
        },
        ResponseItem::FunctionCall { call_id, name, arguments, .. } => {
            let mut calls: Vec<ChatToolCall> = Vec::new();
            calls.push(
                ChatToolCall {
                    id: call_id.clone(),
                    call_type: String::from_str("function"),
                    function: ChatToolCallFunction { name: name.clone(), arguments: arguments.clone() },
                },
            );
            ChatMessage {
                role: String::from_str("assistant"),
                content: None,
                name: None,
                tool_calls: Some(calls),
                tool_call_id: None,
            }
        },
        ResponseItem::FunctionCallOutput { call_id, output, .. } => ChatMessage {
            role: String::from_str("tool"),
            content: Some(output.clone()),
            name: None,
            tool_calls: None,
            tool_call_id: Some(call_id.clone()),
        },
        ResponseItem::Other => {
            proof {
                assert(false);
            }
            ChatMessage {
                role: String::new(),
                content: None,
                name: None,
                tool_calls: None,
                tool_call_id: None,
            }
        },
    }
}

/// Converts Responses API input items and instructions into Chat Completions
/// messages: a system message for non-empty instructions, then one message per
/// message, function call and function call output; other items are skipped.
pub fn responses_input_to_messages(input: &Vec<ResponseItem>, instructions: &str) -> (r: Vec<ChatMessage>)
    ensures
        messages_for(r@, input@, instructions@),
{
    let mut messages: Vec<ChatMessage> = Vec::new();
    let ghost sys = system_count(instructions@);
    if instructions.unicode_len() > 0 {
        messages.push(
            ChatMessage {
                role: String::from_str("system"),
                content: Some(String::from_str(instructions)),
                name: None,
                tool_calls: None,
                tool_call_id: None,
            },
        );
    }
    let mut i: usize = 0;
    assert(input@.take(0) =~= Seq::<ResponseItem>::empty());
    while i < input.len()
        invariant
            i <= input@.len(),
            sys == system_count(instructions@),
            messages@.len() == sys + translated_items(input@.take(i as int)).len(),
            instructions@.len() > 0 ==> is_system_message(messages@[0], instructions@),
            forall|j: int|
                #![trigger translated_items(input@.take(i as int))[j]]
                0 <= j < translated_items(input@.take(i as int)).len() ==> is_message_for(
                    messages@[sys + j],
                    translated_items(input@.take(i as int))[j],
                ),
        decreases input.len() - i,
    {
        let ghost before = translated_items(input@.take(i as int));
        proof {
            assert(input@.take(i + 1) =~= input@.take(i as int).push(input@[i as int]));
            input@.take(i as int).lemma_filter_push(input@[i as int], translated_pred());
        }
        let item = &input[i];
        match item {
            ResponseItem::Other => {},
            _ => {
                let m = message_for_item(item);
                messages.push(m);
            },
        }
        i = i + 1;
        proof {
            let after = translated_items(input@.take(i as int));
            assert forall|j: int| #![trigger after[j]] 0 <= j < after.len() implies is_message_for(
                messages@[sys + j],
                after[j],
            ) by {
                if j < before.len() {
                    assert(after[j] == before[j]);
                }
            }
        }
    }
    assert(input@.take(input@.len() as int) =~= input@);
    messages
}

// ---------------------------------------------------------------------------
// Request headers
// ---------------------------------------------------------------------------

/// The session headers of a request: the session id and the thread id, each
/// under its own name, where they are given.
pub open spec fn session_headers(session_id: Option<String>, thread_id: Option<String>) -> Seq<(Seq<char>, Seq<char>)> {
    (match session_id {
        Some(s) => seq![("session_id"@, s@)],
        None => Seq::empty(),
    }) + (match thread_id {
        Some(t) => seq![("thread_id"@, t@)],
        None => Seq::empty(),
    })
}

/// The headers, as name and value, that a streamed Chat Completions request
/// sets on top of the caller's: the thread id as client request id, the
/// session headers, the subagent where there is one, and the event-stream
/// accept header.
pub open spec fn stream_headers(
    session_id: Option<String>,
    thread_id: Option<String>,
    subagent: Option<String>,
) -> Seq<(Seq<char>, Seq<char>)> {
    (match thread_id {
        Some(t) => seq![("x-client-request-id"@, t@)],
        None => Seq::empty(),
    }) + session_headers(session_id, thread_id) + (match subagent {
        Some(s) => seq![("x-openai-subagent"@, s@)],
        None => Seq::empty(),
    }) + seq![("accept"@, "text/event-stream"@)]
}

pub open spec fn headers_view(h: Seq<(String, String)>) -> Seq<(Seq<char>, Seq<char>)> {
    h.map_values(|p: (String, String)| (p.0@, p.1@))
}

/// The headers that a streamed Chat Completions request sets, in the order
/// they are set.
pub fn stream_request_headers(
    session_id: &Option<String>,
    thread_id: &Option<String>,
    subagent: &Option<String>,
) -> (r: Vec<(String, String)>)
    ensures
        headers_view(r@) == stream_headers(*session_id, *thread_id, *subagent),
{
    let mut r: Vec<(String, String)> = Vec::new();
    match thread_id {
        Some(t) => {
            r.push((String::from_str("x-client-request-id"), t.clone()));
        },
        None => {},
    }
    match session_id {
        Some(s) => {
            r.push((String::from_str("session_id"), s.clone()));
        },
        None => {},
    }
    match thread_id {
        Some(t) => {
            r.push((String::from_str("thread_id"), t.clone()));
        },
        None => {},
    }
    match subagent {
        Some(s) => {
            r.push((String::from_str("x-openai-subagent"), s.clone()));
        },
        None => {},
    }
    r.push((String::from_str("accept"), String::from_str("text/event-stream")));
    assert(headers_view(r@) =~= stream_headers(*session_id, *thread_id, *subagent));
    r
}

// ---------------------------------------------------------------------------
// Tools
// ---------------------------------------------------------------------------

/// The `function` objects of the tool list `items`, in order, for the items
/// that have a `function` entry; `None` where one of those has no string `name`.
pub open spec fn tool_functions(items: Seq<JsonValue>) -> Option<Seq<JsonValue>>
    decreases items.len(),
{
    if items.len() == 0 {
        Some(Seq::empty())
    } else {
        match tool_functions(items.drop_last()) {
            None => None,
            Some(prev) => match json_get(items.last(), "function"@) {
                None => Some(prev),
                Some(func) => match json_get(func, "name"@) {
                    Some(JsonValue::Str(_)) => Some(prev.push(func)),
                    _ => None,
                },
            },
        }
    }
}

/// The description of a function object: its `description` where that is a string, else empty.
pub open spec fn tool_description(func: JsonValue) -> Seq<char> {
    match json_get(func, "description"@) {
        Some(JsonValue::Str(s)) => s@,
        _ => Seq::empty(),
    }
}

/// The parameter schema used where a function declares none: `{"type": "object", "properties": {}}`.
pub open spec fn is_default_parameters(p: JsonValue) -> bool {
    &&& p matches JsonValue::Object(fields) && fields@.len() == 2
    &&& p->Object_0@[0].0@ == "type"@
    &&& p->Object_0@[0].1 matches JsonValue::Str(s) && s@ == "object"@
    &&& p->Object_0@[1].0@ == "properties"@
    &&& p->Object_0@[1].1 matches JsonValue::Object(e) && e@.len() == 0
}

/// `d` is the Chat Completions definition of the function object `func`.
pub open spec fn is_definition_for(d: ChatToolDefinition, func: JsonValue) -> bool {
    &&& d.tool_type@ == "function"@
    &&& json_get(func, "name"@) matches Some(JsonValue::Str(name)) && d.function.name@ == name@
    &&& d.function.description@ == tool_description(func)
    &&& match json_get(func, "parameters"@) {
        Some(p) => d.function.parameters == p,
        None => is_default_parameters(d.function.parameters),
    }
}

/// `r` is the Chat Completions tool list for the parsed tool list `v`:
/// `None` unless `v` is an array with at least one function tool, all of whose
/// functions have a string name.
pub open spec fn tools_for(r: Option<Vec<ChatToolDefinition>>, v: JsonValue) -> bool {
    match v {
        JsonValue::Array(items) => match tool_functions(items@) {
            Some(funcs) => if funcs.len() > 0 {
                r matches Some(defs) && defs@.len() == funcs.len() && forall|k: int|
                    #![trigger defs@[k]]
                    0 <= k < funcs.len() ==> is_definition_for(defs@[k], funcs[k])
            } else {
                r is None
            },
            None => r is None,
        },
        _ => r is None,
    }
}

/// `r` is the tool list of a request whose raw tool JSON is `raw`.
pub open spec fn tools_for_request(r: Option<Vec<ChatToolDefinition>>, raw: Option<String>) -> bool {
    match raw {
        None => r is None,
        Some(text) => match json_parse(text@) {
            None => r is None,
            Some(v) => tools_for(r, v),
        },
    }
}

proof fn lemma_tool_functions_prefix_none(s: Seq<JsonValue>, k: int)
    requires
        0 <= k <= s.len(),
        tool_functions(s.take(k)) is None,
    ensures
        tool_functions(s) is None,
    decreases s.len(),
{
    if k == s.len() {
        assert(s.take(k) =~= s);
    } else {
        assert(s.drop_last().take(k) =~= s.take(k));
        lemma_tool_functions_prefix_none(s.drop_last(), k);
    }
}

fn default_parameters() -> (r: JsonValue)
    ensures
        is_default_parameters(r),
{
    let mut fields: Vec<(String, JsonValue)> = Vec::new();
    fields.push((String::from_str("type"), JsonValue::Str(String::from_str("object"))));
    fields.push((String::from_str("properties"), JsonValue::Object(Vec::new())));
    JsonValue::Object(fields)
}

/// The Chat Completions definition of one function object, `None` where it has no string `name`.
fn definition_for_function(func: JsonValue) -> (r: Option<ChatToolDefinition>)
    ensures
        match r {
            Some(d) => is_definition_for(d, func),
            None => !(json_get(func, "name"@) matches Some(JsonValue::Str(_))),
        },
{
    let ghost f = func;
    match func {
        JsonValue::Object(mut fields) => {
            let name = match field_index(&fields, "name") {
                Some(ni) => match &fields[ni].1 {
                    JsonValue::Str(s) => s.clone(),
                    _ => {
                        return None;
                    },
                },
                None => {
                    return None;
                },
            };
            let description = match field_index(&fields, "description") {
                Some(di) => match &fields[di].1 {
                    JsonValue::Str(s) => s.clone(),
                    _ => String::new(),
                },
                None => String::new(),
            };
            let parameters = match field_index(&fields, "parameters") {
                Some(pi) => {
                    let (_, p) = fields.remove(pi);
                    p
                },
                None => default_parameters(),
            };
            proof {
                reveal_strlit("function");
            }
            Some(
                ChatToolDefinition {
                    tool_type: String::from_str("function"),
                    function: ChatFunctionDefinition { name, description, parameters },
                },
            )
        },
        _ => None,
    }
}

/// Converts a parsed Responses API tool list into Chat Completions tool
/// definitions: each tool with a `function` entry becomes a function
/// definition (default description empty, default parameters an empty object
/// schema); tools without one are skipped. The result is `None` where `v` is
/// not an array, where no tool has a `function` entry, or where some
/// `function` has no string `name`.
pub fn chat_tools_from_json(v: JsonValue) -> (r: Option<Vec<ChatToolDefinition>>)
    ensures
        tools_for(r, v),
{
    let ghost orig = v;
    let mut items = match v {
        JsonValue::Array(items) => items,
        _ => {
            return None;
        },
    };
    let ghost all = items@;
    let n = items.len();
    let mut defs: Vec<ChatToolDefinition> = Vec::new();
    let mut i: usize = 0;
    assert(all.take(0) =~= Seq::<JsonValue>::empty());
    while i < n
        invariant
            n == all.len(),
            orig == v,
            orig matches JsonValue::Array(x) && x@ == all,
            items@.len() == n,
            i <= n,
            forall|k: int| i <= k < n ==> items@[k] == all[k],
            tool_functions(all.take(i as int)) matches Some(funcs) && defs@.len() == funcs.len()
                && forall|k: int|
                #![trigger defs@[k]]
                0 <= k < funcs.len() ==> is_definition_for(defs@[k], funcs[k]),
        decreases n - i,
    {
        let ghost funcs_before = tool_functions(all.take(i as int))->0;
        assert(all.take(i + 1).drop_last() =~= all.take(i as int));
        assert(all.take(i + 1).last() == all[i as int]);
        let mut tool = JsonValue::Null;
        items.set_and_swap(i, &mut tool);
        let ghost t = tool;
        assert(t == all[i as int]);
        match tool {
            JsonValue::Object(mut fields) => {
                match field_index(&fields, "function") {
                    Some(fi) => {
                        let (_, func) = fields.remove(fi);
                        assert(json_get(t, "function"@) == Some(func));
                        match definition_for_function(func) {
                            Some(d) => {
                                defs.push(d);
                                proof {
                                    let funcs_after = tool_functions(all.take(i + 1))->0;
                                    assert(funcs_after == funcs_before.push(func));
                                    assert forall|k: int|
                                        #![trigger defs@[k]]
                                        0 <= k < funcs_after.len() implies is_definition_for(
                                        defs@[k],
                                        funcs_after[k],
                                    ) by {
                                        if k < funcs_before.len() {
                                            assert(funcs_after[k] == funcs_before[k]);
                                        }
                                    }
                                }
                            },
                            None => {
                                proof {
                                    assert(tool_functions(all.take(i + 1)) is None);
                                    lemma_tool_functions_prefix_none(all, i + 1);
                                }
                                return None;
                            },
                        }
                    },
                    None => {},
                }
            },
            _ => {},
        }
        i = i + 1;
    }
    assert(all.take(n as int) =~= all);
    if defs.len() == 0 {
        None
    } else {
        Some(defs)
    }
}

/// `r` is the Chat Completions tool choice for the Responses API tool choice
/// `choice`: none for `"none"`, the same choice otherwise.
pub open spec fn tool_choice_for(r: Option<String>, choice: Seq<char>) -> bool {
    if choice == "none"@ {
        r is None
    } else {
        r matches Some(c) && c@ == choice
    }
}

/// Converts a Responses API tool choice: `"auto"` and `"required"` and any
/// other value are kept, `"none"` becomes no tool choice.
pub fn chat_tool_choice(choice: &str) -> (r: Option<String>)
    ensures
        tool_choice_for(r, choice@),
{
    if str_eq(choice, "none") {
        None
    } else {
        Some(String::from_str(choice))
    }
}

/// `r` is the Chat Completions request for `request`.
pub open spec fn chat_request_for(r: ChatCompletionsRequest, request: ResponsesApiRequest) -> bool {
    &&& r.model == request.model
    &&& messages_for(r.messages@, request.input@, request.instructions@)
    &&& tools_for_request(r.tools, request.tools)
    &&& tool_choice_for(r.tool_choice, request.tool_choice@)
    &&& r.parallel_tool_calls == request.parallel_tool_calls
    &&& r.stream
    &&& r.stream_options == Some(ChatStreamOptions { include_usage: true })
    &&& r.max_tokens is None
    &&& r.service_tier == request.service_tier
}

/// Converts a Responses API request to Chat Completions format.
pub fn responses_to_chat_request(request: &ResponsesApiRequest) -> (r: ChatCompletionsRequest)
    ensures
        chat_request_for(r, *request),
{
    let messages = responses_input_to_messages(&request.input, request.instructions.as_str());
    let tools = match &request.tools {
        Some(raw) => match parse_json(raw.as_str()) {
            Some(v) => chat_tools_from_json(v),
            None => None,
        },
        None => None,
    };
    let tool_choice = chat_tool_choice(request.tool_choice.as_str());
    let service_tier = match &request.service_tier {
        Some(t) => Some(t.clone()),
        None => None,
    };
    ChatCompletionsRequest {
        model: request.model.clone(),
        messages,
        tools,
        tool_choice,
        parallel_tool_calls: request.parallel_tool_calls,
        stream: true,
        stream_options: Some(ChatStreamOptions { include_usage: true }),
        max_tokens: None,
        service_tier,
    }
}


/// A function call and a function call output with the same call id become an
/// assistant tool call and a tool message that carry that id.
pub proof fn lemma_call_and_output_share_id(
    msgs: Seq<ChatMessage>,
    input: Seq<ResponseItem>,
    instructions: Seq<char>,
    i: int,
    j: int,
)
    requires
        messages_for(msgs, input, instructions),
        0 <= i < translated_items(input).len(),
        0 <= j < translated_items(input).len(),
        translated_items(input)[i] is FunctionCall,
        translated_items(input)[j] is FunctionCallOutput,
        translated_items(input)[i]->FunctionCall_call_id == translated_items(input)[j]->FunctionCallOutput_call_id,
    ensures
        msgs[system_count(instructions) + i].tool_calls matches Some(calls) && msgs[system_count(instructions)
            + j].tool_call_id == Some(calls@[0].id),
{
    let items = translated_items(input);
    assert(is_message_for(msgs[system_count(instructions) + i], items[i]));
    assert(is_message_for(msgs[system_count(instructions) + j], items[j]));
}

/// Only messages, function calls and function call outputs are translated,
/// and every one of them is, in order: the translated items are the input
/// without its other items.
pub proof fn lemma_translated_items_members(input: Seq<ResponseItem>, x: ResponseItem)
    ensures
        translated_items(input).contains(x) <==> (input.contains(x) && is_translated(x)),
        translated_items(input).len() <= input.len(),
{
    broadcast use vstd::seq_lib::group_filter_ensures;

    let t = translated_items(input);
    if t.contains(x) {
        input.lemma_filter_contains_rev(translated_pred(), x);
        let k = choose|k: int| 0 <= k < t.len() && t[k] == x;
        assert(translated_pred()(t[k]));
    }
    if input.contains(x) && is_translated(x) {
        let k = choose|k: int| 0 <= k < input.len() && input[k] == x;
        assert(t.contains(input[k]));
    }
}

/// The translated items of a concatenation are the concatenation of the
/// translated items.
pub proof fn lemma_translated_items_concat(a: Seq<ResponseItem>, b: Seq<ResponseItem>)
    ensures
        translated_items(a + b) == translated_items(a) + translated_items(b),
{
    Seq::filter_distributes_over_add(a, b, translated_pred());
}

/// Converting a concatenation without instructions gives the concatenation of
/// the messages: messages for `a` followed by messages for `b` are the
/// messages for `a + b`.
pub proof fn lemma_messages_concat(
    m1: Seq<ChatMessage>,
    m2: Seq<ChatMessage>,
    a: Seq<ResponseItem>,
    b: Seq<ResponseItem>,
)
    requires
        messages_for(m1, a, Seq::empty()),
        messages_for(m2, b, Seq::empty()),
    ensures
        messages_for(m1 + m2, a + b, Seq::empty()),
{
    lemma_translated_items_concat(a, b);
    let ta = translated_items(a);
    let tb = translated_items(b);
    let t = translated_items(a + b);
    assert forall|j: int| #![trigger t[j]] 0 <= j < t.len() implies is_message_for((m1 + m2)[0 + j], t[j]) by {
        if j < ta.len() {
            assert(t[j] == ta[j]);
            assert(is_message_for(m1[0 + j], ta[j]));
        } else {
            assert(t[j] == tb[j - ta.len()]);
            assert(is_message_for(m2[0 + (j - ta.len())], tb[j - ta.len()]));
        }
    }
}

/// An item other than a message, a call or a call output leaves no trace:
/// removing it from the input changes neither the translated items nor the
/// messages.
pub proof fn lemma_skipped_item_leaves_no_trace(
    a: Seq<ResponseItem>,
    x: ResponseItem,
    b: Seq<ResponseItem>,
    instructions: Seq<char>,
    m: Seq<ChatMessage>,
)
    requires
        !is_translated(x),
    ensures
        translated_items(a + seq![x] + b) == translated_items(a + b),
        messages_for(m, a + seq![x] + b, instructions) <==> messages_for(m, a + b, instructions),
{
    lemma_translated_items_concat(a + seq![x], b);
    lemma_translated_items_concat(a, seq![x]);
    lemma_translated_items_concat(a, b);
    Seq::<ResponseItem>::empty().lemma_filter_push(x, translated_pred());
    Seq::<ResponseItem>::empty().lemma_filter_len(translated_pred());
    assert(Seq::<ResponseItem>::empty().push(x) =~= seq![x]);
    assert(translated_items(a) + translated_items(seq![x]) =~= translated_items(a));
}

/// The translation reads only the model, instructions, input, tools, tool
/// choice, parallel tool calls and service tier of a request: two requests
/// that agree on these have the same translations.
pub proof fn lemma_request_reads_only_translated_fields(
    r: ChatCompletionsRequest,
    q1: ResponsesApiRequest,
    q2: ResponsesApiRequest,
)
    requires
        q1.model == q2.model,
        q1.instructions == q2.instructions,
        q1.input == q2.input,
        q1.tools == q2.tools,
        q1.tool_choice == q2.tool_choice,
        q1.parallel_tool_calls == q2.parallel_tool_calls,
        q1.service_tier == q2.service_tier,
    ensures
        chat_request_for(r, q1) == chat_request_for(r, q2),
{
}

/// Every function of the tool list becomes, at its place, a definition that
/// keeps its name and its description text unchanged (an empty description
/// where it has none), and its parameters where it declares them.
pub proof fn lemma_definitions_keep_function_text(
    r: Option<Vec<ChatToolDefinition>>,
    v: JsonValue,
    funcs: Seq<JsonValue>,
    k: int,
)
    requires
        tools_for(r, v),
        v matches JsonValue::Array(items) && tool_functions(items@) == Some(funcs),
        0 <= k < funcs.len(),
    ensures
        r is Some,
        r->0@.len() == funcs.len(),
        json_get(funcs[k], "name"@) matches Some(JsonValue::Str(n)) && r->0@[k].function.name@ == n@,
        forall|s: String|
            json_get(funcs[k], "description"@) == Some(JsonValue::Str(s)) ==> #[trigger] r->0@[k].function.description@
                == s@,
        !(json_get(funcs[k], "description"@) matches Some(JsonValue::Str(_))) ==> r->0@[k].function.description@.len()
            == 0,
        forall|p: JsonValue| json_get(funcs[k], "parameters"@) == Some(p) ==> r->0@[k].function.parameters == p,
{
    let defs = r->0;
    assert(is_definition_for(defs@[k], funcs[k]));
}

} // verus!
