use rift_chat::chat_completions::{
    chat_tool_choice, chat_tools_from_json, responses_input_to_messages, responses_to_chat_request,
    stream_request_headers, ChatCompletionsRequest,
};
use rift_chat::json::JsonValue;
use rift_chat::protocol::{ContentItem, ResponseItem, ResponsesApiRequest};

fn request(instructions: &str, input: Vec<ResponseItem>, tools: Option<&str>, tool_choice: &str) -> ResponsesApiRequest {
    ResponsesApiRequest {
        model: "gpt-4".to_string(),
        instructions: instructions.to_string(),
        input,
        tools: tools.map(|t| t.to_string()),
        tool_choice: tool_choice.to_string(),
        parallel_tool_calls: true,
        reasoning: None,
        store: false,
        stream: true,
        stream_options: None,
        included: vec![],
        service_tier: None,
        prompt_cache_key: None,
        text: None,
        client_metadata: None,
        access_programs: None,
    }
}

fn user_message(text: &str) -> ResponseItem {
    ResponseItem::Message {
        id: Some("msg-1".to_string()),
        role: "user".to_string(),
        content: vec![ContentItem::OutputText { text: text.to_string() }],
        phase: None,
        internal_chat_message_metadata_passthrough: None,
    }
}

#[test]
fn test_responses_to_chat_request_basic() {
    let request = ResponsesApiRequest {
        model: "gpt-4".to_string(),
        instructions: "You are a helpful assistant.".to_string(),
        input: vec![ResponseItem::Message {
            id: Some("msg-1".to_string()),
            role: "user".to_string(),
            content: vec![ContentItem::OutputText { text: "Hello!".to_string() }],
            phase: None,
            internal_chat_message_metadata_passthrough: None,
        }],
        tools: None,
        tool_choice: "auto".to_string(),
        parallel_tool_calls: true,
        reasoning: None,
        store: false,
        stream: true,
        stream_options: None,
        included: vec![],
        service_tier: None,
        prompt_cache_key: None,
        text: None,
        client_metadata: None,
        access_programs: None,
    };

    let chat_request = responses_to_chat_request(&request);

    assert_eq!(chat_request.model, "gpt-4");
    assert!(chat_request.stream);
    assert_eq!(chat_request.messages.len(), 2);
    assert_eq!(chat_request.messages[0].role, "system");
    assert_eq!(chat_request.messages[0].content.as_deref(), Some("You are a helpful assistant."));
    assert_eq!(chat_request.messages[1].role, "user");
    assert_eq!(chat_request.messages[1].content.as_deref(), Some("Hello!"));
    assert!(chat_request.tools.is_none());
}

#[test]
fn test_responses_to_chat_request_with_function_call() {
    let request = ResponsesApiRequest {
        model: "gpt-4".to_string(),
        instructions: String::new(),
        input: vec![
            ResponseItem::Message {
                id: Some("msg-1".to_string()),
                role: "user".to_string(),
                content: vec![ContentItem::OutputText { text: "Run ls".to_string() }],
                phase: None,
                internal_chat_message_metadata_passthrough: None,
            },
            ResponseItem::FunctionCall {
                id: "fc-1".to_string(),
                call_id: "call-1".to_string(),
                name: "shell".to_string(),
                arguments: "{\"command\":\"ls\"}".to_string(),
            },
            ResponseItem::FunctionCallOutput {
                id: "fco-1".to_string(),
                call_id: "call-1".to_string(),
                output: "file1.txt\nfile2.txt".to_string(),
            },
        ],
        tools: None,
        tool_choice: "auto".to_string(),
        parallel_tool_calls: true,
        reasoning: None,
        store: false,
        stream: true,
        stream_options: None,
        included: vec![],
        service_tier: None,
        prompt_cache_key: None,
        text: None,
        client_metadata: None,
        access_programs: None,
    };

    let chat_request = responses_to_chat_request(&request);

    // No system message since instructions is empty
    assert_eq!(chat_request.messages.len(), 3);

    // User message
    assert_eq!(chat_request.messages[0].role, "user");
    assert_eq!(chat_request.messages[0].content.as_deref(), Some("Run ls"));

    // Assistant tool call
    assert_eq!(chat_request.messages[1].role, "assistant");
    assert!(chat_request.messages[1].content.is_none());
    let tool_calls = chat_request.messages[1].tool_calls.as_ref().unwrap();
    assert_eq!(tool_calls.len(), 1);
    assert_eq!(tool_calls[0].id, "call-1");
    assert_eq!(tool_calls[0].function.name, "shell");
    assert_eq!(tool_calls[0].function.arguments, "{\"command\":\"ls\"}");

    // Tool output
    assert_eq!(chat_request.messages[2].role, "tool");
    assert_eq!(chat_request.messages[2].content.as_deref(), Some("file1.txt\nfile2.txt"));
    assert_eq!(chat_request.messages[2].tool_call_id.as_deref(), Some("call-1"));
}

#[test]
fn test_tool_choice_conversion() {
    // "none" should become None (no tools passed)
    let request = ResponsesApiRequest {
        model: "gpt-4".to_string(),
        instructions: String::new(),
        input: vec![],
        tools: None,
        tool_choice: "none".to_string(),
        parallel_tool_calls: false,
        reasoning: None,
        store: false,
        stream: true,
        stream_options: None,
        included: vec![],
        service_tier: None,
        prompt_cache_key: None,
        text: None,
        client_metadata: None,
        access_programs: None,
    };

    let chat_request = responses_to_chat_request(&request);
    assert!(chat_request.tool_choice.is_none());

    // "required" should become Some("required")
    let mut request = request;
    request.tool_choice = "required".to_string();
    let chat_request = responses_to_chat_request(&request);
    assert_eq!(chat_request.tool_choice.as_deref(), Some("required"));
}

#[test]
fn fixed_fields_of_every_request() {
    let mut req = request("", vec![], None, "auto");
    req.parallel_tool_calls = false;
    req.service_tier = Some("flex".to_string());
    let chat: ChatCompletionsRequest = responses_to_chat_request(&req);
    assert!(chat.stream);
    assert_eq!(chat.stream_options.map(|o| o.include_usage), Some(true));
    assert_eq!(chat.max_tokens, None);
    assert!(!chat.parallel_tool_calls);
    assert_eq!(chat.service_tier.as_deref(), Some("flex"));
    assert!(chat.messages.is_empty());
    assert_eq!(chat.tool_choice.as_deref(), Some("auto"));
}

#[test]
fn other_tool_choices_are_kept() {
    assert_eq!(chat_tool_choice("auto").as_deref(), Some("auto"));
    assert_eq!(chat_tool_choice("required").as_deref(), Some("required"));
    assert_eq!(chat_tool_choice("shell").as_deref(), Some("shell"));
    assert_eq!(chat_tool_choice("none"), None);
    assert_eq!(chat_tool_choice("None").as_deref(), Some("None"));
}

#[test]
fn only_output_text_is_joined_and_other_items_are_skipped() {
    let input = vec![
        ResponseItem::Message {
            id: None,
            role: "assistant".to_string(),
            content: vec![
                ContentItem::OutputText { text: "Hel".to_string() },
                ContentItem::InputText { text: "ignored".to_string() },
                ContentItem::InputImage { image_url: "http://x".to_string() },
                ContentItem::OutputText { text: "lo".to_string() },
            ],
            phase: None,
            internal_chat_message_metadata_passthrough: None,
        },
        ResponseItem::Other,
        ResponseItem::Message {
            id: None,
            role: "user".to_string(),
            content: vec![ContentItem::InputText { text: "typed".to_string() }],
            phase: None,
            internal_chat_message_metadata_passthrough: None,
        },
    ];
    let messages = responses_input_to_messages(&input, "be brief");
    assert_eq!(messages.len(), 3);
    assert_eq!(messages[0].role, "system");
    assert_eq!(messages[0].content.as_deref(), Some("be brief"));
    assert_eq!(messages[1].role, "assistant");
    assert_eq!(messages[1].content.as_deref(), Some("Hello"));
    assert_eq!(messages[2].role, "user");
    assert_eq!(messages[2].content.as_deref(), Some(""));
    for m in &messages {
        assert!(m.name.is_none());
    }
}

#[test]
fn tools_are_translated_in_order_with_defaults() {
    let tools = r#"[
        {"type": "function", "function": {"name": "shell", "description": "Run a command",
            "parameters": {"type": "object", "properties": {"command": {"type": "string"}}, "required": ["command"]}}},
        {"type": "web_search"},
        {"type": "function", "function": {"name": "noop"}}
    ]"#;
    let req = request("", vec![user_message("hi")], Some(tools), "auto");
    let chat = responses_to_chat_request(&req);
    let defs = chat.tools.expect("tools");
    assert_eq!(defs.len(), 2);
    assert_eq!(defs[0].tool_type, "function");
    assert_eq!(defs[0].function.name, "shell");
    assert_eq!(defs[0].function.description, "Run a command");
    match &defs[0].function.parameters {
        JsonValue::Object(fields) => {
            let keys: Vec<&str> = fields.iter().map(|(k, _)| k.as_str()).collect();
            assert_eq!(keys, vec!["properties", "required", "type"]);
        }
        other => panic!("unexpected parameters {:?}", other),
    }
    assert_eq!(defs[1].function.name, "noop");
    assert_eq!(defs[1].function.description, "");
    match &defs[1].function.parameters {
        JsonValue::Object(fields) => {
            assert_eq!(fields.len(), 2);
            assert_eq!(fields[0].0, "type");
            assert!(matches!(&fields[0].1, JsonValue::Str(s) if s == "object"));
            assert_eq!(fields[1].0, "properties");
            assert!(matches!(&fields[1].1, JsonValue::Object(e) if e.is_empty()));
        }
        other => panic!("unexpected parameters {:?}", other),
    }
}

#[test]
fn tools_are_dropped_when_unusable() {
    // A function without a name drops the whole list.
    let tools = r#"[{"function": {"name": "ok"}}, {"function": {"description": "no name"}}]"#;
    assert!(responses_to_chat_request(&request("", vec![], Some(tools), "auto")).tools.is_none());
    // A name that is not a string drops it too.
    let tools = r#"[{"function": {"name": 7}}]"#;
    assert!(responses_to_chat_request(&request("", vec![], Some(tools), "auto")).tools.is_none());
    // Invalid JSON.
    assert!(responses_to_chat_request(&request("", vec![], Some("[{"), "auto")).tools.is_none());
    // Not an array.
    assert!(responses_to_chat_request(&request("", vec![], Some(r#"{"function": {"name": "x"}}"#), "auto"))
        .tools
        .is_none());
    // No function tools at all.
    assert!(responses_to_chat_request(&request("", vec![], Some(r#"[{"type": "web_search"}, 3]"#), "auto"))
        .tools
        .is_none());
    assert!(responses_to_chat_request(&request("", vec![], Some("[]"), "auto")).tools.is_none());
}

#[test]
fn null_parameters_are_kept_and_numbers_keep_their_text() {
    let tools = r#"[{"function": {"name": "a", "description": 5, "parameters": null}},
                   {"function": {"name": "b", "parameters": {"max": 1.5e3, "n": -12}}}]"#;
    let chat = responses_to_chat_request(&request("", vec![], Some(tools), "auto"));
    let defs = chat.tools.expect("tools");
    assert_eq!(defs[0].function.description, "");
    assert!(matches!(defs[0].function.parameters, JsonValue::Null));
    match &defs[1].function.parameters {
        JsonValue::Object(fields) => {
            assert_eq!(fields[0].0, "max");
            assert!(matches!(&fields[0].1, JsonValue::Number(n) if n == "1500.0"));
            assert!(matches!(&fields[1].1, JsonValue::Number(n) if n == "-12"));
        }
        other => panic!("unexpected parameters {:?}", other),
    }
}

#[test]
fn tools_from_parsed_json() {
    let v = JsonValue::Array(vec![JsonValue::Object(vec![(
        "function".to_string(),
        JsonValue::Object(vec![
            ("name".to_string(), JsonValue::Str("f".to_string())),
            ("description".to_string(), JsonValue::Str("d".to_string())),
            ("parameters".to_string(), JsonValue::Bool(true)),
        ]),
    )])]);
    let defs = chat_tools_from_json(v).expect("tools");
    assert_eq!(defs.len(), 1);
    assert_eq!(defs[0].function.name, "f");
    assert_eq!(defs[0].function.description, "d");
    assert!(matches!(defs[0].function.parameters, JsonValue::Bool(true)));
    assert!(chat_tools_from_json(JsonValue::Str("x".to_string())).is_none());
}

#[test]
fn call_and_output_share_the_call_id() {
    let input = vec![
        ResponseItem::FunctionCall {
            id: "fc-9".to_string(),
            call_id: "call-9".to_string(),
            name: "shell".to_string(),
            arguments: "{}".to_string(),
        },
        ResponseItem::FunctionCallOutput { id: "fco-9".to_string(), call_id: "call-9".to_string(), output: "ok".to_string() },
    ];
    let messages = responses_input_to_messages(&input, "");
    let calls = messages[0].tool_calls.as_ref().unwrap();
    assert_eq!(calls[0].call_type, "function");
    assert_eq!(Some(calls[0].id.as_str()), messages[1].tool_call_id.as_deref());
    assert!(messages[1].tool_calls.is_none());
}

#[test]
fn stream_request_headers_in_order() {
    let h = stream_request_headers(
        &Some("session-1".to_string()),
        &Some("thread-1".to_string()),
        &Some("review".to_string()),
    );
    let pairs: Vec<(&str, &str)> = h.iter().map(|(a, b)| (a.as_str(), b.as_str())).collect();
    assert_eq!(
        pairs,
        vec![
            ("x-client-request-id", "thread-1"),
            ("session_id", "session-1"),
            ("thread_id", "thread-1"),
            ("x-openai-subagent", "review"),
            ("accept", "text/event-stream"),
        ]
    );
    let h = stream_request_headers(&Some("session-2".to_string()), &None, &None);
    let pairs: Vec<(&str, &str)> = h.iter().map(|(a, b)| (a.as_str(), b.as_str())).collect();
    assert_eq!(pairs, vec![("session_id", "session-2"), ("accept", "text/event-stream")]);
    let h = stream_request_headers(&None, &None, &None);
    assert_eq!(h.len(), 1);
    assert_eq!(h[0].0, "accept");
}
