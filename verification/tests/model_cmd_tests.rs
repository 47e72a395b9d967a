use rift_chat::model_cmd::{
    active_model_lines, list_output_lines, listed_models, model_set_line, parse_effort, search_models,
    search_output_lines, sort_by_display_name, truncate_description, ListModelsArgs, ModelPreset, ReasoningEffort,
};
use rift_chat::text::{contains_str, pad_right, str_lt, u64_to_decimal};

fn preset(model: &str, name: &str, desc: &str, shown: bool, default: bool) -> ModelPreset {
    ModelPreset {
        id: model.to_string(),
        model: model.to_string(),
        provider: (if model.starts_with("mistral") { "mistral" } else { "openai" }).to_string(),
        display_name: name.to_string(),
        description: desc.to_string(),
        default_reasoning_effort: ReasoningEffort::Medium,
        is_default: default,
        show_in_picker: shown,
    }
}

fn catalog() -> Vec<ModelPreset> {
    vec![
        preset("gpt-5", "GPT-5", "Flagship model for coding and agentic tasks", true, true),
        preset("o3", "o3", "Reasoning model", true, false),
        preset("gpt-4o-mini", "GPT-4o mini", "Small fast model", false, false),
        preset("mistral-large", "Mistral Large", "Open weights model", true, false),
    ]
}

#[test]
fn list_selects_picker_models_and_provider() {
    let presets = catalog();
    let args = ListModelsArgs { provider: None, json: false, all: false };
    let shown: Vec<String> = listed_models(&presets, &args).into_iter().map(|p| p.model).collect();
    assert_eq!(shown, vec!["gpt-5", "o3", "mistral-large"]);

    let args = ListModelsArgs { provider: Some("openai".to_string()), json: false, all: true };
    let shown: Vec<String> = listed_models(&presets, &args).into_iter().map(|p| p.model).collect();
    assert_eq!(shown, vec!["gpt-5", "o3", "gpt-4o-mini"]);

    let args = ListModelsArgs { provider: Some("openai".to_string()), json: false, all: false };
    let shown: Vec<String> = listed_models(&presets, &args).into_iter().map(|p| p.model).collect();
    assert_eq!(shown, vec!["gpt-5", "o3"]);

    // The provider id is matched whole: a prefix of a slug selects nothing.
    let args = ListModelsArgs { provider: Some("gpt".to_string()), json: false, all: true };
    assert!(listed_models(&presets, &args).is_empty());
}

#[test]
fn sorting_is_by_display_name_and_stable() {
    let v = vec![
        preset("b1", "B", "", true, false),
        preset("a", "A", "", true, false),
        preset("b2", "B", "", true, false),
        preset("lower", "a", "", true, false),
    ];
    let sorted: Vec<String> = sort_by_display_name(v).into_iter().map(|p| p.model).collect();
    assert_eq!(sorted, vec!["a", "b1", "b2", "lower"]);
    assert!(str_lt("B", "a"));
    assert!(str_lt("ab", "abc"));
    assert!(!str_lt("abc", "abc"));
}

#[test]
fn list_lines_are_the_table() {
    let presets = catalog();
    let args = ListModelsArgs { provider: None, json: false, all: false };
    let lines = list_output_lines(listed_models(&presets, &args), &Some("o3".to_string()));
    let expected = vec![
        "Current model: o3".to_string(),
        String::new(),
        format!("{:<30} {:<25} {:<15}", "Slug", "Display Name", "Reasoning"),
        "-".repeat(70),
        format!("{:<30} {:<25} {:<15} *", "gpt-5", "GPT-5", "medium"),
        format!("{:<30} {:<25} {:<15}", "mistral-large", "Mistral Large", "medium"),
        format!("{:<30} {:<25} {:<15}", "o3", "o3", "medium"),
        String::new(),
        "3 models available. (* = provider default)".to_string(),
    ];
    assert_eq!(lines, expected);

    let none = list_output_lines(vec![], &None);
    assert_eq!(none, vec!["No models available.".to_string()]);
    let lines = list_output_lines(vec![preset("x", "X", "", true, false)], &None);
    assert_eq!(lines[0], "Current model: (provider default)");
}

#[test]
fn search_is_case_insensitive_and_keeps_order() {
    let presets = catalog();
    let found: Vec<String> = search_models(&presets, "MODEL").into_iter().map(|p| p.model).collect();
    assert_eq!(found, vec!["gpt-5", "o3", "gpt-4o-mini", "mistral-large"]);
    let found: Vec<String> = search_models(&presets, "LARGE").into_iter().map(|p| p.model).collect();
    assert_eq!(found, vec!["mistral-large"]);
    assert!(search_models(&presets, "zzz").is_empty());
    let found: Vec<String> = search_models(&presets, "Ö").into_iter().map(|p| p.model).collect();
    assert!(found.is_empty());
}

#[test]
fn search_lines_truncate_long_descriptions() {
    let presets = catalog();
    let matches = search_models(&presets, "gpt-5");
    let lines = search_output_lines(&matches, "gpt-5");
    assert_eq!(lines.len(), 5);
    assert_eq!(lines[0], format!("{:<30} {:<25} {}", "Slug", "Display Name", "Description"));
    assert_eq!(lines[1], "-".repeat(100));
    assert_eq!(lines[2], format!("{:<30} {:<25} {}", "gpt-5", "GPT-5", "Flagship model for coding and agentic..."));
    assert_eq!(lines[3], "");
    assert_eq!(lines[4], "1 models found.");
    let lines = search_output_lines(&vec![], "Zed");
    assert_eq!(lines, vec!["No models matching `Zed`.".to_string()]);
}

#[test]
fn descriptions_up_to_forty_characters_are_whole() {
    let forty = "a".repeat(40);
    assert_eq!(truncate_description(&forty), forty);
    let long = "é".repeat(41);
    assert_eq!(truncate_description(&long), format!("{}...", "é".repeat(37)));
    assert_eq!(truncate_description(""), "");
}

#[test]
fn effort_parsing() {
    assert_eq!(parse_effort(&None), Ok(None));
    assert_eq!(parse_effort(&Some("low".to_string())), Ok(Some(ReasoningEffort::Low)));
    assert_eq!(parse_effort(&Some("medium".to_string())), Ok(Some(ReasoningEffort::Medium)));
    assert_eq!(parse_effort(&Some("high".to_string())), Ok(Some(ReasoningEffort::High)));
    assert_eq!(
        parse_effort(&Some("HIGH".to_string())),
        Err("Unknown reasoning effort `HIGH`. Use `low`, `medium`, or `high`.".to_string())
    );
}

#[test]
fn use_report_lines() {
    assert_eq!(model_set_line("o3"), "Default model set to `o3`.");
    assert_eq!(
        active_model_lines(&Some("o3".to_string()), "OpenAI", "openai"),
        vec!["Active model: o3".to_string(), "Provider: OpenAI (openai)".to_string()]
    );
    assert_eq!(active_model_lines(&None, "X", "x")[0], "Active model: (provider default)");
}

#[test]
fn text_helpers() {
    assert_eq!(pad_right("ab", 5), "ab   ");
    assert_eq!(pad_right("abcdef", 3), "abcdef");
    assert_eq!(pad_right("é", 3), format!("{:<3}", "é"));
    assert_eq!(u64_to_decimal(0), "0");
    assert_eq!(u64_to_decimal(1234567890), "1234567890");
    assert_eq!(u64_to_decimal(u64::MAX), u64::MAX.to_string());
    assert!(contains_str("hello", ""));
    assert!(contains_str("hello", "llo"));
    assert!(!contains_str("hello", "hello!"));
}
