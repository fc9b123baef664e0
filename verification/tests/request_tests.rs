use hivegui::call::{chat_completions_url, completion_reply, reply_from_body, http_error_text, reply_text, request_failed_text, truncate_for_log};
use hivegui::json::JsonValue;
use hivegui::message::{DebugMessage, MessageRole, ToolDefinition};
use hivegui::debugger::ExecutionRecord;
use hivegui::message::CallState;
use hivegui::request::{record_json_values, record_json_values_from_parsed, request_body, request_body_from_schemas, SamplingNumbers};
use hivegui::search::{is_anthropic_provider, picker_preview, search_query};
use hivegui::text::{parse_i64, parse_u64};

/// A compact rendering of a JSON value, for comparing whole bodies.
fn render(v: &JsonValue) -> String {
    match v {
        JsonValue::Null => "null".to_string(),
        JsonValue::Bool(b) => b.to_string(),
        JsonValue::Number(t) => t.clone(),
        JsonValue::Str(s) => format!("{s:?}"),
        JsonValue::Array(xs) => format!("[{}]", xs.iter().map(render).collect::<Vec<_>>().join(",")),
        JsonValue::Object(ms) => format!(
            "{{{}}}",
            ms.iter().map(|(k, v)| format!("{k:?}:{}", render(v))).collect::<Vec<_>>().join(",")
        ),
    }
}

fn sampling() -> SamplingNumbers {
    SamplingNumbers {
        temperature: "0.7".to_string(),
        top_p: "1.0".to_string(),
        presence_penalty: "0.0".to_string(),
        frequency_penalty: "0.5".to_string(),
    }
}

fn messages() -> Vec<DebugMessage> {
    vec![
        DebugMessage { id: 1, role: MessageRole::System, content: "sys".to_string() },
        DebugMessage { id: 2, role: MessageRole::User, content: "hi".to_string() },
    ]
}

fn tools() -> Vec<ToolDefinition> {
    vec![
        ToolDefinition { id: 1, name: "weather".to_string(), description: "d".to_string(), parameters_json: "{}".to_string() },
        ToolDefinition { id: 2, name: "broken".to_string(), description: "x".to_string(), parameters_json: "{".to_string() },
    ]
}

#[test]
fn a_thinking_request_carries_the_budget_and_no_sampling() {
    let body = request_body("m1", &messages(), 2048, &[], None, true, 1024, &sampling());
    assert_eq!(
        render(&body),
        r#"{"max_tokens":2048,"messages":[{"content":"sys","role":"system"},{"content":"hi","role":"user"}],"model":"m1","thinking":{"budget_tokens":1024,"type":"enabled"}}"#
    );
}

#[test]
fn a_plain_request_carries_the_sampling_settings() {
    let body = request_body("m1", &messages()[1..], 100, &[], Some("OpenAI"), false, 1024, &sampling());
    assert_eq!(
        render(&body),
        r#"{"frequency_penalty":0.5,"max_tokens":100,"messages":[{"content":"hi","role":"user"}],"model":"m1","presence_penalty":0.0,"temperature":0.7,"thinking":{"type":"disabled"},"top_p":1.0}"#
    );
}

#[test]
fn tools_follow_the_provider_format_and_skip_unparsed_schemas() {
    let schema = || Some(JsonValue::Object(vec![("type".to_string(), JsonValue::Str("object".to_string()))]));
    let body = request_body_from_schemas("m", &[], 1, &tools(), vec![schema(), None], Some("OpenAI"), true, 8, &sampling());
    assert_eq!(
        render(&body),
        r#"{"max_tokens":1,"messages":[],"model":"m","thinking":{"budget_tokens":8,"type":"enabled"},"tools":[{"function":{"description":"d","name":"weather","parameters":{"type":"object"}},"type":"function"}]}"#
    );
    let body = request_body_from_schemas("m", &[], 1, &tools(), vec![schema(), None], Some("My Anthropic"), true, 8, &sampling());
    assert_eq!(
        render(&body),
        r#"{"max_tokens":1,"messages":[],"model":"m","thinking":{"budget_tokens":8,"type":"enabled"},"tools":[{"description":"d","input_schema":{"type":"object"},"name":"weather"}]}"#
    );
    let body = request_body_from_schemas("m", &[], 1, &tools(), vec![None, None], Some("anthropic"), true, 8, &sampling());
    assert_eq!(
        render(&body),
        r#"{"max_tokens":1,"messages":[],"model":"m","thinking":{"budget_tokens":8,"type":"enabled"}}"#
    );
}

#[test]
fn provider_names_are_matched_in_any_case() {
    assert!(is_anthropic_provider("ANTHROPIC"));
    assert!(is_anthropic_provider("Anthropic Sonnet"));
    assert!(!is_anthropic_provider("OpenAI"));
    assert_eq!(search_query("  HeLLo World "), "hello world");
    assert_eq!(search_query(" \t\n "), "");
}

#[test]
fn completion_urls() {
    assert_eq!(chat_completions_url("https://api.x.com"), "https://api.x.com/v1/chat/completions");
    assert_eq!(chat_completions_url("https://api.x.com/"), "https://api.x.com/v1/chat/completions");
    assert_eq!(chat_completions_url("https://api.x.com/v1"), "https://api.x.com/v1/chat/completions");
    assert_eq!(chat_completions_url("https://api.x.com/v1/"), "https://api.x.com/v1/chat/completions");
}

#[test]
fn replies_and_errors() {
    assert_eq!(reply_text("answer", ""), "answer");
    assert_eq!(reply_text("answer", "think"), "【思考过程】\nthink\n\n【最终回复】\nanswer");
    assert_eq!(http_error_text("401 Unauthorized", "no"), "HTTP 401 Unauthorized: no");
    assert_eq!(request_failed_text("timed out", "http://h"), "请求失败: timed out（http://h）");
}

#[test]
fn long_log_texts_are_cut_by_characters() {
    let short = "é".repeat(300);
    assert_eq!(truncate_for_log(&short), short);
    let long = "é".repeat(301);
    assert_eq!(truncate_for_log(&long), format!("{}…", "é".repeat(300)));
}

#[test]
fn picker_previews_fold_and_cut_at_eighty() {
    assert_eq!(picker_preview("a\n\n b"), "a b");
    assert_eq!(picker_preview(&"y".repeat(81)), format!("{}…", "y".repeat(80)));
}

#[test]
fn numbers_parse_as_std_does() {
    let chars = |s: &str| s.chars().collect::<Vec<char>>();
    assert_eq!(parse_u64(&chars("+42")), Some(42));
    assert_eq!(parse_u64(&chars("18446744073709551616")), None);
    assert_eq!(parse_i64(&chars("-9223372036854775808")), Some(i64::MIN));
    assert_eq!(parse_i64(&chars("9223372036854775808")), None);
    assert_eq!(parse_i64(&chars("-")), None);
    assert_eq!(parse_i64(&chars("-+1")), None);
    assert_eq!(parse_i64(&chars("+7")), Some(7));
    assert_eq!(parse_i64(&chars(" 7")), None);
}

fn obj(members: Vec<(&str, JsonValue)>) -> JsonValue {
    JsonValue::Object(members.into_iter().map(|(k, v)| (k.to_string(), v)).collect())
}

#[test]
fn completion_replies_read_the_first_choice() {
    let message = obj(vec![
        ("content", JsonValue::Str("hi".to_string())),
        ("reasoning_content", JsonValue::Str("r".to_string())),
    ]);
    let parsed = obj(vec![("choices", JsonValue::Array(vec![obj(vec![("message", message)])]))]);
    let body = "{\"choices\":[{\"message\":{\"content\":\"hi\",\"reasoning_content\":\"r\"}}]}";
    assert_eq!(completion_reply(body, Some(&parsed)), "【思考过程】\nr\n\n【最终回复】\nhi");

    let plain = obj(vec![(
        "choices",
        JsonValue::Array(vec![obj(vec![("message", obj(vec![("content", JsonValue::Str("ok".to_string()))]))])]),
    )]);
    assert_eq!(completion_reply("{}", Some(&plain)), "ok");
    assert_eq!(completion_reply("{}", Some(&obj(vec![("choices", JsonValue::Array(vec![]))]))), "");
    assert_eq!(completion_reply("not json", None), "not json");
}

#[test]
fn record_sections_hold_the_request_the_reply_and_the_settings() {
    let mut record = ExecutionRecord {
        id: 3,
        timestamp: 99,
        model_name: "m1".to_string(),
        max_tokens: 100,
        thinking_enabled: true,
        thinking_budget: 64,
        messages: messages()[1..].to_vec(),
        tools: tools(),
        result: CallState::Success("plain".to_string()),
    };
    let schemas = vec![Some(obj(vec![])), None];
    let (input, output, metadata) = record_json_values_from_parsed(&record, "0.7", "1.0", schemas, None);
    assert_eq!(
        render(&input),
        r#"{"max_tokens":100,"messages":[{"content":"hi","role":"user"}],"model":"m1","temperature":0.7,"thinking_budget":64,"tools":[{"function":{"description":"d","name":"weather","parameters":{}},"type":"function"},{"function":{"description":"x","name":"broken","parameters":null},"type":"function"}],"top_p":1.0}"#
    );
    assert_eq!(render(&output), r#"{"text":"plain"}"#);
    assert_eq!(
        render(&metadata),
        r#"{"max_tokens":100,"model":"m1","temperature":0.7,"thinking_budget":64,"thinking_enabled":true,"timestamp":99,"top_p":1.0}"#
    );
    let (_, parsed, _) = record_json_values_from_parsed(&record, "0.7", "1.0", vec![None, None], Some(JsonValue::Bool(true)));
    assert_eq!(render(&parsed), "true");
    record.result = CallState::Error("boom".to_string());
    record.thinking_enabled = false;
    record.tools = vec![];
    let (input, output, _) = record_json_values_from_parsed(&record, "0.7", "1.0", vec![], None);
    assert_eq!(
        render(&input),
        r#"{"max_tokens":100,"messages":[{"content":"hi","role":"user"}],"model":"m1","temperature":0.7,"top_p":1.0}"#
    );
    assert_eq!(render(&output), r#"{"error":{"message":"boom"}}"#);
    record.result = CallState::Idle;
    let (_, output, _) = record_json_values_from_parsed(&record, "0.7", "1.0", vec![], None);
    assert_eq!(render(&output), r#"{"text":""}"#);
}

#[test]
fn the_request_parses_the_tool_schemas_it_sends() {
    let mut ts = tools();
    ts[0].parameters_json = "{\"type\": \"object\", \"n\": 1.5}".to_string();
    let body = request_body("m", &[], 1, &ts, Some("OpenAI"), true, 8, &sampling());
    assert_eq!(
        render(&body),
        r#"{"max_tokens":1,"messages":[],"model":"m","thinking":{"budget_tokens":8,"type":"enabled"},"tools":[{"function":{"description":"d","name":"weather","parameters":{"n":1.5,"type":"object"}},"type":"function"}]}"#
    );
}

#[test]
fn replies_are_read_from_the_response_body() {
    let body = "{\"choices\":[{\"message\":{\"content\":\"hi\",\"reasoning_content\":\"r\"}}]}";
    assert_eq!(reply_from_body(body), "【思考过程】\nr\n\n【最终回复】\nhi");
    assert_eq!(reply_from_body("{\"choices\":[]}"), "");
    assert_eq!(reply_from_body("not json"), "not json");
}

#[test]
fn record_sections_parse_the_schemas_and_the_reply() {
    let record = ExecutionRecord {
        id: 1,
        timestamp: 5,
        model_name: "m".to_string(),
        max_tokens: 10,
        thinking_enabled: false,
        thinking_budget: 0,
        messages: vec![],
        tools: tools(),
        result: CallState::Success("{\"ok\": [1, 2]}".to_string()),
    };
    let (input, output, _) = record_json_values(&record, "0.5", "1");
    assert_eq!(
        render(&input),
        r#"{"max_tokens":10,"messages":[],"model":"m","temperature":0.5,"tools":[{"function":{"description":"d","name":"weather","parameters":{}},"type":"function"},{"function":{"description":"x","name":"broken","parameters":null},"type":"function"}],"top_p":1}"#
    );
    assert_eq!(render(&output), r#"{"ok":[1,2]}"#);
}
