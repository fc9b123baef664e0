use hivegui::compare::{
    all_same, detached_window_title, detached_window_width, format_records_for_copy, format_records_for_json_copy,
    get_dimension_value, json_all_same, json_dimension_diff_paths, json_dimension_key, json_dimension_value,
    JsonSections, ParsedSections, SamplingTexts,
};
use hivegui::debugger::ExecutionRecord;
use hivegui::detached::{detached_window_plan, DetachedRecordView, RecordViewHost};
use hivegui::debugger::{History, ViewModalTab};
use hivegui::json::JsonValue;
use hivegui::message::{CallState, DebugMessage, MessageRole, ToolDefinition};

fn record(id: u64, model: &str, result: CallState) -> ExecutionRecord {
    ExecutionRecord {
        id,
        timestamp: 100 + id,
        model_name: model.to_string(),
        max_tokens: 2048,
        thinking_enabled: false,
        thinking_budget: 1024,
        messages: vec![
            DebugMessage { id: 1, role: MessageRole::System, content: "sys".to_string() },
            DebugMessage { id: 2, role: MessageRole::User, content: format!("q{id}") },
        ],
        tools: vec![],
        result,
    }
}

fn sampling(t: &str, p: &str) -> SamplingTexts {
    SamplingTexts { temperature: t.to_string(), top_p: p.to_string() }
}

#[test]
fn dimension_values_of_a_record() {
    let mut r = record(1, "alpha", CallState::Success("done".to_string()));
    let s = sampling("0.70", "1.00");
    assert_eq!(get_dimension_value(&r, &s, "模型"), "alpha");
    assert_eq!(get_dimension_value(&r, &s, "参数"), "T=0.70 Max=2048 TopP=1.00");
    assert_eq!(get_dimension_value(&r, &s, "消息"), "[System] sys\n[User] q1");
    assert_eq!(get_dimension_value(&r, &s, "工具"), "无工具");
    assert_eq!(get_dimension_value(&r, &s, "结果"), "done");
    assert_eq!(get_dimension_value(&r, &s, "其它"), "");
    r.tools.push(ToolDefinition {
        id: 1,
        name: "weather".to_string(),
        description: "查天气".to_string(),
        parameters_json: "{}".to_string(),
    });
    assert_eq!(get_dimension_value(&r, &s, "工具"), "weather: 查天气");
    r.result = CallState::Idle;
    assert_eq!(get_dimension_value(&r, &s, "结果"), "无结果");
    r.result = CallState::Error("boom".to_string());
    assert_eq!(get_dimension_value(&r, &s, "结果"), "boom");
}

#[test]
fn a_dimension_is_the_same_when_every_record_agrees() {
    let records = vec![
        record(1, "alpha", CallState::Success("a".to_string())),
        record(2, "alpha", CallState::Success("b".to_string())),
    ];
    let s = vec![sampling("0.70", "1.00"), sampling("0.70", "1.00")];
    assert!(all_same(&records, &s, "模型"));
    assert!(all_same(&records, &s, "参数"));
    assert!(!all_same(&records, &s, "结果"));
    assert!(!all_same(&records, &s, "消息"));
    assert!(all_same(&records[..1], &s[..1], "结果"));
    let s2 = vec![sampling("0.70", "1.00"), sampling("0.20", "1.00")];
    assert!(!all_same(&records, &s2, "参数"));
}

#[test]
fn copying_one_record() {
    let records = vec![record(1, "alpha", CallState::Success("done".to_string()))];
    let text = format_records_for_copy(&records, &[sampling("0.70", "1.00")]);
    assert_eq!(
        text,
        "模型: alpha\n参数: T=0.70 Max=2048 TopP=1.00\n消息:\n[System] sys\n[User] q1\n工具:\n无工具\n结果:\ndone\n"
    );
    assert_eq!(format_records_for_copy(&[], &[]), "");
}

#[test]
fn copying_a_comparison() {
    let mut second = record(2, "qwen", CallState::Error("x".to_string()));
    second.tools.push(ToolDefinition {
        id: 1,
        name: "t".to_string(),
        description: "d".to_string(),
        parameters_json: "{}".to_string(),
    });
    let records = vec![record(1, "alpha", CallState::Success("ok".to_string())), second];
    let text = format_records_for_copy(&records, &[sampling("0.70", "1.00"), sampling("0.10", "0.90")]);
    let rule = "─".repeat(40);
    let expected = format!(
        "对比 (2 条记录)\n{rule}\n\n[1] alpha\n参数: T=0.70 Max=2048 TopP=1.00\n消息:\n[System] sys\n[User] q1\n工具:\n无工具\n结果:\nok\n{rule}\n\n[2] qwen\n参数: T=0.10 Max=2048 TopP=0.90\n消息:\n[System] sys\n[User] q2\n工具:\n- t: d\n结果:\nx\n{rule}\n"
    );
    assert_eq!(text, expected);
}

fn sections(i: &str, o: &str, m: &str) -> JsonSections {
    JsonSections { input: i.to_string(), output: o.to_string(), metadata: m.to_string() }
}

#[test]
fn json_dimensions() {
    assert_eq!(json_dimension_key("模型"), "MODEL");
    assert_eq!(json_dimension_key("输入"), "INPUT");
    assert_eq!(json_dimension_key("输出"), "OUTPUT");
    assert_eq!(json_dimension_key("Metadata"), "METADATA");
    let records = vec![record(1, "alpha", CallState::Idle), record(2, "alpha", CallState::Idle)];
    let secs = vec![sections("{}", "{\"text\":\"a\"}", "m"), sections("{}", "{\"text\":\"b\"}", "m")];
    assert_eq!(json_dimension_value(&records[0], &secs[0], "输出"), "{\"text\":\"a\"}");
    assert_eq!(json_dimension_value(&records[0], &secs[0], "模型"), "alpha");
    assert_eq!(json_dimension_value(&records[0], &secs[0], "x"), "");
    assert!(json_all_same(&records, &secs, "输入"));
    assert!(json_all_same(&records, &secs, "模型"));
    assert!(!json_all_same(&records, &secs, "输出"));
    assert!(json_all_same(&records, &secs[..1], "输出"));
}

#[test]
fn json_dimension_differences_compare_parsed_sections() {
    let records = vec![record(1, "alpha", CallState::Idle), record(2, "qwen", CallState::Idle)];
    let parsed = vec![
        ParsedSections {
            input: Some(JsonValue::Object(vec![("a".to_string(), JsonValue::Number("1".to_string()))])),
            output: None,
            metadata: None,
        },
        ParsedSections {
            input: Some(JsonValue::Object(vec![("a".to_string(), JsonValue::Number("2".to_string()))])),
            output: None,
            metadata: Some(JsonValue::Null),
        },
    ];
    assert_eq!(json_dimension_diff_paths(&records, &parsed, "输入"), vec!["/a".to_string()]);
    assert_eq!(json_dimension_diff_paths(&records, &parsed, "模型"), vec!["".to_string()]);
    assert!(json_dimension_diff_paths(&records, &parsed, "输出").is_empty());
    assert!(json_dimension_diff_paths(&records, &parsed, "Metadata").is_empty());
}

#[test]
fn copying_the_json_tab() {
    let one = vec![record(1, "alpha", CallState::Idle)];
    assert_eq!(
        format_records_for_json_copy(&one, &[sections("I", "O", "M")]),
        "输入:\nI\n\n输出:\nO\n\nMetadata:\nM\n"
    );
    let two = vec![record(1, "alpha", CallState::Idle), record(2, "c", CallState::Idle)];
    let rule = "─".repeat(40);
    assert_eq!(
        format_records_for_json_copy(&two, &[sections("I", "O", "M"), sections("i", "o", "m")]),
        format!("[1] alpha\n输入:\nI\n\n输出:\nO\n\nMetadata:\nM\n\n{rule}\n[2] c\n输入:\ni\n\n输出:\no\n\nMetadata:\nm\n")
    );
}

#[test]
fn detached_windows_are_sized_and_titled_by_their_records() {
    assert_eq!(detached_window_width(1), 900);
    assert_eq!(detached_window_width(2), 732);
    assert_eq!(detached_window_width(4), 1332);
    assert_eq!(detached_window_width(5), 1600);
    assert_eq!(detached_window_width(30), 1600);
    assert_eq!(detached_window_title(1), "查看执行记录");
    assert_eq!(detached_window_title(3), "对比 (3 条记录)");
    assert!(detached_window_plan(&[]).is_none());
    let plan = detached_window_plan(&[record(3, "m", CallState::Idle), record(1, "m", CallState::Idle)])
        .expect("a plan for two records");
    assert_eq!(plan.key, "cmp:1,3");
    assert_eq!(plan.width, 732);
    assert_eq!(plan.title, "对比 (2 条记录)");
}

#[test]
fn a_detached_view_unregisters_its_window() {
    let mut history = History::new();
    history.register_detached_window("rec:1".to_string());
    history.register_detached_window("cmp:1,2".to_string());
    let mut view = DetachedRecordView::new(vec![], ViewModalTab::Formatted, false, "rec:1".to_string());
    view.toggle_only_diff();
    assert!(view.show_only_diff);
    view.set_tab(ViewModalTab::Json);
    assert_eq!(view.tab, ViewModalTab::Json);
    view.unregister(&mut history);
    assert!(!history.has_detached_window("rec:1"));
    assert!(history.has_detached_window("cmp:1,2"));
    assert_eq!(RecordViewHost::Modal.selector_prefix(), "PROMPT_HISTORY_VIEW");
    assert_eq!(RecordViewHost::Window.tab_selector_prefix(), "PROMPT_DETACHED");
}

#[test]
fn a_group_keeps_one_detached_window() {
    let mut history = History::new();
    let first = detached_window_plan(&[record(2, "m", CallState::Idle), record(1, "m", CallState::Idle)])
        .expect("a plan for two records");
    let again = detached_window_plan(&[record(1, "m", CallState::Idle), record(2, "m", CallState::Idle)])
        .expect("a plan for the same records");
    history.register_detached_window(first.key);
    history.register_detached_window(again.key);
    history.register_detached_window("rec:9".to_string());
    assert_eq!(history.detached_windows, vec!["cmp:1,2".to_string(), "rec:9".to_string()]);
}

#[test]
fn a_comparison_copy_repeats_each_single_copy() {
    let records = vec![
        record(1, "alpha", CallState::Success("a".to_string())),
        record(2, "beta", CallState::Error("e".to_string())),
        record(3, "gamma", CallState::Idle),
    ];
    let samplings = vec![sampling("0.70", "1.00"), sampling("0.10", "0.90"), sampling("1.00", "0.50")];
    let sep = "─".repeat(40);
    let mut expected = format!("对比 (3 条记录)\n{sep}\n");
    for (i, r) in records.iter().enumerate() {
        let single = format_records_for_copy(std::slice::from_ref(r), std::slice::from_ref(&samplings[i]));
        let tail = single.split_once('\n').unwrap().1;
        expected.push_str(&format!("\n[{}] {}\n{}{sep}\n", i + 1, r.model_name, tail));
    }
    assert_eq!(format_records_for_copy(&records, &samplings), expected);
}

#[test]
fn sections_are_parsed_one_by_one() {
    let parsed = hivegui::compare::parse_sections(&JsonSections {
        input: "{\"a\": 1}".to_string(),
        output: "oops".to_string(),
        metadata: "[true]".to_string(),
    });
    assert!(matches!(&parsed.input, Some(JsonValue::Object(ms)) if ms.len() == 1 && ms[0].0 == "a"));
    assert!(parsed.output.is_none());
    assert!(matches!(&parsed.metadata, Some(JsonValue::Array(xs)) if matches!(xs[..], [JsonValue::Bool(true)])));
}
