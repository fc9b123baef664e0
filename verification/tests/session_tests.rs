use hivegui::catalog::{AppIdentity, DbFunction, LlmModel, LlmPreset, LlmProvider, PromptTemplate};
use hivegui::debugger::{ExecutionRecord, History, PromptDebugger, Session, ViewAction};
use hivegui::message::{CallState, DebugMessage, MessageRole};
use hivegui::panel::{
    compare_label, count_label, delete_label, history_record_summary, message_card_summary, page_info,
    relative_time_text, select_all_label,
};

fn record(id: u64) -> ExecutionRecord {
    ExecutionRecord {
        id,
        timestamp: id,
        model_name: "m".to_string(),
        max_tokens: 2048,
        thinking_enabled: false,
        thinking_budget: 1024,
        messages: vec![DebugMessage { id: 1, role: MessageRole::User, content: format!("prompt {id}") }],
        tools: vec![],
        result: CallState::Success("ok".to_string()),
    }
}

fn ids(session: &Session) -> Vec<u64> {
    session.messages.iter().map(|m| m.id).collect()
}

#[test]
fn a_new_session_has_the_default_conversation() {
    let session = Session::new();
    assert_eq!(ids(&session), vec![1, 2]);
    assert_eq!(session.messages[0].content, "你是一个专业的AI助手。");
    assert_eq!(session.messages[1].content, "你好");
    assert_eq!(session.max_tokens, 2048);
    assert!(session.thinking_enabled);
    assert_eq!(session.thinking_budget_tokens, 1024);
}

#[test]
fn moving_a_message_up_then_down_restores_the_order() {
    let mut session = Session::new();
    session.add_message(MessageRole::Assistant);
    assert_eq!(ids(&session), vec![1, 2, 3]);
    session.move_message_up(3);
    assert_eq!(ids(&session), vec![1, 3, 2]);
    session.move_message_down(3);
    assert_eq!(ids(&session), vec![1, 2, 3]);
    session.move_message_up(1);
    assert_eq!(ids(&session), vec![1, 2, 3]);
    session.move_message_down(3);
    assert_eq!(ids(&session), vec![1, 2, 3]);
    session.remove_message(3);
    assert_eq!(ids(&session), vec![1, 2]);
}

#[test]
fn a_function_becomes_a_tool_once() {
    let mut session = Session::new();
    session.reload_available_functions(
        AppIdentity::Hivegui,
        vec![DbFunction {
            id: 7,
            identifier: "w".to_string(),
            name: "天气".to_string(),
            description: None,
            kind: "custom".to_string(),
            input_schema: "{}".to_string(),
            output_schema: "{}".to_string(),
        }],
    );
    session.add_tool_from_function(7);
    session.add_tool_from_function(7);
    assert_eq!(session.tools.len(), 1);
    assert_eq!(session.tools[0].name, "天气");
    let id = session.tools[0].id;
    session.remove_tool(id);
    assert!(session.tools.is_empty());
    session.add_tool_from_function(7);
    assert_eq!(session.tools.len(), 1);
}

#[test]
fn the_history_keeps_the_last_fifty_records_newest_first() {
    let mut history = History::new();
    for i in 1..=55u64 {
        history.push_record(record(i));
    }
    assert_eq!(history.records.len(), 50);
    assert_eq!(history.records[0].id, 6);
    assert_eq!(history.total_pages(), 5);
    assert_eq!(history.page_record_ids(), (46..=55).rev().collect::<Vec<u64>>());
    history.next_page();
    assert_eq!(history.current_page(), 1);
    assert_eq!(history.page_record_ids(), (36..=45).rev().collect::<Vec<u64>>());
    history.prev_page();
    history.prev_page();
    assert_eq!(history.current_page(), 0);
    assert_eq!(History::new().total_pages(), 1);
}

#[test]
fn inverting_a_selection_twice_restores_it() {
    let mut history = History::new();
    history.load(vec![record(1), record(2), record(3)]);
    assert_eq!(history.next_record_id, 4);
    history.toggle_record_selection(2);
    history.invert_record_selection();
    let mut selected: Vec<u64> = history.selected.iter().copied().collect();
    selected.sort();
    assert_eq!(selected, vec![1, 3]);
    history.invert_record_selection();
    assert_eq!(history.selected.iter().copied().collect::<Vec<u64>>(), vec![2]);
    history.toggle_select_all();
    assert_eq!(history.selected.len(), 3);
    history.toggle_select_all();
    assert!(history.selected.is_empty());
}

#[test]
fn comparing_needs_two_selected_records() {
    let mut history = History::new();
    history.load(vec![record(1), record(2), record(3)]);
    history.toggle_record_selection(3);
    assert!(matches!(history.start_comparison(), ViewAction::Nothing));
    history.toggle_record_selection(1);
    assert!(matches!(history.start_comparison(), ViewAction::ShowModal));
    assert!(history.show_view_modal);
    assert_eq!(history.view_records.iter().map(|r| r.id).collect::<Vec<u64>>(), vec![1, 3]);
    let closed = history.delete_selected_records();
    assert!(closed.is_empty());
    assert_eq!(history.records.iter().map(|r| r.id).collect::<Vec<u64>>(), vec![2]);
}

#[test]
fn a_run_needs_a_preset_a_model_and_a_provider_url() {
    let mut debugger = PromptDebugger::new(AppIdentity::NgyPromptStudio);
    assert!(debugger.begin_execution().is_err());
    assert_eq!(debugger.form_error.as_deref(), Some("左侧「LLM 设定」未设置：请先选择 Preset"));
    debugger.reload_presets_and_models(
        vec![LlmPreset { id: 1, name: "p".to_string(), is_default: 1 }],
        vec![LlmModel { id: 11, name: "model-11".to_string(), preset_id: Some(1), provider_id: Some(5), priority: 0 }],
        vec![LlmProvider { id: 5, name: "prov".to_string(), base_url: String::new() }],
        Some(1),
        None,
    );
    assert!(debugger.begin_execution().is_err());
    assert_eq!(debugger.form_error.as_deref(), Some("左侧「LLM 设定」未设置：请选择当前 Preset 下的模型"));
    debugger.on_model_select(Some(11));
    assert!(debugger.form_error.is_none());
    assert!(debugger.begin_execution().is_err());
    assert!(debugger.form_error.is_none());
    assert!(matches!(&debugger.session.call_state, CallState::Error(e) if e == "所选模型未配置 Provider base_url"));
    debugger.providers[0].base_url = "http://h".to_string();
    let target = debugger.begin_execution().expect("the run starts");
    assert_eq!(target.model, 0);
    assert_eq!(target.provider, 0);
    assert!(matches!(debugger.session.call_state, CallState::Loading));
    let action = debugger.finish_execution(Ok("reply".to_string()), 10);
    assert!(matches!(action, ViewAction::ShowModal));
    assert_eq!(debugger.history.records.len(), 1);
    assert_eq!(debugger.history.records[0].model_name, "model-11");
    assert!(matches!(&debugger.history.records[0].result, CallState::Success(t) if t == "reply"));
    debugger.history.detached_record_view = true;
    let shown = debugger.history.show_view_modal;
    match debugger.finish_execution(Err("HTTP 500: x".to_string()), 11) {
        ViewAction::OpenDetached(records, _, only_diff, key) => {
            assert_eq!(records.len(), 1);
            assert_eq!(records[0].id, 2);
            assert!(!only_diff);
            assert_eq!(key, "rec:2");
        }
        _ => panic!("the record opens in a detached window"),
    }
    assert_eq!(debugger.history.records.len(), 2);
    assert_eq!(debugger.history.records[0].id, 1);
    assert_eq!(debugger.history.next_record_id, 3);
    assert_eq!(debugger.history.show_view_modal, shown);
    assert_eq!(debugger.history.detached_windows, vec!["rec:2".to_string()]);
}

#[test]
fn detached_comparisons_and_views_register_their_windows() {
    let mut history = History::new();
    history.load(vec![record(1), record(2), record(3)]);
    history.detached_comparison = true;
    history.toggle_record_selection(2);
    history.toggle_record_selection(1);
    match history.start_comparison() {
        ViewAction::OpenDetached(records, _, _, key) => {
            assert_eq!(records.iter().map(|r| r.id).collect::<Vec<u64>>(), vec![1, 2]);
            assert_eq!(key, "cmp:1,2");
        }
        _ => panic!("the comparison opens in a detached window"),
    }
    assert!(!history.show_view_modal);
    assert_eq!(history.detached_windows, vec!["cmp:1,2".to_string()]);
    match history.start_comparison() {
        ViewAction::ActivateDetached(key) => assert_eq!(key, "cmp:1,2"),
        _ => panic!("the open window comes to the front"),
    }
    assert_eq!(history.detached_windows.len(), 1);

    history.detached_record_view = true;
    assert!(matches!(history.open_view_record(3), ViewAction::OpenDetached(_, _, _, ref k) if k == "rec:3"));
    assert_eq!(history.detached_windows, vec!["cmp:1,2".to_string(), "rec:3".to_string()]);

    let mut modal = History::new();
    modal.load(vec![record(7), record(8)]);
    modal.toggle_record_selection(8);
    modal.toggle_record_selection(7);
    assert!(matches!(modal.start_comparison(), ViewAction::ShowModal));
    match modal.detach_current_view_modal() {
        ViewAction::OpenDetached(records, _, _, key) => {
            assert_eq!(records.len(), 2);
            assert_eq!(key, "cmp:7,8");
        }
        _ => panic!("the dialog moves into a detached window"),
    }
    assert!(!modal.show_view_modal);
    assert!(modal.view_records.is_empty());
    assert_eq!(modal.detached_windows, vec!["cmp:7,8".to_string()]);
}

#[test]
fn panel_texts() {
    assert_eq!(message_card_summary("short"), "short");
    assert_eq!(message_card_summary(&"a".repeat(41)), format!("{}...", "a".repeat(40)));
    assert_eq!(history_record_summary(&record(3)), "[User] prompt 3");
    let mut long = record(4);
    long.messages[0].content = "b".repeat(31);
    assert_eq!(history_record_summary(&long), format!("[User] {}...", "b".repeat(30)));
    long.messages.clear();
    assert_eq!(history_record_summary(&long), "");
    assert_eq!(relative_time_text(100, 50), "刚刚");
    assert_eq!(relative_time_text(50, 100), "刚刚");
    assert_eq!(relative_time_text(3700, 100), "1小时前");
    assert_eq!(relative_time_text(200, 80), "2分钟前");
    assert_eq!(relative_time_text(200_000, 0), "2天前");
    assert_eq!(select_all_label(3, 3), "取消全选");
    assert_eq!(select_all_label(0, 0), "全选");
    assert_eq!(delete_label(0), "删除");
    assert_eq!(delete_label(2), "删除(2)");
    assert_eq!(compare_label(1), None);
    assert_eq!(compare_label(2), Some("对比(2)".to_string()));
    assert_eq!(page_info(0, 3), "1/3 页");
    assert_eq!(count_label(4, " 条"), "(4 条)");
    assert_eq!(count_label(2, ""), "(2)");
}

#[test]
fn pickers_filter_by_the_trimmed_lowercased_search() {
    let mut session = Session::new();
    session.set_available_prompts(vec![
        PromptTemplate { id: 1, name: "Weather".to_string(), content: "ask  about\nrain".to_string(), description: None },
        PromptTemplate { id: 2, name: "Code".to_string(), content: "REVIEW this".to_string(), description: None },
    ]);
    let items = session.prompt_picker_items("  weather ");
    assert_eq!(items, vec![(1, "Weather".to_string(), "ask about rain".to_string())]);
    let items = session.prompt_picker_items("review");
    assert_eq!(items.iter().map(|i| i.0).collect::<Vec<i64>>(), vec![2]);
    assert_eq!(session.prompt_picker_items(" ").len(), 2);

    session.reload_available_functions(
        AppIdentity::Hivegui,
        vec![
            DbFunction {
                id: 7,
                identifier: "get_weather".to_string(),
                name: "天气".to_string(),
                description: None,
                kind: "custom".to_string(),
                input_schema: "{}".to_string(),
                output_schema: "{}".to_string(),
            },
            DbFunction {
                id: 8,
                identifier: "calc".to_string(),
                name: "Calculator".to_string(),
                description: None,
                kind: "custom".to_string(),
                input_schema: "{}".to_string(),
                output_schema: "{}".to_string(),
            },
        ],
    );
    session.add_tool_from_function(7);
    assert_eq!(session.tool_picker_items(""), vec![(7, true), (8, false)]);
    assert_eq!(session.tool_picker_items("WEATHER"), vec![(7, true)]);
    assert_eq!(session.tool_picker_items("calcul"), vec![(8, false)]);
}
