use hivegui::call::{error_chain_for_log, root_cause_for_log};
use hivegui::catalog::{
    function_already_added, models_for_preset, prompt_library_available, selectable_functions,
    tool_definition_from_function, valid_model_selection, AppIdentity, DbFunction, LlmModel,
};
use hivegui::debugger::{detached_flag_value, ExecutionRecord, PromptDebugger};
use hivegui::message::{CallState, DebugMessage, MessageRole};
use std::collections::HashMap;

fn function(id: i64, name: &str, description: Option<&str>) -> DbFunction {
    DbFunction {
        id,
        identifier: format!("fn_{id}"),
        name: name.to_string(),
        description: description.map(|description| description.to_string()),
        kind: "custom".to_string(),
        input_schema: r#"{"type":"object","properties":{"city":{"type":"string"}}}"#.to_string(),
        output_schema: "{}".to_string(),
    }
}

/// Prompt Studio 的函数管理里没有内置函数，「从函数管理选择工具」也不展示它们。
#[test]
fn prompt_studio_tool_picker_hides_builtin_functions() {
    let mut builtin = function(1, "JSON 解析", None);
    builtin.kind = "builtin".to_string();
    let user = function(2, "天气查询", None);

    let studio = selectable_functions(AppIdentity::NgyPromptStudio, vec![builtin.clone(), user.clone()]);
    let desktop = selectable_functions(AppIdentity::Hivegui, vec![builtin, user.clone()]);

    assert_eq!(studio.len(), 1, "Prompt Studio must hide Builtin Functions");
    assert_eq!(studio[0].id, user.id);
    assert_eq!(desktop.len(), 2, "the desktop picker keeps Builtin Functions");
}

#[test]
fn prompt_library_entry_is_prompt_studio_only() {
    assert!(
        prompt_library_available(AppIdentity::NgyPromptStudio),
        "Ngy Prompt Studio must expose the managed-prompt picker"
    );
    assert!(
        !prompt_library_available(AppIdentity::Hivegui),
        "the desktop app has no prompt library and must not expose the picker"
    );
}

#[test]
fn function_management_entry_maps_to_tool_definition() {
    let function = function(7, "天气查询", Some("查询指定城市的天气"));

    let tool = tool_definition_from_function(3, &function);

    assert_eq!(tool.id, 3);
    assert_eq!(tool.name, "天气查询");
    assert_eq!(tool.description, "查询指定城市的天气");
    assert_eq!(tool.parameters_json, function.input_schema);
}

#[test]
fn function_without_description_maps_to_empty_description() {
    let function = function(9, "无描述函数", None);

    let tool = tool_definition_from_function(1, &function);

    assert_eq!(tool.name, "无描述函数");
    assert!(tool.description.is_empty());
}

/// 同一个函数只能选一次：已加入的工具（值里出现过的函数 id）不能再选。
#[test]
fn same_function_cannot_be_added_twice() {
    let mut sources: HashMap<u64, i64> = HashMap::new();
    assert!(!function_already_added(&sources, 7));

    sources.insert(1, 7);
    assert!(function_already_added(&sources, 7));
    assert!(!function_already_added(&sources, 8));

    sources.insert(2, 9);
    assert!(function_already_added(&sources, 7));
    assert!(function_already_added(&sources, 9));
}

fn model(id: i64, preset_id: i64, priority: i32) -> LlmModel {
    LlmModel { id, name: format!("model-{id}"), preset_id: Some(preset_id), provider_id: Some(1), priority }
}

#[test]
fn message_role_labels() {
    assert_eq!(MessageRole::System.label(), "System");
    assert_eq!(MessageRole::User.label(), "User");
    assert_eq!(MessageRole::Assistant.label(), "Assistant");
}

#[test]
fn message_role_api_roles() {
    assert_eq!(MessageRole::System.api_role(), "system");
    assert_eq!(MessageRole::User.api_role(), "user");
    assert_eq!(MessageRole::Assistant.api_role(), "assistant");
}

#[test]
fn add_and_remove_messages() {
    let mut msgs: Vec<DebugMessage> = vec![];
    let id = 1u64;

    msgs.push(DebugMessage { id, role: MessageRole::User, content: "hi".into() });
    assert_eq!(msgs.len(), 1);

    msgs.retain(|m| m.id != id);
    assert_eq!(msgs.len(), 0);
}

#[test]
fn move_message_up_and_down() {
    let mut msgs = [
        DebugMessage { id: 1, role: MessageRole::System, content: "a".into() },
        DebugMessage { id: 2, role: MessageRole::User, content: "b".into() },
        DebugMessage { id: 3, role: MessageRole::Assistant, content: "c".into() },
    ];

    if let Some(pos) = msgs.iter().position(|m| m.id == 2) {
        if pos > 0 {
            msgs.swap(pos, pos - 1);
        }
    }
    assert_eq!(msgs[0].id, 2);
    assert_eq!(msgs[1].id, 1);

    if let Some(pos) = msgs.iter().position(|m| m.id == 2) {
        if pos + 1 < msgs.len() {
            msgs.swap(pos, pos + 1);
        }
    }
    assert_eq!(msgs[0].id, 1);
    assert_eq!(msgs[1].id, 2);
}

#[test]
fn model_selection_requires_a_preset_and_filters_to_its_models() {
    let models = vec![model(11, 1, 0), model(12, 1, 10), model(21, 2, 0)];

    assert!(models_for_preset(&models, None).is_empty());
    assert_eq!(
        models_for_preset(&models, Some(1)).iter().map(|model| model.id).collect::<Vec<_>>(),
        vec![11, 12]
    );
    assert_eq!(
        models_for_preset(&models, Some(2)).iter().map(|model| model.id).collect::<Vec<_>>(),
        vec![21]
    );
}

#[test]
fn switching_preset_invalidates_the_previous_model() {
    let models = vec![model(11, 1, 0), model(21, 2, 0)];

    assert_eq!(valid_model_selection(&models, Some(1), Some(11)), Some(11));
    assert_eq!(valid_model_selection(&models, Some(2), Some(11)), None);
    assert_eq!(valid_model_selection(&models, None, Some(11)), None);
}

#[test]
fn detached_flag_value_reads_only_boolean_true_as_enabled() {
    assert!(detached_flag_value(Some("true")));
    assert!(detached_flag_value(Some(" true ")));
    assert!(!detached_flag_value(Some("false")));
    assert!(!detached_flag_value(Some("")));
    assert!(!detached_flag_value(Some("TRUE")));
    assert!(!detached_flag_value(None));
}

fn detached_fixture_record(id: u64, model: &str, result: &str) -> ExecutionRecord {
    ExecutionRecord {
        id,
        timestamp: id,
        model_name: model.to_string(),
        max_tokens: 2048,
        thinking_enabled: false,
        thinking_budget: 1024,
        messages: vec![DebugMessage { id: 1, role: MessageRole::User, content: format!("prompt {id}") }],
        tools: vec![],
        result: CallState::Success(result.to_string()),
    }
}

#[test]
fn detached_window_key_ignores_selection_order() {
    let a = PromptDebugger::detached_window_key(&[
        detached_fixture_record(2, "m", "r"),
        detached_fixture_record(1, "m", "r"),
    ]);
    let b = PromptDebugger::detached_window_key(&[
        detached_fixture_record(1, "m", "r"),
        detached_fixture_record(2, "m", "r"),
    ]);
    assert_eq!(a, "cmp:1,2");
    assert_eq!(a, b);
    assert_eq!(PromptDebugger::detached_window_key(&[detached_fixture_record(7, "m", "r")]), "rec:7");
    assert_eq!(PromptDebugger::detached_window_key_ids("cmp:1,2"), vec![1, 2]);
    assert_eq!(PromptDebugger::detached_window_key_ids("rec:9"), vec![9]);
}

#[derive(Debug)]
struct Chain {
    msg: &'static str,
    source: Option<Box<Chain>>,
}

impl std::fmt::Display for Chain {
    fn fmt(&self, f: &mut std::fmt::Formatter<'_>) -> std::fmt::Result {
        f.write_str(self.msg)
    }
}

impl std::error::Error for Chain {
    fn source(&self) -> Option<&(dyn std::error::Error + 'static)> {
        self.source.as_ref().map(|s| s.as_ref() as &(dyn std::error::Error + 'static))
    }
}

/// The messages of an error and of its sources, outermost first.
fn chain_messages(error: &(dyn std::error::Error + 'static)) -> Vec<String> {
    let mut out = vec![error.to_string()];
    let mut current = error.source();
    while let Some(cause) = current {
        out.push(cause.to_string());
        current = cause.source();
    }
    out
}

#[test]
fn transport_error_chain_exposes_the_root_cause() {
    let error = Chain {
        msg: "error sending request for url (http://127.0.0.1:11434/v1/chat/completions)",
        source: Some(Box::new(Chain {
            msg: "client error (Connect)",
            source: Some(Box::new(Chain { msg: "Connection refused (os error 111)", source: None })),
        })),
    };
    let messages = chain_messages(&error);

    assert_eq!(
        error_chain_for_log(&messages),
        "error sending request for url (http://127.0.0.1:11434/v1/chat/completions) \
         <- client error (Connect) <- Connection refused (os error 111)"
    );
    assert_eq!(root_cause_for_log(&messages), "Connection refused (os error 111)");
}

#[test]
fn error_without_source_falls_back_to_its_own_message() {
    let error = Chain { msg: "boom", source: None };
    let messages = chain_messages(&error);
    assert_eq!(error_chain_for_log(&messages), "boom");
    assert_eq!(root_cause_for_log(&messages), "boom");
}
