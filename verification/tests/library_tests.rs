use hivegui::catalog::PromptTemplate;
use hivegui::library::PromptLibraryView;

fn prompt(id: i64, name: &str, content: &str, description: Option<&str>) -> PromptTemplate {
    PromptTemplate {
        id,
        name: name.to_string(),
        content: content.to_string(),
        description: description.map(|d| d.to_string()),
    }
}

#[test]
fn a_new_panel_loads_without_a_search() {
    let mut view = PromptLibraryView::new();
    assert!(view.loading);
    assert_eq!(view.empty_list_message(), Some("加载中..."));
    view.prompts_loaded(Some(vec![prompt(1, "a", "b", None)]), None);
    assert!(!view.loading);
    assert_eq!(view.total_count, 1);
    assert_eq!(view.total_text(), "共 1 条");
    view.total_count = -3;
    assert_eq!(view.total_text(), "共 -3 条");
    assert_eq!(view.empty_list_message(), None);
}

#[test]
fn searches_are_trimmed_and_blank_searches_list_everything() {
    let mut view = PromptLibraryView::new();
    let request = view.search_changed("  天气  ".to_string());
    assert_eq!(request.search, Some("天气".to_string()));
    let request = view.search_changed("   ".to_string());
    assert_eq!(request.search, None);
    view.prompts_loaded(None, Some(0));
    assert_eq!(view.empty_list_message(), Some("暂无提示词，点击右上角「+ 添加提示词」新建"));
    view.search_changed("x".to_string());
    view.prompts_loaded(Some(vec![]), None);
    assert_eq!(view.total_count, 0);
    assert_eq!(view.empty_list_message(), Some("没有匹配的提示词"));
}

#[test]
fn the_form_requires_a_name_and_content() {
    let mut view = PromptLibraryView::new();
    view.show_add_form();
    assert_eq!(view.form_title(), "添加提示词");
    assert!(view.save_prompt(Some("  ".to_string()), Some("c".to_string()), None).is_none());
    assert_eq!(view.error_message.as_deref(), Some("名称不能为空"));
    assert!(view.save_prompt(Some("n".to_string()), Some(" \n ".to_string()), None).is_none());
    assert_eq!(view.error_message.as_deref(), Some("内容不能为空"));
    let request = view
        .save_prompt(Some("  名称 ".to_string()), Some(" 内容 ".to_string()), Some("   ".to_string()))
        .expect("valid form");
    assert_eq!(request.id, None);
    assert_eq!(request.name, "名称");
    assert_eq!(request.content, " 内容 ");
    assert_eq!(request.description, None);
}

#[test]
fn editing_saves_an_update_of_the_same_prompt() {
    let mut view = PromptLibraryView::new();
    view.show_edit_form(prompt(4, "旧名", "旧内容", Some("描述")));
    assert_eq!(view.form_title(), "编辑提示词");
    assert_eq!(view.form_name, "旧名");
    assert_eq!(view.form_description, "描述");
    let request = view.save_prompt(None, None, Some(" 新描述 ".to_string())).expect("valid form");
    assert_eq!(request.id, Some(4));
    assert_eq!(request.name, "旧名");
    assert_eq!(request.description, Some("新描述".to_string()));
    assert!(view.save_finished(true, Err("locked".to_string())).is_none());
    assert_eq!(view.error_message.as_deref(), Some("更新失败: locked"));
    assert!(view.show_form);
    let reload = view.save_finished(true, Ok(()));
    assert!(reload.is_some());
    assert!(!view.show_form);
    assert!(view.editing_prompt.is_none());
    assert!(view.form_name.is_empty());
    assert!(view.error_message.is_none());
    assert!(view.loading);
}

#[test]
fn deleting_waits_for_the_confirmation() {
    let mut view = PromptLibraryView::new();
    view.request_delete(3);
    view.cancel_delete();
    assert_eq!(view.confirm_delete(), None);
    view.request_delete(5);
    assert_eq!(view.confirm_delete(), Some(5));
    assert_eq!(view.confirm_delete_id, None);
    assert!(view.delete_finished(Err("gone".to_string())).is_none());
    assert_eq!(view.error_message.as_deref(), Some("删除失败: gone"));
    assert!(view.delete_finished(Ok(())).is_some());
}

#[test]
fn content_previews_fold_whitespace_and_cut_at_sixty() {
    assert_eq!(PromptLibraryView::content_preview("  a\n\tb   c "), "a b c");
    let long = "字".repeat(70);
    assert_eq!(PromptLibraryView::content_preview(&long), format!("{}…", "字".repeat(60)));
    let exact = "x".repeat(60);
    assert_eq!(PromptLibraryView::content_preview(&exact), exact);
}
