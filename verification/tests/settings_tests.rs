use hivegui::settings::{
    default_diagnostic_path, restore_impact_text, CancelRequest, ConfirmAction, DiagnosticOutcome, ExportOutcome,
    RestoreOutcome, SettingsView,
};

fn status(view: &SettingsView) -> String {
    view.status_message.clone().unwrap_or_default()
}

/// A view with a store, a restore path and a passphrase.
fn ready_view() -> SettingsView {
    let mut view = SettingsView::new(true, "diag");
    view.set_store(1);
    view.import_path = "/tmp/a.age.tar".to_string();
    view.backup_passphrase = "secret".to_string();
    view
}

/// A view whose preview (coordinator 10, prepared 20) passed.
fn prechecked_view() -> SettingsView {
    let mut view = ready_view();
    let request = view.preview_restore(true).expect("preview starts");
    assert!(view.apply_restore_preview_outcome(request.generation, Ok((10, 20, "impact".to_string()))).is_none());
    view
}

#[test]
fn a_new_view_has_the_defaults_and_the_given_diagnostic_path() {
    let id = uuid::Uuid::new_v4().to_string();
    let view = SettingsView::new(false, &id);
    assert_eq!(view.export_path, "./hivegui-export.age.tar");
    assert_eq!(view.retention_days, "365");
    assert_eq!(view.restore_impact_preview, "恢复前请先预检");
    assert!(view.store.is_none());
    assert_eq!(view.diagnostic_path, format!("./hivegui-diagnostic-{id}.json"));
    let other = SettingsView::new(false, &uuid::Uuid::new_v4().to_string());
    assert_ne!(view.diagnostic_path, other.diagnostic_path);
    assert_eq!(default_diagnostic_path("abc"), "./hivegui-diagnostic-abc.json");
}

#[test]
fn set_store_is_a_one_time_binding() {
    let mut view = SettingsView::new(false, "diag");
    view.set_store(7);
    view.restore_impact_preview = "changed".to_string();
    view.set_store(8);
    assert_eq!(view.store, Some(7));
    assert_eq!(view.restore_impact_preview, "changed");
}

#[test]
fn preview_requests_are_refused_in_order() {
    let mut view = SettingsView::new(false, "diag");
    assert!(view.preview_restore(true).is_none());
    assert_eq!(status(&view), "Store 未就绪");
    view.set_store(1);
    assert!(view.preview_restore(true).is_none());
    assert_eq!(status(&view), "请输入恢复文件路径");
    view.import_path = "  ".to_string();
    assert!(view.preview_restore(true).is_none());
    assert_eq!(status(&view), "请输入恢复文件路径");
    view.import_path = "/tmp/x".to_string();
    assert!(view.preview_restore(true).is_none());
    assert_eq!(status(&view), "恢复前请先输入备份口令");
    view.backup_passphrase = "p".to_string();
    assert!(view.preview_restore(false).is_none());
    assert_eq!(status(&view), "恢复文件不存在");
    assert!(view.is_error);
    let request = view.preview_restore(true).expect("preview starts");
    assert_eq!(request.store, 1);
    assert_eq!(request.path, "/tmp/x");
    assert_eq!(request.passphrase, "p");
    assert_eq!(request.generation, 0);
    assert!(view.restore_preview_busy);
    assert_eq!(status(&view), "正在预检恢复内容...");
    assert!(view.preview_restore(true).is_none());
    assert_eq!(status(&view), "恢复预检仍在处理中，请等待当前预检安全收口");
}

#[test]
fn a_passed_preview_installs_its_pair() {
    let view = prechecked_view();
    assert!(view.is_restoring_prechecked);
    assert!(!view.restore_preview_busy);
    assert_eq!(view.restore_coordinator, Some(10));
    assert_eq!(view.prepared_restore, Some(20));
    assert_eq!(view.restore_impact_preview, "impact");
    assert_eq!(status(&view), "恢复预检通过");
    assert!(!view.is_error);
}

#[test]
fn a_failed_preview_reports_its_error() {
    let mut view = ready_view();
    let request = view.preview_restore(true).expect("preview starts");
    assert!(view.apply_restore_preview_outcome(request.generation, Err("bad archive".to_string())).is_none());
    assert!(!view.is_restoring_prechecked);
    assert!(!view.restore_preview_busy);
    assert_eq!(status(&view), "恢复预检失败：bad archive");
    assert!(view.is_error);
}

#[test]
fn repeating_a_ready_preview_is_rejected_without_replacing_its_pair() {
    let mut view = prechecked_view();
    assert!(view.preview_restore(true).is_none());
    assert_eq!(status(&view), "已有恢复预检等待处理；请确认恢复或修改恢复输入后再试");
    assert_eq!(view.restore_coordinator, Some(10));
    assert_eq!(view.prepared_restore, Some(20));
}

#[test]
fn consecutive_input_changes_cancel_the_ready_preview_once() {
    let mut view = prechecked_view();
    let first = view.on_import_path_changed("/tmp/b.age.tar".to_string());
    assert_eq!(first, Some(CancelRequest { coordinator: 10, prepared: 20, report_success: false }));
    assert!(!view.is_restoring_prechecked);
    assert!(view.restore_preview_busy);
    assert_eq!(view.restore_preview_generation, 1);
    assert_eq!(view.restore_impact_preview, "恢复前请先预检");
    assert!(view.status_message.is_none());
    let second = view.on_backup_passphrase_changed("other".to_string());
    assert_eq!(second, None);
    assert_eq!(view.restore_preview_generation, 2);
    // The cancellation succeeds: the pair is gone and a new preview may start.
    assert!(!view.cancel_outcome(20, false, true));
    assert!(view.restore_coordinator.is_none());
    assert!(view.prepared_restore.is_none());
    assert!(!view.restore_preview_busy);
    assert!(view.preview_restore(true).is_some());
}

#[test]
fn a_stale_preview_outcome_is_cancelled_not_installed() {
    let mut view = ready_view();
    let request = view.preview_restore(true).expect("preview starts");
    assert_eq!(view.on_import_path_changed("/tmp/b".to_string()), None);
    let cancel = view.apply_restore_preview_outcome(request.generation, Ok((5, 6, "old".to_string())));
    assert_eq!(cancel, Some(CancelRequest { coordinator: 5, prepared: 6, report_success: false }));
    assert!(!view.is_restoring_prechecked);
    assert_eq!(view.restore_impact_preview, "恢复前请先预检");
    assert!(view.restore_preview_busy);
    // A stale error only ends the busy state.
    let mut other = ready_view();
    let request = other.preview_restore(true).expect("preview starts");
    other.on_backup_passphrase_changed("changed".to_string());
    assert_eq!(other.apply_restore_preview_outcome(request.generation, Err("x".to_string())), None);
    assert!(!other.restore_preview_busy);
    assert!(other.status_message.is_none());
}

#[test]
fn a_failed_cancellation_enters_the_restart_only_terminal_state() {
    let mut view = prechecked_view();
    view.on_import_path_changed("/tmp/b".to_string());
    assert!(view.cancel_outcome(20, false, false));
    assert!(view.restore_restart_required);
    assert!(view.restore_preview_busy);
    assert_eq!(status(&view), "恢复预检清理未能安全完成；Store 已锁定，必须重启 HiveGUI");
    assert!(view.is_error);
    // A late success cannot leave it, nor can anything else.
    assert!(!view.cancel_outcome(20, true, true));
    assert!(view.restore_restart_required);
    assert!(view.restore_preview_busy);
    view.clear_status();
    assert_eq!(status(&view), "恢复预检清理未能安全完成；Store 已锁定，必须重启 HiveGUI");
    assert!(view.preview_restore(true).is_none());
    assert!(view.begin_import().is_none());
    assert_eq!(view.on_import_path_changed("/tmp/c".to_string()), None);
    view.set_store(9);
    assert_eq!(view.store, Some(1));
    assert!(view.restore_restart_required);
}

#[test]
fn a_cancellation_for_another_pair_changes_nothing() {
    let mut view = prechecked_view();
    view.on_import_path_changed("/tmp/b".to_string());
    assert!(!view.cancel_outcome(99, false, true));
    assert_eq!(view.prepared_restore, Some(20));
    assert!(view.restore_preview_busy);
    assert!(view.cancel_outcome(99, false, false));
    assert!(!view.restore_restart_required);
}

#[test]
fn the_restore_is_refused_until_prechecked_and_confirmed() {
    let mut view = ready_view();
    assert!(view.begin_import().is_none());
    assert_eq!(status(&view), "请先执行恢复预检");
    let mut view = prechecked_view();
    assert!(view.begin_import().is_none());
    assert_eq!(status(&view), "请先确认完整替换");
    view.toggle_replacement_confirmed();
    view.on_escape();
    assert!(!view.is_replacement_confirmed);
    view.toggle_replacement_confirmed();
    assert_eq!(view.begin_import(), Some((10, 20)));
    assert!(matches!(view.confirmation_begun(true, false), ConfirmAction::Finish));
    assert!(view.restore_restart_required);
    assert!(view.is_importing);
    assert_eq!(status(&view), "正在恢复；Store 已冻结，完成后必须重启 HiveGUI");
    view.finish_import("/tmp/safety", RestoreOutcome::Restored);
    assert!(!view.is_importing);
    assert!(view.prepared_restore.is_none());
    assert_eq!(status(&view), "恢复完成：安全备份已验证：/tmp/safety；Store 已冻结，必须重启 HiveGUI 后继续");
    assert!(!view.is_error);
}

#[test]
fn failed_restores_report_how_far_they_got() {
    let mut view = prechecked_view();
    view.finish_import("/s", RestoreOutcome::Verified);
    assert_eq!(
        status(&view),
        "恢复未完成：安全备份已验证：/s；数据切换或收口未完成；Store 已冻结，必须重启 HiveGUI 进行恢复校验"
    );
    view.finish_import("/s", RestoreOutcome::NotVerified);
    assert_eq!(
        status(&view),
        "恢复未完成：安全备份尚未验证，尚未进入数据切换；Store 已冻结，必须重启 HiveGUI 进行恢复校验"
    );
    assert!(view.is_error);
}

#[test]
fn a_refused_confirmation_cancels_or_locks() {
    let mut view = prechecked_view();
    view.toggle_replacement_confirmed();
    assert_eq!(view.begin_import(), Some((10, 20)));
    match view.confirmation_begun(false, true) {
        ConfirmAction::Cancel(request) => {
            assert_eq!(request, CancelRequest { coordinator: 10, prepared: 20, report_success: true })
        }
        _ => panic!("a cancelable preview is cancelled"),
    }
    assert_eq!(status(&view), "恢复确认未完成；正在安全取消本次预检，完成后请重新预检");
    assert!(!view.restore_restart_required);
    assert!(!view.cancel_outcome(20, true, true));
    assert_eq!(status(&view), "本次预检已取消，请重新预检");

    let mut view = prechecked_view();
    view.toggle_replacement_confirmed();
    view.begin_import();
    assert!(matches!(view.confirmation_begun(false, false), ConfirmAction::EnterTerminal));
    assert!(view.restore_restart_required);
    assert_eq!(status(&view), "恢复确认未能安全完成；Store 已进入保护状态，必须重启 HiveGUI 进行恢复校验");
}

#[test]
fn retention_is_a_positive_whole_number() {
    let mut view = SettingsView::new(false, "diag");
    view.retention_days = " 30 ".to_string();
    assert_eq!(view.save_retention(), None);
    assert_eq!(status(&view), "Store 未就绪，无法保存会话保留期");
    view.set_store(1);
    assert_eq!(view.save_retention(), Some(30));
    assert_eq!(status(&view), "正在保存保留期...");
    view.finish_save_retention(30, Ok(()));
    assert_eq!(status(&view), "会话保留期已持久化为 30 天（已应用）");
    view.finish_save_retention(30, Err("disk".to_string()));
    assert_eq!(status(&view), "保存会话保留期失败：disk");
    for bad in ["0", "abc", "-1", ""] {
        view.retention_days = bad.to_string();
        assert_eq!(view.save_retention(), None);
        assert_eq!(status(&view), "保留期必须是大于 0 的整数");
    }
}

#[test]
fn the_retention_preview_passes_the_text_as_a_signed_number() {
    let mut view = SettingsView::new(false, "diag");
    assert_eq!(view.preview_retention(), None);
    assert_eq!(status(&view), "Store 未就绪，无法预览清理影响");
    view.set_store(1);
    view.retention_days = "-5".to_string();
    assert_eq!(view.preview_retention(), Some(Some(-5)));
    view.retention_days = " 5".to_string();
    assert_eq!(view.preview_retention(), Some(None));
    view.finish_preview_retention(Ok(12));
    assert_eq!(status(&view), "预计清理过期会话 12 条");
    view.finish_preview_retention(Err("db".to_string()));
    assert_eq!(status(&view), "预览会话清理影响失败：db");
}

#[test]
fn the_stored_retention_loads_once() {
    let mut view = SettingsView::new(false, "diag");
    assert!(!view.begin_retention_load());
    view.set_store(1);
    assert!(view.begin_retention_load());
    assert!(!view.begin_retention_load());
    view.apply_loaded_retention(Some("90"));
    assert_eq!(view.retention_days, "90");
    view.apply_loaded_retention(Some("ninety"));
    assert_eq!(view.retention_days, "365");
    view.apply_loaded_retention(None);
    assert_eq!(view.retention_days, "365");
}

#[test]
fn exports_need_a_store_a_passphrase_and_a_path() {
    let mut view = SettingsView::new(false, "diag");
    assert!(view.do_export().is_none());
    assert_eq!(status(&view), "Store 未就绪");
    view.set_store(3);
    assert!(view.do_export().is_none());
    assert_eq!(status(&view), "请先输入备份口令");
    view.backup_passphrase = "pw".to_string();
    view.export_path = String::new();
    assert!(view.do_export().is_none());
    assert_eq!(status(&view), "请输入导出路径");
    view.on_export_path_changed("/tmp/e.tar".to_string());
    assert!(view.status_message.is_none());
    let request = view.do_export().expect("export starts");
    assert_eq!(request.store, 3);
    assert_eq!(request.path, "/tmp/e.tar");
    assert!(view.is_exporting);
    view.finish_export("/tmp/e.tar", ExportOutcome::Exported);
    assert!(!view.is_exporting);
    assert_eq!(status(&view), "导出完成：/tmp/e.tar（加密备份已验证；Store 已冻结，请重启后继续写入）");
    view.finish_export("/tmp/e.tar", ExportOutcome::ConfirmFailed("io".to_string()));
    assert_eq!(status(&view), "导出失败：io；Store 已冻结，请重启后继续写入");
    view.finish_export("/tmp/e.tar", ExportOutcome::TaskFailed("join".to_string()));
    assert_eq!(status(&view), "导出后台任务失败：join");
}

#[test]
fn the_diagnostic_export_needs_a_collector_and_a_path() {
    let mut view = SettingsView::new(false, "diag");
    assert!(view.export_diagnostic_bundle().is_none());
    assert_eq!(status(&view), "诊断采集器未接入");
    let mut view = SettingsView::new(true, "diag");
    view.on_diagnostic_path_changed(String::new());
    assert!(view.export_diagnostic_bundle().is_none());
    assert_eq!(status(&view), "请输入诊断导出路径");
    view.on_diagnostic_path_changed("/tmp/d.json".to_string());
    assert_eq!(view.export_diagnostic_bundle(), Some("/tmp/d.json".to_string()));
    assert!(view.is_exporting_diagnostic);
    view.finish_diagnostic_export(DiagnosticOutcome::Exported("/tmp/d.json".to_string(), 3));
    assert!(!view.is_exporting_diagnostic);
    assert_eq!(status(&view), "诊断导出成功：/tmp/d.json (events=3)");
    view.finish_diagnostic_export(DiagnosticOutcome::Failed("denied".to_string()));
    assert_eq!(status(&view), "诊断导出失败：denied");
}

#[test]
fn the_impact_text_names_the_instance_the_counts_and_the_backup() {
    assert_eq!(
        restore_impact_text("op-1", 2, 30, -1, "/b/s.tar"),
        "恢复预检通过：归档已完整认证并物化为隔离的未激活恢复实例 op-1。完整替换影响：现有数据库与托管 Plugin 制品将被完整替换，不会合并 identifier、ID 或 updated_at；当前实例包含会话 2 条、消息 30 条、执行 -1 条。确认后将在 Store 冻结周期生成并验证安全备份，计划位置：/b/s.tar。"
    );
}
