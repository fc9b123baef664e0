//! The data-management view: backup export, restore precheck and
//! confirmation, session retention and the diagnostic export, as a state
//! machine. The view decides; the host performs what a decision asks for
//! (a background preview, a cancellation, a restore) and hands the outcome
//! back.
//!
//! The store, the restore coordinator and the prepared restore live in the
//! host; the view knows them by the identity numbers the host gives them.

use vstd::prelude::*;
use crate::text::{chars_of, decimal, parse_i64, parse_i64_spec, parse_u64, parse_u64_spec, push_decimal, push_signed_decimal, signed_decimal, trim_seq, trimmed};

verus! {

/// What the view holds, as plain values.
#[verifier::ext_equal]
pub struct SettingsState {
    pub store: Option<u64>,
    pub has_collector: bool,
    pub export_path: Seq<char>,
    pub import_path: Seq<char>,
    pub diagnostic_path: Seq<char>,
    pub retention_days: Seq<char>,
    pub backup_passphrase: Seq<char>,
    pub restore_impact_preview: Seq<char>,
    pub restore_coordinator: Option<u64>,
    pub prepared_restore: Option<u64>,
    pub restore_restart_required: bool,
    pub restore_preview_generation: u64,
    pub restore_preview_busy: bool,
    pub retention_loaded: bool,
    pub is_exporting: bool,
    pub is_importing: bool,
    pub is_restoring_prechecked: bool,
    pub is_replacement_confirmed: bool,
    pub is_exporting_diagnostic: bool,
    pub status_message: Option<Seq<char>>,
    pub is_error: bool,
}

/// The data-management view.
pub struct SettingsView {
    /// The bound store, by identity; it is bound once.
    pub store: Option<u64>,
    /// Whether an execution-event collector is connected.
    pub has_collector: bool,
    pub export_path: String,
    pub import_path: String,
    pub diagnostic_path: String,
    pub retention_days: String,
    pub backup_passphrase: String,
    pub restore_impact_preview: String,
    /// The restore coordinator of the pending preview, by identity.
    pub restore_coordinator: Option<u64>,
    /// The prepared restore of the pending preview, by identity.
    pub prepared_restore: Option<u64>,
    /// Set once a restore started or could not be undone safely: from then
    /// on the application must restart before anything else is restored.
    pub restore_restart_required: bool,
    /// Bumped by every restore input change; a preview that finishes under
    /// an older number is stale.
    pub restore_preview_generation: u64,
    /// A preview or its cancellation is in flight.
    pub restore_preview_busy: bool,
    pub retention_loaded: bool,
    pub is_exporting: bool,
    pub is_importing: bool,
    pub is_restoring_prechecked: bool,
    pub is_replacement_confirmed: bool,
    pub is_exporting_diagnostic: bool,
    pub status_message: Option<String>,
    pub is_error: bool,
}

impl View for SettingsView {
    type V = SettingsState;

    open spec fn view(&self) -> SettingsState {
        SettingsState {
            store: self.store,
            has_collector: self.has_collector,
            export_path: self.export_path@,
            import_path: self.import_path@,
            diagnostic_path: self.diagnostic_path@,
            retention_days: self.retention_days@,
            backup_passphrase: self.backup_passphrase@,
            restore_impact_preview: self.restore_impact_preview@,
            restore_coordinator: self.restore_coordinator,
            prepared_restore: self.prepared_restore,
            restore_restart_required: self.restore_restart_required,
            restore_preview_generation: self.restore_preview_generation,
            restore_preview_busy: self.restore_preview_busy,
            retention_loaded: self.retention_loaded,
            is_exporting: self.is_exporting,
            is_importing: self.is_importing,
            is_restoring_prechecked: self.is_restoring_prechecked,
            is_replacement_confirmed: self.is_replacement_confirmed,
            is_exporting_diagnostic: self.is_exporting_diagnostic,
            status_message: match self.status_message {
                Some(m) => Some(m@),
                None => None,
            },
            is_error: self.is_error,
        }
    }
}

/// The impact text shown while no restore has been prechecked.
pub open spec fn restore_prompt() -> Seq<char> {
    "恢复前请先预检"@
}

/// `s` showing `msg` as its status, an error or not.
pub open spec fn with_status(s: SettingsState, msg: Seq<char>, is_error: bool) -> SettingsState {
    SettingsState { status_message: Some(msg), is_error, ..s }
}

/// Binding a store: only the first one is taken, and it resets the restore
/// precheck.
pub open spec fn set_store_spec(s: SettingsState, store: u64) -> SettingsState {
    if s.store is Some {
        s
    } else {
        SettingsState {
            store: Some(store),
            retention_loaded: false,
            is_restoring_prechecked: false,
            is_replacement_confirmed: false,
            restore_coordinator: None,
            prepared_restore: None,
            restore_restart_required: false,
            restore_impact_preview: restore_prompt(),
            ..s
        }
    }
}

/// Clearing the status, which a restart-required state keeps.
pub open spec fn clear_status_spec(s: SettingsState) -> SettingsState {
    if s.restore_restart_required {
        s
    } else {
        SettingsState { status_message: None, is_error: false, ..s }
    }
}

/// A cancellation of a pending restore preview, for the host to run:
/// `coordinator.cancel_preview(prepared)`, then `cancel_outcome` with what
/// came of it.
#[derive(Debug, Clone, Copy, PartialEq, Eq, Structural)]
pub struct CancelRequest {
    pub coordinator: u64,
    pub prepared: u64,
    /// Whether a successful cancellation is reported on the status line.
    pub report_success: bool,
}

/// A restore preview for the host to run in the background; its outcome
/// goes to `apply_restore_preview_outcome` with `generation`.
pub struct PreviewRequest {
    pub store: u64,
    pub path: String,
    pub passphrase: String,
    pub generation: u64,
}

/// The next preview generation (it wraps around).
pub open spec fn next_generation(g: u64) -> u64 {
    g.wrapping_add(1)
}

/// A restore input changed: a completed precheck is dropped, the
/// generation moves on, and the pending preview pair, when both halves are
/// there and nothing is in flight, is handed out for cancellation (the view
/// keeps it, busy, until the cancellation reports back). Nothing changes
/// once a restart is required.
pub open spec fn input_change_spec(s: SettingsState) -> (SettingsState, Option<(u64, u64)>) {
    if s.restore_restart_required {
        (s, None)
    } else {
        let t = SettingsState {
            restore_preview_generation: next_generation(s.restore_preview_generation),
            is_restoring_prechecked: false,
            is_replacement_confirmed: false,
            restore_impact_preview: restore_prompt(),
            ..s
        };
        if t.restore_preview_busy {
            (t, None)
        } else {
            match (t.restore_coordinator, t.prepared_restore) {
                (Some(c), Some(p)) => (SettingsState { restore_preview_busy: true, ..t }, Some((c, p))),
                _ => (t, None),
            }
        }
    }
}

/// The status shown when a cancellation that was asked to report succeeds.
pub open spec fn cancelled_message() -> Seq<char> {
    "本次预检已取消，请重新预检"@
}

/// The status of the terminal state after a failed cancellation.
pub open spec fn cancel_failed_message() -> Seq<char> {
    "恢复预检清理未能安全完成；Store 已锁定，必须重启 HiveGUI"@
}

/// Whether `prepared` is the view's pending prepared restore, with its
/// coordinator.
pub open spec fn exact_pair(s: SettingsState, prepared: u64) -> bool {
    s.restore_coordinator is Some && s.prepared_restore == Some(prepared)
}

/// A cancellation reported back. A success for the exact pending pair,
/// outside the restart-required state, clears the pair and the busy flag
/// (and reports, if asked); a failure for the exact pair enters the
/// restart-required terminal state; anything else leaves the view as it is.
pub open spec fn cancel_outcome_spec(s: SettingsState, prepared: u64, report_success: bool, succeeded: bool) -> SettingsState {
    if succeeded {
        if s.restore_restart_required || !exact_pair(s, prepared) {
            s
        } else {
            let t = SettingsState {
                restore_coordinator: None,
                prepared_restore: None,
                restore_preview_busy: false,
                ..s
            };
            if report_success { with_status(t, cancelled_message(), false) } else { t }
        }
    } else if exact_pair(s, prepared) {
        with_status(SettingsState {
            restore_restart_required: true,
            restore_preview_busy: true,
            is_restoring_prechecked: false,
            is_replacement_confirmed: false,
            restore_impact_preview: restore_prompt(),
            ..s
        }, cancel_failed_message(), true)
    } else {
        s
    }
}

/// The view of a preview outcome: the coordinator, the prepared restore and
/// the impact text, or the error.
pub open spec fn outcome_view(outcome: Result<(u64, u64, String), String>) -> Result<(u64, u64, Seq<char>), Seq<char>> {
    match outcome {
        Ok((c, p, impact)) => Ok((c, p, impact@)),
        Err(e) => Err(e@),
    }
}

/// A preview outcome delivered. A stale one (from an older generation) is
/// never installed: a prepared pair is taken in, busy, only to be cancelled;
/// a stale error just ends the busy state. A current success installs the
/// pair and its impact text and marks the precheck done; a current error
/// clears the pair and reports it.
pub open spec fn preview_outcome_spec(s: SettingsState, generation: u64, outcome: Result<(u64, u64, Seq<char>), Seq<char>>) -> (SettingsState, Option<(u64, u64)>) {
    if generation != s.restore_preview_generation {
        match outcome {
            Ok((c, p, _)) => (SettingsState {
                restore_preview_busy: true,
                restore_coordinator: Some(c),
                prepared_restore: Some(p),
                ..s
            }, Some((c, p))),
            Err(_) => (SettingsState { restore_preview_busy: false, ..s }, None),
        }
    } else {
        match outcome {
            Ok((c, p, impact)) => (with_status(SettingsState {
                restore_preview_busy: false,
                restore_coordinator: Some(c),
                prepared_restore: Some(p),
                restore_impact_preview: impact,
                is_restoring_prechecked: true,
                is_replacement_confirmed: false,
                ..s
            }, "恢复预检通过"@, false), None),
            Err(e) => (with_status(SettingsState {
                restore_preview_busy: false,
                restore_coordinator: None,
                prepared_restore: None,
                restore_impact_preview: restore_prompt(),
                is_restoring_prechecked: false,
                ..s
            }, "恢复预检失败："@ + e, true), None),
        }
    }
}

/// Whether a text is empty once surrounding whitespace is trimmed.
pub open spec fn blank(t: Seq<char>) -> bool {
    trim_seq(t).len() == 0
}

/// Whether `t` is empty or whitespace only.
pub fn is_blank(t: &str) -> (r: bool)
    ensures
        r == blank(t@),
{
    let c = chars_of(t);
    trimmed(c.as_slice()).len() == 0
}

/// Asking for a restore preview. Nothing happens once a restart is
/// required; otherwise a pending pair, a preview in flight, a missing
/// store, a blank path, a blank passphrase and a missing file are each
/// refused with their message, in that order. Past all of them the view is
/// busy and a preview of the path with the passphrase starts, under the
/// current generation.
pub open spec fn preview_restore_spec(s: SettingsState, file_exists: bool) -> (SettingsState, bool) {
    if s.restore_restart_required {
        (s, false)
    } else if s.restore_coordinator is Some || s.prepared_restore is Some {
        (with_status(s, "已有恢复预检等待处理；请确认恢复或修改恢复输入后再试"@, true), false)
    } else if s.restore_preview_busy {
        (with_status(s, "恢复预检仍在处理中，请等待当前预检安全收口"@, true), false)
    } else if s.store is None {
        (with_status(s, "Store 未就绪"@, true), false)
    } else if blank(s.import_path) {
        (with_status(s, "请输入恢复文件路径"@, true), false)
    } else if blank(s.backup_passphrase) {
        (with_status(s, "恢复前请先输入备份口令"@, true), false)
    } else if !file_exists {
        (with_status(s, "恢复文件不存在"@, true), false)
    } else {
        (with_status(SettingsState { restore_preview_busy: true, ..s }, "正在预检恢复内容..."@, false), true)
    }
}

/// A backup export for the host to run.
pub struct ExportRequest {
    pub store: u64,
    pub path: String,
    pub passphrase: String,
}

/// Asking for an export: a missing store, a blank passphrase and an empty
/// path are refused with their message; otherwise the export starts.
pub open spec fn do_export_spec(s: SettingsState) -> (SettingsState, bool) {
    if s.store is None {
        (with_status(s, "Store 未就绪"@, true), false)
    } else if blank(s.backup_passphrase) {
        (with_status(s, "请先输入备份口令"@, true), false)
    } else if s.export_path.len() == 0 {
        (with_status(s, "请输入导出路径"@, true), false)
    } else {
        (with_status(SettingsState { is_exporting: true, ..s }, "正在导出..."@, false), true)
    }
}

/// How an export ended.
pub enum ExportOutcome {
    /// The encrypted backup was written and verified.
    Exported,
    /// The export could not be prepared (the error's text).
    NotStarted(String),
    /// The export was confirmed but failed (the error's text).
    ConfirmFailed(String),
    /// The background task itself failed (the error's text).
    TaskFailed(String),
}

/// The status after an export to `path` ended.
pub open spec fn finish_export_spec(s: SettingsState, path: Seq<char>, outcome: ExportOutcome) -> SettingsState {
    let t = SettingsState { is_exporting: false, ..s };
    match outcome {
        ExportOutcome::Exported => with_status(t, "导出完成："@ + path + "（加密备份已验证；Store 已冻结，请重启后继续写入）"@, false),
        ExportOutcome::NotStarted(e) => with_status(t, "导出失败："@ + e@, true),
        ExportOutcome::ConfirmFailed(e) => with_status(t, "导出失败："@ + e@ + "；Store 已冻结，请重启后继续写入"@, true),
        ExportOutcome::TaskFailed(e) => with_status(t, "导出后台任务失败："@ + e@, true),
    }
}

/// Asking for the restore itself. Nothing happens once a restart is
/// required; otherwise a missing store, a blank passphrase, a missing
/// precheck, a missing confirmation, an empty path and a pending pair that
/// is no longer whole are each refused with their message. Past all of
/// them the host is to begin the confirmation of the pending pair.
pub open spec fn begin_import_spec(s: SettingsState) -> (SettingsState, Option<(u64, u64)>) {
    if s.restore_restart_required {
        (s, None)
    } else if s.store is None {
        (with_status(s, "Store 未就绪"@, true), None)
    } else if blank(s.backup_passphrase) {
        (with_status(s, "恢复前请先输入备份口令"@, true), None)
    } else if !s.is_restoring_prechecked {
        (with_status(s, "请先执行恢复预检"@, true), None)
    } else if !s.is_replacement_confirmed {
        (with_status(s, "请先确认完整替换"@, true), None)
    } else if s.import_path.len() == 0 {
        (with_status(s, "请输入恢复路径"@, true), None)
    } else {
        match (s.restore_coordinator, s.prepared_restore) {
            (Some(c), Some(p)) => (s, Some((c, p))),
            _ => (with_status(s, "恢复预检状态已失效，请重新执行预检"@, true), None),
        }
    }
}

/// What the host is to do once it tried to begin the confirmation.
pub enum ConfirmAction {
    /// Finish the confirmed restore in the background, then call
    /// `finish_import`.
    Finish,
    /// Run this cancellation of the pending preview.
    Cancel(CancelRequest),
    /// Put the coordinator, if there is one, in its cancel-failure terminal
    /// state.
    EnterTerminal,
}

/// The status while a confirmed restore runs.
pub open spec fn restoring_message() -> Seq<char> {
    "正在恢复；Store 已冻结，完成后必须重启 HiveGUI"@
}

/// The outcome of beginning the confirmation. Begun: the restart is now
/// required and the restore runs. Refused: the precheck is dropped; a
/// preview that can still be cancelled is cancelled (reporting when done),
/// otherwise the view enters the restart-required terminal state.
pub open spec fn confirmation_spec(s: SettingsState, started: bool, cancelable: bool) -> SettingsState {
    if started {
        with_status(SettingsState { restore_restart_required: true, is_importing: true, ..s }, restoring_message(), false)
    } else {
        let t = SettingsState {
            is_restoring_prechecked: false,
            is_replacement_confirmed: false,
            restore_impact_preview: restore_prompt(),
            is_importing: false,
            ..s
        };
        if cancelable {
            with_status(SettingsState { restore_preview_busy: true, ..t },
                "恢复确认未完成；正在安全取消本次预检，完成后请重新预检"@, true)
        } else {
            with_status(SettingsState { restore_restart_required: true, restore_preview_busy: true, ..t },
                "恢复确认未能安全完成；Store 已进入保护状态，必须重启 HiveGUI 进行恢复校验"@, true)
        }
    }
}

/// How a confirmed restore ended.
pub enum RestoreOutcome {
    /// The restore completed.
    Restored,
    /// It failed before the safety backup was verified.
    NotVerified,
    /// It failed after the safety backup was verified.
    Verified,
    /// It failed and the safety backup binding was invalidated.
    Invalidated,
    /// The background task itself failed.
    TaskFailed,
}

/// The status after a confirmed restore ended (`safety_path` is where the
/// safety backup was planned).
pub open spec fn finish_import_spec(s: SettingsState, safety_path: Seq<char>, outcome: RestoreOutcome) -> SettingsState {
    let t = SettingsState { is_importing: false, ..s };
    match outcome {
        RestoreOutcome::Restored => with_status(SettingsState {
            is_restoring_prechecked: false,
            is_replacement_confirmed: false,
            prepared_restore: None,
            ..t
        }, "恢复完成：安全备份已验证："@ + safety_path + "；Store 已冻结，必须重启 HiveGUI 后继续"@, false),
        RestoreOutcome::NotVerified => with_status(t,
            "恢复未完成：安全备份尚未验证，尚未进入数据切换；Store 已冻结，必须重启 HiveGUI 进行恢复校验"@, true),
        RestoreOutcome::Verified => with_status(t,
            "恢复未完成：安全备份已验证："@ + safety_path + "；数据切换或收口未完成；Store 已冻结，必须重启 HiveGUI 进行恢复校验"@, true),
        RestoreOutcome::Invalidated => with_status(t,
            "恢复未完成：安全备份绑定已失效，安全备份状态及数据切换阶段无法确认；Store 已冻结，必须重启 HiveGUI 进行恢复校验"@, true),
        RestoreOutcome::TaskFailed => with_status(t,
            "恢复后台任务异常结束：安全备份状态及数据切换阶段无法确认；Store 已冻结，必须重启 HiveGUI 进行恢复校验"@, true),
    }
}

/// The default diagnostic export path for an id text.
pub open spec fn diagnostic_path_spec(id: Seq<char>) -> Seq<char> {
    "./hivegui-diagnostic-"@ + id + ".json"@
}

/// The default diagnostic export path for the UUID text `id`.
pub fn default_diagnostic_path(id: &str) -> (r: String)
    ensures
        r@ == diagnostic_path_spec(id@),
{
    let mut r = String::from_str("./hivegui-diagnostic-");
    r.append(id);
    r.append(".json");
    r
}

/// The state of a new view: nothing bound, the default paths (the
/// diagnostic one named by `diagnostic_id`) and retention, no precheck.
pub open spec fn new_view_spec(s: SettingsState, has_collector: bool, diagnostic_id: Seq<char>) -> bool {
    &&& s.store is None
    &&& s.has_collector == has_collector
    &&& s.export_path == "./hivegui-export.age.tar"@
    &&& s.import_path.len() == 0
    &&& s.diagnostic_path == diagnostic_path_spec(diagnostic_id)
    &&& s.retention_days == "365"@
    &&& s.backup_passphrase.len() == 0
    &&& s.restore_impact_preview == restore_prompt()
    &&& s.restore_coordinator is None
    &&& s.prepared_restore is None
    &&& !s.restore_restart_required
    &&& s.restore_preview_generation == 0
    &&& !s.restore_preview_busy
    &&& !s.retention_loaded
    &&& !s.is_exporting
    &&& !s.is_importing
    &&& !s.is_restoring_prechecked
    &&& !s.is_replacement_confirmed
    &&& !s.is_exporting_diagnostic
    &&& s.status_message is None
    &&& !s.is_error
}

/// Asking to save the retention days: the trimmed text must be a whole
/// number above zero, and a store must be bound. Returns the days to save.
pub open spec fn save_retention_spec(s: SettingsState) -> (SettingsState, Option<u64>) {
    match parse_u64_spec(trim_seq(s.retention_days)) {
        Some(days) if days > 0 => if s.store is Some {
            (with_status(s, "正在保存保留期..."@, false), Some(days))
        } else {
            (with_status(s, "Store 未就绪，无法保存会话保留期"@, true), None)
        },
        _ => (with_status(s, "保留期必须是大于 0 的整数"@, true), None),
    }
}

/// The status after saving `days` as the retention ended.
pub open spec fn finish_save_retention_spec(s: SettingsState, days: u64, outcome: Result<(), Seq<char>>) -> SettingsState {
    match outcome {
        Ok(_) => with_status(s, "会话保留期已持久化为 "@ + decimal(days as nat) + " 天（已应用）"@, false),
        Err(e) => with_status(s, "保存会话保留期失败："@ + e, true),
    }
}

/// Asking for the retention cleanup preview: a store must be bound; the
/// retention text, parsed as an `i64` where it is one, goes with it.
pub open spec fn preview_retention_spec(s: SettingsState) -> (SettingsState, Option<Option<i64>>) {
    if s.store is None {
        (with_status(s, "Store 未就绪，无法预览清理影响"@, true), None)
    } else {
        (s, Some(parse_i64_spec(s.retention_days)))
    }
}

/// The status after a retention cleanup preview ended.
pub open spec fn finish_preview_retention_spec(s: SettingsState, outcome: Result<u64, Seq<char>>) -> SettingsState {
    match outcome {
        Ok(count) => with_status(s, "预计清理过期会话 "@ + decimal(count as nat) + " 条"@, false),
        Err(e) => with_status(s, "预览会话清理影响失败："@ + e, true),
    }
}

/// Asking for the diagnostic export: a collector must be connected and the
/// path must not be empty.
pub open spec fn diagnostic_export_spec(s: SettingsState) -> (SettingsState, bool) {
    if !s.has_collector {
        (with_status(s, "诊断采集器未接入"@, true), false)
    } else if s.diagnostic_path.len() == 0 {
        (with_status(s, "请输入诊断导出路径"@, true), false)
    } else {
        (with_status(SettingsState { is_exporting_diagnostic: true, ..s }, "正在导出脱敏诊断样例..."@, false), true)
    }
}

/// How the diagnostic export ended.
pub enum DiagnosticOutcome {
    /// Written to this path, with this many events.
    Exported(String, u64),
    /// The export failed (the error's text).
    Failed(String),
    /// The background task itself failed (the error's text).
    TaskFailed(String),
}

/// The status after the diagnostic export ended.
pub open spec fn finish_diagnostic_spec(s: SettingsState, outcome: DiagnosticOutcome) -> SettingsState {
    let t = SettingsState { is_exporting_diagnostic: false, ..s };
    match outcome {
        DiagnosticOutcome::Exported(path, events) => with_status(t,
            "诊断导出成功："@ + path@ + " (events="@ + decimal(events as nat) + ")"@, false),
        DiagnosticOutcome::Failed(e) => with_status(t, "诊断导出失败："@ + e@, true),
        DiagnosticOutcome::TaskFailed(e) => with_status(t, "诊断导出后台任务失败："@ + e@, true),
    }
}

/// The retention, in days, that a stored setting gives: the stored text as
/// a `u64`, or 365 where it is missing or no number.
pub open spec fn stored_retention_days(stored: Option<Seq<char>>) -> u64 {
    match stored {
        Some(v) => match parse_u64_spec(v) {
            Some(d) => d,
            None => 365,
        },
        None => 365,
    }
}

/// The impact text of a passed restore preview: the isolated instance it
/// materialised, what a full replacement affects and how much the current
/// instance holds, and where the safety backup will go.
pub open spec fn impact_text_spec(operation_id: Seq<char>, chat_sessions: int, chat_messages: int, agent_executions: int, safety_path: Seq<char>) -> Seq<char> {
    "恢复预检通过：归档已完整认证并物化为隔离的未激活恢复实例 "@ + operation_id
        + "。完整替换影响：现有数据库与托管 Plugin 制品将被完整替换，不会合并 identifier、ID 或 updated_at；当前实例包含会话 "@
        + signed_decimal(chat_sessions) + " 条、消息 "@ + signed_decimal(chat_messages) + " 条、执行 "@
        + signed_decimal(agent_executions) + " 条。确认后将在 Store 冻结周期生成并验证安全备份，计划位置："@
        + safety_path + "。"@
}

/// The impact text of a passed restore preview; see `impact_text_spec`.
pub fn restore_impact_text(operation_id: &str, chat_sessions: i64, chat_messages: i64, agent_executions: i64, safety_path: &str) -> (r: String)
    ensures
        r@ == impact_text_spec(operation_id@, chat_sessions as int, chat_messages as int, agent_executions as int, safety_path@),
{
    let mut r = String::from_str("恢复预检通过：归档已完整认证并物化为隔离的未激活恢复实例 ");
    r.append(operation_id);
    r.append("。完整替换影响：现有数据库与托管 Plugin 制品将被完整替换，不会合并 identifier、ID 或 updated_at；当前实例包含会话 ");
    push_signed_decimal(&mut r, chat_sessions);
    r.append(" 条、消息 ");
    push_signed_decimal(&mut r, chat_messages);
    r.append(" 条、执行 ");
    push_signed_decimal(&mut r, agent_executions);
    r.append(" 条。确认后将在 Store 冻结周期生成并验证安全备份，计划位置：");
    r.append(safety_path);
    r.append("。");
    r
}

/// A restore input (the import path or the passphrase) took `value`: the
/// input change is handled (see `input_change_spec`), then the status
/// clears.
pub open spec fn restore_input_spec(s: SettingsState, value: Seq<char>, is_path: bool) -> (SettingsState, Option<(u64, u64)>) {
    let t = if is_path {
        SettingsState { import_path: value, ..s }
    } else {
        SettingsState { backup_passphrase: value, ..s }
    };
    let (u, pair) = input_change_spec(t);
    (clear_status_spec(u), pair)
}

impl SettingsView {
    /// Binds the store; a view keeps the first store it was given.
    pub fn set_store(&mut self, store: u64)
        ensures
            final(self)@ == set_store_spec(old(self)@, store),
    {
        if self.store.is_some() {
            return;
        }
        self.store = Some(store);
        self.retention_loaded = false;
        self.is_restoring_prechecked = false;
        self.is_replacement_confirmed = false;
        self.restore_coordinator = None;
        self.prepared_restore = None;
        self.restore_restart_required = false;
        self.restore_impact_preview = String::from_str("恢复前请先预检");
        assert(self@ =~= set_store_spec(old(self)@, store));
    }

    /// Clears the status line, unless a restart is required.
    pub fn clear_status(&mut self)
        ensures
            final(self)@ == clear_status_spec(old(self)@),
    {
        if self.restore_restart_required {
            return;
        }
        self.status_message = None;
        self.is_error = false;
        assert(self@ =~= clear_status_spec(old(self)@));
    }

    /// Hands the pending pair to the host for cancellation; the view keeps
    /// it, busy, until the outcome comes back.
    fn cancel_exact_restore_preview(&mut self, coordinator: u64, prepared: u64, report_success: bool) -> (r: CancelRequest)
        ensures
            final(self)@ == (SettingsState {
                restore_preview_busy: true,
                restore_coordinator: Some(coordinator),
                prepared_restore: Some(prepared),
                ..old(self)@
            }),
            r == (CancelRequest { coordinator, prepared, report_success }),
    {
        self.restore_preview_busy = true;
        self.restore_coordinator = Some(coordinator);
        self.prepared_restore = Some(prepared);
        let ghost t = SettingsState {
            restore_preview_busy: true,
            restore_coordinator: Some(coordinator),
            prepared_restore: Some(prepared),
            ..old(self)@
        };
        assert(self@ =~= t);
        CancelRequest { coordinator, prepared, report_success }
    }

    /// A restore input (path or passphrase) changed; see `input_change_spec`.
    /// Returns the cancellation to run, if any.
    pub fn cancel_completed_restore_preview_after_input_change(&mut self) -> (r: Option<CancelRequest>)
        ensures
            final(self)@ == input_change_spec(old(self)@).0,
            r == (match input_change_spec(old(self)@).1 {
                Some((c, p)) => Some(CancelRequest { coordinator: c, prepared: p, report_success: false }),
                None => None,
            }),
    {
        if self.restore_restart_required {
            return None;
        }
        self.restore_preview_generation = self.restore_preview_generation.wrapping_add(1);
        self.is_restoring_prechecked = false;
        self.is_replacement_confirmed = false;
        self.restore_impact_preview = String::from_str("恢复前请先预检");
        let ghost t = self@;
        assert(t =~= SettingsState {
            restore_preview_generation: next_generation(old(self)@.restore_preview_generation),
            is_restoring_prechecked: false,
            is_replacement_confirmed: false,
            restore_impact_preview: restore_prompt(),
            ..old(self)@
        });
        if self.restore_preview_busy {
            return None;
        }
        let prepared = match self.prepared_restore.take() {
            Some(p) => p,
            None => return None,
        };
        let coordinator = match self.restore_coordinator.take() {
            Some(c) => c,
            None => {
                self.prepared_restore = Some(prepared);
                assert(self@ =~= t);
                return None;
            },
        };
        let r = self.cancel_exact_restore_preview(coordinator, prepared, false);
        assert(self@ =~= SettingsState { restore_preview_busy: true, ..t });
        Some(r)
    }

    /// A cancellation reported back; see `cancel_outcome_spec`. Returns
    /// whether the coordinator must enter its cancel-failure terminal state
    /// (it must after any failed cancellation).
    pub fn cancel_outcome(&mut self, prepared: u64, report_success: bool, succeeded: bool) -> (r: bool)
        ensures
            final(self)@ == cancel_outcome_spec(old(self)@, prepared, report_success, succeeded),
            r == !succeeded,
    {
        let exact = self.restore_coordinator.is_some() && match self.prepared_restore {
            Some(p) => p == prepared,
            None => false,
        };
        if succeeded {
            if self.restore_restart_required || !exact {
                return false;
            }
            self.restore_coordinator = None;
            self.prepared_restore = None;
            self.restore_preview_busy = false;
            if report_success {
                self.set_status(String::from_str("本次预检已取消，请重新预检"), false);
            }
            assert(self@ =~= cancel_outcome_spec(old(self)@, prepared, report_success, succeeded));
            return false;
        }
        if exact {
            self.restore_restart_required = true;
            self.restore_preview_busy = true;
            self.is_restoring_prechecked = false;
            self.is_replacement_confirmed = false;
            self.restore_impact_preview = String::from_str("恢复前请先预检");
            self.set_status(String::from_str("恢复预检清理未能安全完成；Store 已锁定，必须重启 HiveGUI"), true);
            assert(self@ =~= cancel_outcome_spec(old(self)@, prepared, report_success, succeeded));
        }
        true
    }

    /// A restore preview finished; see `preview_outcome_spec`. Returns the
    /// cancellation to run for a stale prepared pair.
    pub fn apply_restore_preview_outcome(&mut self, generation: u64, outcome: Result<(u64, u64, String), String>) -> (r: Option<CancelRequest>)
        ensures
            final(self)@ == preview_outcome_spec(old(self)@, generation, outcome_view(outcome)).0,
            r == (match preview_outcome_spec(old(self)@, generation, outcome_view(outcome)).1 {
                Some((c, p)) => Some(CancelRequest { coordinator: c, prepared: p, report_success: false }),
                None => None,
            }),
    {
        let ghost s0 = self@;
        if generation != self.restore_preview_generation {
            match outcome {
                Ok((coordinator, prepared, _impact)) => {
                    let r = self.cancel_exact_restore_preview(coordinator, prepared, false);
                    return Some(r);
                },
                Err(_error) => {
                    self.restore_preview_busy = false;
                    assert(self@ =~= preview_outcome_spec(s0, generation, outcome_view(outcome)).0);
                    return None;
                },
            }
        }
        self.restore_preview_busy = false;
        match outcome {
            Ok((coordinator, prepared, impact)) => {
                self.restore_coordinator = Some(coordinator);
                self.prepared_restore = Some(prepared);
                self.restore_impact_preview = impact;
                self.is_restoring_prechecked = true;
                self.is_replacement_confirmed = false;
                self.set_status(String::from_str("恢复预检通过"), false);
            },
            Err(error) => {
                self.restore_coordinator = None;
                self.prepared_restore = None;
                self.restore_impact_preview = String::from_str("恢复前请先预检");
                self.is_restoring_prechecked = false;
                let mut msg = String::from_str("恢复预检失败：");
                msg.append(error.as_str());
                self.set_status(msg, true);
            },
        }
        assert(self@ =~= preview_outcome_spec(s0, generation, outcome_view(outcome)).0);
        None
    }

    /// Asks for a restore preview; see `preview_restore_spec`.
    /// `import_file_exists` tells whether the import path names an existing
    /// file.
    pub fn preview_restore(&mut self, import_file_exists: bool) -> (r: Option<PreviewRequest>)
        ensures
            final(self)@ == preview_restore_spec(old(self)@, import_file_exists).0,
            r is Some == preview_restore_spec(old(self)@, import_file_exists).1,
            r matches Some(q) ==> {
                &&& old(self).store == Some(q.store)
                &&& q.path@ == old(self).import_path@
                &&& q.passphrase@ == old(self).backup_passphrase@
                &&& q.generation == old(self).restore_preview_generation
            },
    {
        let ghost s0 = self@;
        if self.restore_restart_required {
            return None;
        }
        if self.restore_coordinator.is_some() || self.prepared_restore.is_some() {
            self.set_status(String::from_str("已有恢复预检等待处理；请确认恢复或修改恢复输入后再试"), true);
            return None;
        }
        if self.restore_preview_busy {
            self.set_status(String::from_str("恢复预检仍在处理中，请等待当前预检安全收口"), true);
            return None;
        }
        let store = match self.store {
            Some(st) => st,
            None => {
                self.set_status(String::from_str("Store 未就绪"), true);
                return None;
            },
        };
        if is_blank(self.import_path.as_str()) {
            self.set_status(String::from_str("请输入恢复文件路径"), true);
            return None;
        }
        if is_blank(self.backup_passphrase.as_str()) {
            self.set_status(String::from_str("恢复前请先输入备份口令"), true);
            return None;
        }
        if !import_file_exists {
            self.set_status(String::from_str("恢复文件不存在"), true);
            return None;
        }
        let request = PreviewRequest {
            store,
            path: self.import_path.clone(),
            passphrase: self.backup_passphrase.clone(),
            generation: self.restore_preview_generation,
        };
        self.restore_preview_busy = true;
        self.set_status(String::from_str("正在预检恢复内容..."), false);
        assert(self@ =~= preview_restore_spec(s0, import_file_exists).0);
        Some(request)
    }

    /// Asks for a backup export; see `do_export_spec`.
    pub fn do_export(&mut self) -> (r: Option<ExportRequest>)
        ensures
            final(self)@ == do_export_spec(old(self)@).0,
            r is Some == do_export_spec(old(self)@).1,
            r matches Some(q) ==> {
                &&& old(self).store == Some(q.store)
                &&& q.path@ == old(self).export_path@
                &&& q.passphrase@ == old(self).backup_passphrase@
            },
    {
        let ghost s0 = self@;
        let store = match self.store {
            Some(st) => st,
            None => {
                self.set_status(String::from_str("Store 未就绪"), true);
                return None;
            },
        };
        if is_blank(self.backup_passphrase.as_str()) {
            self.set_status(String::from_str("请先输入备份口令"), true);
            return None;
        }
        if self.export_path.as_str().unicode_len() == 0 {
            self.set_status(String::from_str("请输入导出路径"), true);
            return None;
        }
        let request = ExportRequest {
            store,
            path: self.export_path.clone(),
            passphrase: self.backup_passphrase.clone(),
        };
        self.is_exporting = true;
        self.set_status(String::from_str("正在导出..."), false);
        assert(self@ =~= do_export_spec(s0).0);
        Some(request)
    }

    /// An export to `path` ended; see `finish_export_spec`.
    pub fn finish_export(&mut self, path: &str, outcome: ExportOutcome)
        ensures
            final(self)@ == finish_export_spec(old(self)@, path@, outcome),
    {
        let ghost s0 = self@;
        self.is_exporting = false;
        match outcome {
            ExportOutcome::Exported => {
                let mut msg = String::from_str("导出完成：");
                msg.append(path);
                msg.append("（加密备份已验证；Store 已冻结，请重启后继续写入）");
                self.set_status(msg, false);
            },
            ExportOutcome::NotStarted(e) => {
                let mut msg = String::from_str("导出失败：");
                msg.append(e.as_str());
                self.set_status(msg, true);
            },
            ExportOutcome::ConfirmFailed(e) => {
                let mut msg = String::from_str("导出失败：");
                msg.append(e.as_str());
                msg.append("；Store 已冻结，请重启后继续写入");
                self.set_status(msg, true);
            },
            ExportOutcome::TaskFailed(e) => {
                let mut msg = String::from_str("导出后台任务失败：");
                msg.append(e.as_str());
                self.set_status(msg, true);
            },
        }
        assert(self@ =~= finish_export_spec(s0, path@, outcome));
    }

    /// Asks for the restore; see `begin_import_spec`. Returns the pending
    /// pair whose confirmation the host is to begin.
    pub fn begin_import(&mut self) -> (r: Option<(u64, u64)>)
        ensures
            final(self)@ == begin_import_spec(old(self)@).0,
            r == begin_import_spec(old(self)@).1,
    {
        let ghost s0 = self@;
        if self.restore_restart_required {
            return None;
        }
        if self.store.is_none() {
            self.set_status(String::from_str("Store 未就绪"), true);
            return None;
        }
        if is_blank(self.backup_passphrase.as_str()) {
            self.set_status(String::from_str("恢复前请先输入备份口令"), true);
            return None;
        }
        if !self.is_restoring_prechecked {
            self.set_status(String::from_str("请先执行恢复预检"), true);
            return None;
        }
        if !self.is_replacement_confirmed {
            self.set_status(String::from_str("请先确认完整替换"), true);
            return None;
        }
        if self.import_path.as_str().unicode_len() == 0 {
            self.set_status(String::from_str("请输入恢复路径"), true);
            return None;
        }
        match (self.restore_coordinator, self.prepared_restore) {
            (Some(c), Some(p)) => Some((c, p)),
            _ => {
                self.set_status(String::from_str("恢复预检状态已失效，请重新执行预检"), true);
                None
            },
        }
    }

    /// The host tried to begin the confirmation of the pending pair:
    /// `started` tells whether it began, `cancelable` whether the preview
    /// can still be cancelled; see `confirmation_spec`.
    pub fn confirmation_begun(&mut self, started: bool, cancelable: bool) -> (r: ConfirmAction)
        requires
            !started && cancelable ==> old(self).restore_coordinator is Some && old(self).prepared_restore is Some,
        ensures
            final(self)@ == confirmation_spec(old(self)@, started, cancelable),
            started ==> r is Finish,
            !started && cancelable ==> r == ConfirmAction::Cancel(CancelRequest {
                coordinator: old(self).restore_coordinator->Some_0,
                prepared: old(self).prepared_restore->Some_0,
                report_success: true,
            }),
            !started && !cancelable ==> r is EnterTerminal,
    {
        let ghost s0 = self@;
        if started {
            self.restore_restart_required = true;
            self.is_importing = true;
            self.set_status(String::from_str("正在恢复；Store 已冻结，完成后必须重启 HiveGUI"), false);
            assert(self@ =~= confirmation_spec(s0, started, cancelable));
            return ConfirmAction::Finish;
        }
        self.is_restoring_prechecked = false;
        self.is_replacement_confirmed = false;
        self.restore_impact_preview = String::from_str("恢复前请先预检");
        self.is_importing = false;
        if cancelable {
            let coordinator = match self.restore_coordinator.take() {
                Some(c) => c,
                None => 0,
            };
            let prepared = match self.prepared_restore.take() {
                Some(p) => p,
                None => 0,
            };
            self.set_status(String::from_str("恢复确认未完成；正在安全取消本次预检，完成后请重新预检"), true);
            let r = self.cancel_exact_restore_preview(coordinator, prepared, true);
            assert(self@ =~= confirmation_spec(s0, started, cancelable));
            return ConfirmAction::Cancel(r);
        }
        self.restore_restart_required = true;
        self.restore_preview_busy = true;
        self.set_status(String::from_str("恢复确认未能安全完成；Store 已进入保护状态，必须重启 HiveGUI 进行恢复校验"), true);
        assert(self@ =~= confirmation_spec(s0, started, cancelable));
        ConfirmAction::EnterTerminal
    }

    /// A confirmed restore ended; see `finish_import_spec`.
    pub fn finish_import(&mut self, safety_path: &str, outcome: RestoreOutcome)
        ensures
            final(self)@ == finish_import_spec(old(self)@, safety_path@, outcome),
    {
        let ghost s0 = self@;
        self.is_importing = false;
        match outcome {
            RestoreOutcome::Restored => {
                let mut msg = String::from_str("恢复完成：安全备份已验证：");
                msg.append(safety_path);
                msg.append("；Store 已冻结，必须重启 HiveGUI 后继续");
                self.set_status(msg, false);
                self.is_restoring_prechecked = false;
                self.is_replacement_confirmed = false;
                self.prepared_restore = None;
            },
            RestoreOutcome::NotVerified => {
                self.set_status(String::from_str("恢复未完成：安全备份尚未验证，尚未进入数据切换；Store 已冻结，必须重启 HiveGUI 进行恢复校验"), true);
            },
            RestoreOutcome::Verified => {
                let mut msg = String::from_str("恢复未完成：安全备份已验证：");
                msg.append(safety_path);
                msg.append("；数据切换或收口未完成；Store 已冻结，必须重启 HiveGUI 进行恢复校验");
                self.set_status(msg, true);
            },
            RestoreOutcome::Invalidated => {
                self.set_status(String::from_str("恢复未完成：安全备份绑定已失效，安全备份状态及数据切换阶段无法确认；Store 已冻结，必须重启 HiveGUI 进行恢复校验"), true);
            },
            RestoreOutcome::TaskFailed => {
                self.set_status(String::from_str("恢复后台任务异常结束：安全备份状态及数据切换阶段无法确认；Store 已冻结，必须重启 HiveGUI 进行恢复校验"), true);
            },
        }
        assert(self@ =~= finish_import_spec(s0, safety_path@, outcome));
    }

    /// A new view. The diagnostic export path is named by `diagnostic_id`,
    /// which the host draws at random (a version 4 UUID's text).
    pub fn new(has_collector: bool, diagnostic_id: &str) -> (r: Self)
        ensures
            new_view_spec(r@, has_collector, diagnostic_id@),
    {
        let r = SettingsView {
            store: None,
            has_collector,
            export_path: String::from_str("./hivegui-export.age.tar"),
            import_path: String::new(),
            diagnostic_path: default_diagnostic_path(diagnostic_id),
            retention_days: String::from_str("365"),
            backup_passphrase: String::new(),
            restore_impact_preview: String::from_str("恢复前请先预检"),
            restore_coordinator: None,
            prepared_restore: None,
            restore_restart_required: false,
            restore_preview_generation: 0,
            restore_preview_busy: false,
            retention_loaded: false,
            is_exporting: false,
            is_importing: false,
            is_restoring_prechecked: false,
            is_replacement_confirmed: false,
            is_exporting_diagnostic: false,
            status_message: None,
            is_error: false,
        };
        r
    }

    /// Asks to save the retention days; see `save_retention_spec`.
    /// Returns the days for the host to store.
    pub fn save_retention(&mut self) -> (r: Option<u64>)
        ensures
            final(self)@ == save_retention_spec(old(self)@).0,
            r == save_retention_spec(old(self)@).1,
    {
        let c = chars_of(self.retention_days.as_str());
        let t = trimmed(c.as_slice());
        match parse_u64(t.as_slice()) {
            Some(days) => {
                if days > 0 {
                    if self.store.is_some() {
                        self.set_status(String::from_str("正在保存保留期..."), false);
                        return Some(days);
                    }
                    self.set_status(String::from_str("Store 未就绪，无法保存会话保留期"), true);
                    return None;
                }
            },
            None => {},
        }
        self.set_status(String::from_str("保留期必须是大于 0 的整数"), true);
        None
    }

    /// Saving the retention ended; see `finish_save_retention_spec`.
    pub fn finish_save_retention(&mut self, days: u64, outcome: Result<(), String>)
        ensures
            final(self)@ == finish_save_retention_spec(old(self)@, days, match outcome {
                Ok(u) => Ok(u),
                Err(e) => Err(e@),
            }),
    {
        match outcome {
            Ok(_) => {
                let mut msg = String::from_str("会话保留期已持久化为 ");
                push_decimal(&mut msg, days);
                msg.append(" 天（已应用）");
                self.set_status(msg, false);
            },
            Err(e) => {
                let mut msg = String::from_str("保存会话保留期失败：");
                msg.append(e.as_str());
                self.set_status(msg, true);
            },
        }
    }

    /// Asks for the retention cleanup preview; see `preview_retention_spec`.
    /// Returns the retention to preview with.
    pub fn preview_retention(&mut self) -> (r: Option<Option<i64>>)
        ensures
            final(self)@ == preview_retention_spec(old(self)@).0,
            r == preview_retention_spec(old(self)@).1,
    {
        if self.store.is_none() {
            self.set_status(String::from_str("Store 未就绪，无法预览清理影响"), true);
            return None;
        }
        let c = chars_of(self.retention_days.as_str());
        Some(parse_i64(c.as_slice()))
    }

    /// The retention cleanup preview ended; see
    /// `finish_preview_retention_spec`.
    pub fn finish_preview_retention(&mut self, outcome: Result<u64, String>)
        ensures
            final(self)@ == finish_preview_retention_spec(old(self)@, match outcome {
                Ok(n) => Ok(n),
                Err(e) => Err(e@),
            }),
    {
        match outcome {
            Ok(count) => {
                let mut msg = String::from_str("预计清理过期会话 ");
                push_decimal(&mut msg, count);
                msg.append(" 条");
                self.set_status(msg, false);
            },
            Err(e) => {
                let mut msg = String::from_str("预览会话清理影响失败：");
                msg.append(e.as_str());
                self.set_status(msg, true);
            },
        }
    }

    /// Escape withdraws the replacement confirmation.
    pub fn on_escape(&mut self)
        ensures
            final(self)@ == (SettingsState { is_replacement_confirmed: false, ..old(self)@ }),
    {
        self.is_replacement_confirmed = false;
        assert(self@ =~= SettingsState { is_replacement_confirmed: false, ..old(self)@ });
    }

    /// The replacement confirmation checkbox was clicked.
    pub fn toggle_replacement_confirmed(&mut self)
        ensures
            final(self)@ == (SettingsState { is_replacement_confirmed: !old(self).is_replacement_confirmed, ..old(self)@ }),
    {
        self.is_replacement_confirmed = !self.is_replacement_confirmed;
        assert(self@ =~= SettingsState { is_replacement_confirmed: !old(self).is_replacement_confirmed, ..old(self)@ });
    }

    /// Asks for the diagnostic export; see `diagnostic_export_spec`.
    /// Returns the path to export to.
    pub fn export_diagnostic_bundle(&mut self) -> (r: Option<String>)
        ensures
            final(self)@ == diagnostic_export_spec(old(self)@).0,
            r is Some == diagnostic_export_spec(old(self)@).1,
            r matches Some(p) ==> p@ == old(self).diagnostic_path@,
    {
        let ghost s0 = self@;
        if !self.has_collector {
            self.set_status(String::from_str("诊断采集器未接入"), true);
            return None;
        }
        if self.diagnostic_path.as_str().unicode_len() == 0 {
            self.set_status(String::from_str("请输入诊断导出路径"), true);
            return None;
        }
        let path = self.diagnostic_path.clone();
        self.is_exporting_diagnostic = true;
        self.set_status(String::from_str("正在导出脱敏诊断样例..."), false);
        assert(self@ =~= diagnostic_export_spec(s0).0);
        Some(path)
    }

    /// The diagnostic export ended; see `finish_diagnostic_spec`.
    pub fn finish_diagnostic_export(&mut self, outcome: DiagnosticOutcome)
        ensures
            final(self)@ == finish_diagnostic_spec(old(self)@, outcome),
    {
        let ghost s0 = self@;
        self.is_exporting_diagnostic = false;
        match outcome {
            DiagnosticOutcome::Exported(path, events) => {
                let mut msg = String::from_str("诊断导出成功：");
                msg.append(path.as_str());
                msg.append(" (events=");
                push_decimal(&mut msg, events);
                msg.append(")");
                self.set_status(msg, false);
            },
            DiagnosticOutcome::Failed(e) => {
                let mut msg = String::from_str("诊断导出失败：");
                msg.append(e.as_str());
                self.set_status(msg, true);
            },
            DiagnosticOutcome::TaskFailed(e) => {
                let mut msg = String::from_str("诊断导出后台任务失败：");
                msg.append(e.as_str());
                self.set_status(msg, true);
            },
        }
        assert(self@ =~= finish_diagnostic_spec(s0, outcome));
    }

    /// Whether the stored retention is to be loaded now: once, after a store
    /// is bound.
    pub fn begin_retention_load(&mut self) -> (r: bool)
        ensures
            r == (old(self).store is Some && !old(self).retention_loaded),
            final(self)@ == (SettingsState { retention_loaded: old(self).retention_loaded || r, ..old(self)@ }),
    {
        if self.store.is_some() && !self.retention_loaded {
            self.retention_loaded = true;
            assert(self@ =~= SettingsState { retention_loaded: true, ..old(self)@ });
            return true;
        }
        assert(self@ =~= SettingsState { retention_loaded: old(self).retention_loaded, ..old(self)@ });
        false
    }

    /// Takes the stored retention setting (`None` where it is missing or
    /// could not be read); see `stored_retention_days`.
    pub fn apply_loaded_retention(&mut self, stored: Option<&str>)
        ensures
            final(self)@ == (SettingsState {
                retention_days: decimal(stored_retention_days(match stored {
                    Some(v) => Some(v@),
                    None => None,
                }) as nat),
                retention_loaded: true,
                ..old(self)@
            }),
    {
        let days: u64 = match stored {
            Some(v) => {
                let c = chars_of(v);
                match parse_u64(c.as_slice()) {
                    Some(d) => d,
                    None => 365,
                }
            },
            None => 365,
        };
        let mut text = String::new();
        push_decimal(&mut text, days);
        self.retention_days = text;
        self.retention_loaded = true;
        assert(self@ =~= SettingsState {
            retention_days: decimal(stored_retention_days(match stored {
                Some(v) => Some(v@),
                None => None,
            }) as nat),
            retention_loaded: true,
            ..old(self)@
        });
    }

    /// The import path input changed; see `restore_input_spec`.
    pub fn on_import_path_changed(&mut self, value: String) -> (r: Option<CancelRequest>)
        ensures
            final(self)@ == restore_input_spec(old(self)@, value@, true).0,
            r == (match restore_input_spec(old(self)@, value@, true).1 {
                Some((c, p)) => Some(CancelRequest { coordinator: c, prepared: p, report_success: false }),
                None => None,
            }),
    {
        self.import_path = value;
        let r = self.cancel_completed_restore_preview_after_input_change();
        self.clear_status();
        r
    }

    /// The passphrase input changed; see `restore_input_spec`.
    pub fn on_backup_passphrase_changed(&mut self, value: String) -> (r: Option<CancelRequest>)
        ensures
            final(self)@ == restore_input_spec(old(self)@, value@, false).0,
            r == (match restore_input_spec(old(self)@, value@, false).1 {
                Some((c, p)) => Some(CancelRequest { coordinator: c, prepared: p, report_success: false }),
                None => None,
            }),
    {
        self.backup_passphrase = value;
        let r = self.cancel_completed_restore_preview_after_input_change();
        self.clear_status();
        r
    }

    /// The export path input changed; the status clears.
    pub fn on_export_path_changed(&mut self, value: String)
        ensures
            final(self)@ == clear_status_spec(SettingsState { export_path: value@, ..old(self)@ }),
    {
        self.export_path = value;
        self.clear_status();
    }

    /// The diagnostic path input changed; the status clears.
    pub fn on_diagnostic_path_changed(&mut self, value: String)
        ensures
            final(self)@ == clear_status_spec(SettingsState { diagnostic_path: value@, ..old(self)@ }),
    {
        self.diagnostic_path = value;
        self.clear_status();
    }

    /// The retention days input changed; the status clears.
    pub fn on_retention_days_changed(&mut self, value: String)
        ensures
            final(self)@ == clear_status_spec(SettingsState { retention_days: value@, ..old(self)@ }),
    {
        self.retention_days = value;
        self.clear_status();
    }

    /// Shows a status line.
    pub fn set_status(&mut self, msg: String, is_error: bool)
        ensures
            final(self)@ == with_status(old(self)@, msg@, is_error),
    {
        self.status_message = Some(msg);
        self.is_error = is_error;
        assert(self@ =~= with_status(old(self)@, msg@, is_error));
    }
}


/// Once a restart is required it stays required: clearing the status keeps
/// the terminal message, no further preview, input change or restore is
/// dispatched, a late successful cancellation changes nothing, and every
/// other outcome keeps the requirement.
pub proof fn lemma_restart_required_is_terminal(s: SettingsState, file_exists: bool, prepared: u64, report: bool,
    succeeded: bool, generation: u64, outcome: Result<(u64, u64, Seq<char>), Seq<char>>, started: bool, cancelable: bool)
    requires
        s.restore_restart_required,
    ensures
        clear_status_spec(s) == s,
        input_change_spec(s) == (s, Option::<(u64, u64)>::None),
        preview_restore_spec(s, file_exists) == (s, false),
        begin_import_spec(s) == (s, Option::<(u64, u64)>::None),
        cancel_outcome_spec(s, prepared, report, true) == s,
        cancel_outcome_spec(s, prepared, report, succeeded).restore_restart_required,
        preview_outcome_spec(s, generation, outcome).0.restore_restart_required,
        confirmation_spec(s, started, cancelable).restore_restart_required,
        s.store is Some ==> set_store_spec(s, prepared) == s,
{
}

/// A view binds one store: later bindings change nothing.
pub proof fn lemma_set_store_binds_once(s: SettingsState, first: u64, second: u64)
    ensures
        set_store_spec(set_store_spec(s, first), second) == set_store_spec(s, first),
        set_store_spec(s, first).store == (match s.store {
            Some(b) => Some(b),
            None => Some(first),
        }),
{
}

/// Restore input changes cancel a ready preview once: the first change
/// hands out exactly the pending pair and keeps it, busy; a second change
/// before the cancellation reports back hands out nothing.
pub proof fn lemma_input_changes_cancel_once(s: SettingsState)
    ensures
        input_change_spec(s).1 matches Some((c, p)) ==> {
            &&& s.restore_coordinator == Some(c)
            &&& s.prepared_restore == Some(p)
            &&& input_change_spec(s).0.restore_coordinator == Some(c)
            &&& input_change_spec(s).0.prepared_restore == Some(p)
            &&& input_change_spec(s).0.restore_preview_busy
        },
        input_change_spec(s).1 is Some ==> input_change_spec(input_change_spec(s).0).1 is None,
{
}

/// A preview outcome from an older generation is never installed: the
/// precheck flag, the impact text and the status stay as they were, and a
/// prepared pair that came back is handed out for cancellation.
pub proof fn lemma_stale_preview_never_installs(s: SettingsState, generation: u64, outcome: Result<(u64, u64, Seq<char>), Seq<char>>)
    requires
        generation != s.restore_preview_generation,
    ensures
        preview_outcome_spec(s, generation, outcome).0.is_restoring_prechecked == s.is_restoring_prechecked,
        preview_outcome_spec(s, generation, outcome).0.restore_impact_preview == s.restore_impact_preview,
        preview_outcome_spec(s, generation, outcome).0.status_message == s.status_message,
        preview_outcome_spec(s, generation, outcome).0.is_error == s.is_error,
        outcome matches Ok((c, p, _)) ==> preview_outcome_spec(s, generation, outcome).1 == Some((c, p)),
        outcome is Err ==> preview_outcome_spec(s, generation, outcome).1 is None,
{
}

/// A preview started before a restore input change comes back stale.
pub proof fn lemma_input_change_makes_running_preview_stale(s: SettingsState, file_exists: bool,
    outcome: Result<(u64, u64, Seq<char>), Seq<char>>)
    requires
        preview_restore_spec(s, file_exists).1,
    ensures
        ({
            let started = preview_restore_spec(s, file_exists).0;
            let changed = input_change_spec(started).0;
            &&& changed.restore_preview_generation != s.restore_preview_generation
            &&& preview_outcome_spec(changed, s.restore_preview_generation, outcome).0.is_restoring_prechecked
                == changed.is_restoring_prechecked
            &&& !changed.is_restoring_prechecked
        }),
{
    let g = s.restore_preview_generation;
    assert(g.wrapping_add(1) != g) by (bit_vector);
}

/// Asking for a preview while a pair is pending is refused and keeps the
/// pair.
pub proof fn lemma_repeated_preview_keeps_pair(s: SettingsState, file_exists: bool)
    requires
        !s.restore_restart_required,
        s.restore_coordinator is Some || s.prepared_restore is Some,
    ensures
        !preview_restore_spec(s, file_exists).1,
        preview_restore_spec(s, file_exists).0.restore_coordinator == s.restore_coordinator,
        preview_restore_spec(s, file_exists).0.prepared_restore == s.prepared_restore,
        preview_restore_spec(s, file_exists).0.status_message
            == Some("已有恢复预检等待处理；请确认恢复或修改恢复输入后再试"@),
{
}

/// A successful cancellation that comes back while a restart is required,
/// or for a pair that is no longer the pending one, changes nothing (so a
/// late success cannot leave the terminal state); for the exact pending
/// pair it clears the pair and the busy flag and, where asked, reports the
/// cancellation.
pub proof fn lemma_cancel_success_delivery(s: SettingsState, prepared: u64, report: bool)
    ensures
        ({
            let t = cancel_outcome_spec(s, prepared, report, true);
            &&& s.restore_restart_required || !exact_pair(s, prepared) ==> t == s
            &&& !s.restore_restart_required && exact_pair(s, prepared) ==> {
                &&& t.restore_coordinator is None
                &&& t.prepared_restore is None
                &&& !t.restore_preview_busy
                &&& !t.restore_restart_required
                &&& report ==> t.status_message == Some(cancelled_message()) && !t.is_error
                &&& !report ==> t.status_message == s.status_message && t.is_error == s.is_error
            }
        }),
{
}

/// A failed cancellation of the exact pending pair is terminal: the view
/// requires a restart, stays busy and says so, and a late success for any
/// pair cannot leave that state.
pub proof fn lemma_cancel_failure_is_terminal(s: SettingsState, prepared: u64, report: bool, late: u64, late_report: bool)
    requires
        exact_pair(s, prepared),
    ensures
        ({
            let t = cancel_outcome_spec(s, prepared, report, false);
            &&& t.restore_restart_required
            &&& t.restore_preview_busy
            &&& !t.is_restoring_prechecked
            &&& t.status_message == Some(cancel_failed_message())
            &&& t.is_error
            &&& cancel_outcome_spec(t, late, late_report, true) == t
        }),
{
}

/// A precheck that passes asks for a fresh confirmation: after a current
/// successful preview the full replacement is unconfirmed, so the restore
/// asked for right after it is refused (for a view that has a store and a
/// passphrase and needs no restart, with the confirmation message).
pub proof fn lemma_passed_precheck_needs_confirmation(s: SettingsState, c: u64, p: u64, impact: Seq<char>)
    ensures
        ({
            let t = preview_outcome_spec(s, s.restore_preview_generation, Ok((c, p, impact))).0;
            &&& t.is_restoring_prechecked
            &&& !t.is_replacement_confirmed
            &&& t.restore_coordinator == Some(c) && t.prepared_restore == Some(p)
            &&& begin_import_spec(t).1 is None
            &&& !s.restore_restart_required && s.store is Some && !blank(s.backup_passphrase)
                ==> begin_import_spec(t).0.status_message == Some("请先确认完整替换"@)
        }),
{
}

} // verus!
