//! The texts of the debugger's panels: message and record summaries, the
//! age of a record, and the history toolbar and pager labels.

use vstd::prelude::*;
use crate::debugger::ExecutionRecord;
use crate::message::{role_label, DebugMessage};
use crate::search::{shorten, shorten_spec};
use crate::text::{decimal, push_decimal};

verus! {

/// The one-line summary of a collapsed message card: its first 40
/// characters, `...` after a cut.
pub fn message_card_summary(content: &str) -> (r: String)
    ensures
        r@ == shorten_spec(content@, 40, "..."@),
{
    shorten(content, 40, "...")
}

/// The history list's summary of a record: its first message, as its role
/// label in brackets and its first 30 characters (`...` after a cut); empty
/// for a record without messages.
pub open spec fn record_summary_spec(messages: Seq<DebugMessage>) -> Seq<char> {
    if messages.len() == 0 {
        Seq::empty()
    } else {
        "["@ + role_label(messages[0].role) + "] "@ + shorten_spec(messages[0].content@, 30, "..."@)
    }
}

/// The history list's summary of a record; see `record_summary_spec`.
pub fn history_record_summary(record: &ExecutionRecord) -> (r: String)
    ensures
        r@ == record_summary_spec(record.messages@),
{
    if record.messages.len() == 0 {
        return String::new();
    }
    let m = &record.messages[0];
    let mut r = String::from_str("[");
    r.append(m.role.label());
    r.append("] ");
    r.append(shorten(m.content.as_str(), 30, "...").as_str());
    r
}

/// How long ago a record ran, from the seconds elapsed (none when the clock
/// is behind the record): under a minute `刚刚`, then whole minutes, hours
/// or days.
pub open spec fn relative_time_spec(now: u64, timestamp: u64) -> Seq<char> {
    let diff: nat = if now > timestamp { (now - timestamp) as nat } else { 0 };
    if diff < 60 {
        "刚刚"@
    } else if diff < 3600 {
        decimal(diff / 60) + "分钟前"@
    } else if diff < 86400 {
        decimal(diff / 3600) + "小时前"@
    } else {
        decimal(diff / 86400) + "天前"@
    }
}

/// How long ago a record ran; see `relative_time_spec`.
pub fn relative_time_text(now: u64, timestamp: u64) -> (r: String)
    ensures
        r@ == relative_time_spec(now, timestamp),
{
    let diff = now.saturating_sub(timestamp);
    if diff < 60 {
        String::from_str("刚刚")
    } else if diff < 3600 {
        let mut r = String::new();
        push_decimal(&mut r, diff / 60);
        r.append("分钟前");
        r
    } else if diff < 86400 {
        let mut r = String::new();
        push_decimal(&mut r, diff / 3600);
        r.append("小时前");
        r
    } else {
        let mut r = String::new();
        push_decimal(&mut r, diff / 86400);
        r.append("天前");
        r
    }
}

/// The select-all button: it clears a complete selection of a non-empty
/// history and selects everything otherwise.
pub fn select_all_label(history_count: usize, selected_count: usize) -> (r: &'static str)
    ensures
        r@ == (if history_count > 0 && selected_count == history_count { "取消全选"@ } else { "全选"@ }),
{
    if history_count > 0 && selected_count == history_count {
        "取消全选"
    } else {
        "全选"
    }
}

/// The delete button: with the number selected, where any is.
pub fn delete_label(selected_count: usize) -> (r: String)
    ensures
        r@ == (if selected_count > 0 { "删除("@ + decimal(selected_count as nat) + ")"@ } else { "删除"@ }),
{
    if selected_count > 0 {
        let mut r = String::from_str("删除(");
        push_decimal(&mut r, selected_count as u64);
        r.append(")");
        r
    } else {
        String::from_str("删除")
    }
}

/// The compare button, shown from two selected records on.
pub fn compare_label(selected_count: usize) -> (r: Option<String>)
    ensures
        selected_count < 2 ==> r is None,
        selected_count >= 2 ==> (r matches Some(t) && t@ == "对比("@ + decimal(selected_count as nat) + ")"@),
{
    if selected_count >= 2 {
        let mut r = String::from_str("对比(");
        push_decimal(&mut r, selected_count as u64);
        r.append(")");
        Some(r)
    } else {
        None
    }
}

/// The pager's position text: the page (counted from one) of the total.
pub fn page_info(page: usize, total_pages: usize) -> (r: String)
    requires
        page < usize::MAX,
    ensures
        r@ == decimal((page + 1) as nat) + "/"@ + decimal(total_pages as nat) + " 页"@,
{
    let mut r = String::new();
    push_decimal(&mut r, page as u64 + 1);
    r.append("/");
    push_decimal(&mut r, total_pages as u64);
    r.append(" 页");
    r
}

/// The count after a list's title.
pub fn count_label(n: usize, unit: &str) -> (r: String)
    ensures
        r@ == "("@ + decimal(n as nat) + unit@ + ")"@,
{
    let mut r = String::from_str("(");
    push_decimal(&mut r, n as u64);
    r.append(unit);
    r.append(")");
    r
}

} // verus!
