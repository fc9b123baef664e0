//! Detached record windows: what a window for a group of records is called,
//! how wide it opens, and the state of the window's own view.

use vstd::prelude::*;
use crate::compare::{detached_title_spec, detached_width_spec, detached_window_title, detached_window_width};
use crate::debugger::{record_ids, ExecutionRecord, History, PromptDebugger, ViewModalTab};
use crate::seqs::keep;
use crate::window_key::window_key_spec;

verus! {

/// Where a record view is shown.
#[derive(Debug, Clone, Copy, PartialEq, Eq, Structural)]
pub enum RecordViewHost {
    /// The dialog of the main window.
    Modal,
    /// A detached window.
    Window,
}

impl RecordViewHost {
    /// The prefix of the view's element selectors: the dialog keeps its
    /// historical one, so that no selector matches in two windows.
    pub fn selector_prefix(&self) -> (r: &'static str)
        ensures
            r@ == (match self {
                RecordViewHost::Modal => "PROMPT_HISTORY_VIEW"@,
                RecordViewHost::Window => "PROMPT_DETACHED"@,
            }),
    {
        match self {
            RecordViewHost::Modal => "PROMPT_HISTORY_VIEW",
            RecordViewHost::Window => "PROMPT_DETACHED",
        }
    }

    /// The prefix of the tab selectors.
    pub fn tab_selector_prefix(&self) -> (r: &'static str)
        ensures
            r@ == (match self {
                RecordViewHost::Modal => "PROMPT_VIEW"@,
                RecordViewHost::Window => "PROMPT_DETACHED"@,
            }),
    {
        match self {
            RecordViewHost::Modal => "PROMPT_VIEW",
            RecordViewHost::Window => "PROMPT_DETACHED",
        }
    }
}

/// How to open a detached window for a group of records.
pub struct DetachedPlan {
    /// The registry key of the group (the same for any order of it).
    pub key: String,
    /// The width in pixels.
    pub width: u32,
    pub title: String,
}

/// How to open a detached window for these records: their key, the width
/// for their number and the title. An empty group opens nothing.
pub fn detached_window_plan(records: &[ExecutionRecord]) -> (r: Option<DetachedPlan>)
    ensures
        records@.len() == 0 ==> r is None,
        records@.len() > 0 ==> (r matches Some(p) && {
            &&& p.key@ == window_key_spec(record_ids(records@))
            &&& p.width == detached_width_spec(records@.len())
            &&& p.title@ == detached_title_spec(records@.len())
        }),
{
    if records.len() == 0 {
        return None;
    }
    Some(DetachedPlan {
        key: PromptDebugger::detached_window_key(records),
        width: detached_window_width(records.len()),
        title: detached_window_title(records.len()),
    })
}

/// The view inside a detached window: the records it shows, its tab and
/// difference filter, and the key it is registered under.
pub struct DetachedRecordView {
    pub records: Vec<ExecutionRecord>,
    pub tab: ViewModalTab,
    pub show_only_diff: bool,
    pub window_key: String,
}

impl DetachedRecordView {
    pub fn new(records: Vec<ExecutionRecord>, tab: ViewModalTab, show_only_diff: bool, window_key: String) -> (r: Self)
        ensures
            r.records@ == records@,
            r.tab == tab,
            r.show_only_diff == show_only_diff,
            r.window_key@ == window_key@,
    {
        DetachedRecordView { records, tab, show_only_diff, window_key }
    }

    /// Switches the difference filter.
    pub fn toggle_only_diff(&mut self)
        ensures
            final(self).show_only_diff == !old(self).show_only_diff,
            final(self).tab == old(self).tab,
            final(self).records == old(self).records,
            final(self).window_key == old(self).window_key,
    {
        self.show_only_diff = !self.show_only_diff;
    }

    /// Shows a tab.
    pub fn set_tab(&mut self, tab: ViewModalTab)
        ensures
            final(self).tab == tab,
            final(self).show_only_diff == old(self).show_only_diff,
            final(self).records == old(self).records,
            final(self).window_key == old(self).window_key,
    {
        self.tab = tab;
    }

    /// The window is closing: it leaves the main view's registry.
    pub fn unregister(&self, parent: &mut History)
        ensures
            final(parent).detached_windows@ == keep(old(parent).detached_windows@, |k: String| k@ == self.window_key@),
            final(parent).records == old(parent).records,
    {
        parent.unregister_detached_window(self.window_key.as_str());
    }
}

} // verus!
