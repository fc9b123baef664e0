//! The prompt library panel: the list and its search, the add/edit form and
//! its checks, and deleting with a confirmation. The host reads and writes
//! the prompts in the store and hands the outcomes back.

use vstd::prelude::*;
use crate::catalog::PromptTemplate;
use crate::search::{flatten_spec, flatten_whitespace, shorten, shorten_spec};
use crate::text::{chars_of, push_signed_decimal, signed_decimal, string_of, trim_seq, trimmed};

verus! {

/// The most prompts a page lists.
pub const PAGE_LIMIT: i64 = 200;

/// The prompt library panel.
pub struct PromptLibraryView {
    /// The prompts of the current page.
    pub prompts: Vec<PromptTemplate>,
    /// How many prompts match the search, over all pages.
    pub total_count: i64,
    pub loading: bool,
    pub search_text: String,
    pub show_form: bool,
    /// The prompt the form edits; `None` while it adds one.
    pub editing_prompt: Option<PromptTemplate>,
    pub form_name: String,
    pub form_content: String,
    pub form_description: String,
    pub error_message: Option<String>,
    /// The prompt waiting for a delete confirmation.
    pub confirm_delete_id: Option<i64>,
}

/// A page of prompts for the host to read: those matching `search` (all of
/// them where it is `None`), at most `PAGE_LIMIT`, and their count.
pub struct LoadRequest {
    pub search: Option<String>,
}

/// A prompt for the host to save: an update of `id`, or a new prompt.
pub struct SaveRequest {
    pub id: Option<i64>,
    pub name: String,
    pub content: String,
    pub description: Option<String>,
}

/// Whether the text is empty once trimmed.
pub open spec fn blank_text(t: Seq<char>) -> bool {
    trim_seq(t).len() == 0
}

/// The search a load uses: the trimmed search text, or none where it is
/// blank.
pub open spec fn search_of(text: Seq<char>) -> Option<Seq<char>> {
    if blank_text(text) { None } else { Some(trim_seq(text)) }
}

/// The view of an optional text.
pub open spec fn opt_text(t: Option<String>) -> Option<Seq<char>> {
    match t {
        Some(s) => Some(s@),
        None => None,
    }
}

/// The trimmed text of `s`.
fn trimmed_string(s: &str) -> (r: String)
    ensures
        r@ == trim_seq(s@),
{
    let c = chars_of(s);
    let t = trimmed(c.as_slice());
    string_of(t.as_slice())
}

/// The form's content checks: the name and then the content must not be
/// blank.
pub open spec fn form_error_spec(name: Seq<char>, content: Seq<char>) -> Option<Seq<char>> {
    if blank_text(name) {
        Some("名称不能为空"@)
    } else if blank_text(content) {
        Some("内容不能为空"@)
    } else {
        None
    }
}

/// The list's placeholder text: while the first page loads, `加载中...`;
/// with no prompts, a hint to add one or, while searching, that nothing
/// matched; with prompts, none.
pub open spec fn empty_list_message_spec(loading: bool, count: nat, search: Seq<char>) -> Option<Seq<char>> {
    if loading && count == 0 {
        Some("加载中..."@)
    } else if count == 0 {
        if blank_text(search) {
            Some("暂无提示词，点击右上角「+ 添加提示词」新建"@)
        } else {
            Some("没有匹配的提示词"@)
        }
    } else {
        None
    }
}

impl PromptLibraryView {
    /// A new panel; its first page is loading (the host reads it with no
    /// search).
    pub fn new() -> (r: Self)
        ensures
            r.prompts@.len() == 0,
            r.total_count == 0,
            r.loading,
            r.search_text@.len() == 0,
            !r.show_form,
            r.editing_prompt is None,
            r.form_name@.len() == 0 && r.form_content@.len() == 0 && r.form_description@.len() == 0,
            r.error_message is None,
            r.confirm_delete_id is None,
    {
        let mut view = PromptLibraryView {
            prompts: Vec::new(),
            total_count: 0,
            loading: false,
            search_text: String::new(),
            show_form: false,
            editing_prompt: None,
            form_name: String::new(),
            form_content: String::new(),
            form_description: String::new(),
            error_message: None,
            confirm_delete_id: None,
        };
        let _first = view.load_prompts();
        view
    }

    /// Starts reading the page for the current search.
    pub fn load_prompts(&mut self) -> (r: LoadRequest)
        ensures
            final(self).loading,
            opt_text(r.search) == search_of(old(self).search_text@),
            final(self).prompts == old(self).prompts,
            final(self).total_count == old(self).total_count,
            final(self).search_text == old(self).search_text,
            final(self).show_form == old(self).show_form,
            final(self).editing_prompt == old(self).editing_prompt,
            final(self).form_name == old(self).form_name,
            final(self).form_content == old(self).form_content,
            final(self).form_description == old(self).form_description,
            final(self).error_message == old(self).error_message,
            final(self).confirm_delete_id == old(self).confirm_delete_id,
    {
        self.loading = true;
        let t = trimmed_string(self.search_text.as_str());
        if t.as_str().unicode_len() == 0 {
            LoadRequest { search: None }
        } else {
            LoadRequest { search: Some(t) }
        }
    }

    /// A page was read: the prompts (`None` where reading failed: an empty
    /// page) and their count (`None` where counting failed: the page's
    /// length).
    pub fn prompts_loaded(&mut self, prompts: Option<Vec<PromptTemplate>>, total: Option<i64>)
        requires
            prompts matches Some(p) ==> p@.len() <= i64::MAX,
        ensures
            final(self).prompts@ == (match prompts {
                Some(p) => p@,
                None => Seq::empty(),
            }),
            final(self).total_count == (match total {
                Some(t) => t,
                None => final(self).prompts@.len() as i64,
            }),
            !final(self).loading,
            final(self).search_text == old(self).search_text,
            final(self).show_form == old(self).show_form,
            final(self).error_message == old(self).error_message,
    {
        let list = match prompts {
            Some(p) => p,
            None => Vec::new(),
        };
        let n = list.len() as i64;
        self.prompts = list;
        self.total_count = match total {
            Some(t) => t,
            None => n,
        };
        self.loading = false;
    }

    /// The search text changed: the page for it starts loading.
    pub fn search_changed(&mut self, text: String) -> (r: LoadRequest)
        ensures
            final(self).search_text@ == text@,
            final(self).loading,
            opt_text(r.search) == search_of(text@),
            final(self).prompts == old(self).prompts,
            final(self).show_form == old(self).show_form,
    {
        self.search_text = text;
        self.load_prompts()
    }

    /// Opens the form empty, to add a prompt.
    pub fn show_add_form(&mut self)
        ensures
            final(self).show_form,
            final(self).editing_prompt is None,
            final(self).form_name@.len() == 0,
            final(self).form_content@.len() == 0,
            final(self).form_description@.len() == 0,
            final(self).error_message is None,
            final(self).prompts == old(self).prompts,
            final(self).search_text == old(self).search_text,
    {
        self.show_form = true;
        self.editing_prompt = None;
        self.form_name = String::new();
        self.form_content = String::new();
        self.form_description = String::new();
        self.error_message = None;
    }

    /// Opens the form on a prompt, to edit it (a missing description shows
    /// empty).
    pub fn show_edit_form(&mut self, prompt: PromptTemplate)
        ensures
            final(self).show_form,
            final(self).editing_prompt == Some(prompt),
            final(self).form_name@ == prompt.name@,
            final(self).form_content@ == prompt.content@,
            final(self).form_description@ == (match prompt.description {
                Some(d) => d@,
                None => Seq::empty(),
            }),
            final(self).error_message is None,
            final(self).prompts == old(self).prompts,
            final(self).search_text == old(self).search_text,
    {
        self.show_form = true;
        self.form_name = prompt.name.clone();
        self.form_content = prompt.content.clone();
        self.form_description = match &prompt.description {
            Some(d) => d.clone(),
            None => String::new(),
        };
        self.editing_prompt = Some(prompt);
        self.error_message = None;
    }

    /// Closes the form and empties it.
    pub fn hide_form(&mut self)
        ensures
            !final(self).show_form,
            final(self).editing_prompt is None,
            final(self).form_name@.len() == 0,
            final(self).form_content@.len() == 0,
            final(self).form_description@.len() == 0,
            final(self).error_message is None,
            final(self).prompts == old(self).prompts,
            final(self).search_text == old(self).search_text,
            final(self).loading == old(self).loading,
            final(self).confirm_delete_id == old(self).confirm_delete_id,
    {
        self.show_form = false;
        self.editing_prompt = None;
        self.form_name = String::new();
        self.form_content = String::new();
        self.form_description = String::new();
        self.error_message = None;
    }

    /// Saves the form: the name, content and description inputs take the
    /// given values (where the form has them); a blank name or content is
    /// refused with its message; otherwise the prompt goes to the host with
    /// its name trimmed, its content as typed and its description trimmed,
    /// or none where it is blank, as an update of the edited prompt or as a
    /// new one.
    pub fn save_prompt(&mut self, name: Option<String>, content: Option<String>, description: Option<String>) -> (r: Option<SaveRequest>)
        ensures
            final(self).form_name@ == (match name { Some(v) => v@, None => old(self).form_name@ }),
            final(self).form_content@ == (match content { Some(v) => v@, None => old(self).form_content@ }),
            final(self).form_description@ == (match description { Some(v) => v@, None => old(self).form_description@ }),
            opt_text(final(self).error_message) == (match form_error_spec(final(self).form_name@, final(self).form_content@) {
                Some(e) => Some(e),
                None => opt_text(old(self).error_message),
            }),
            r is Some == (form_error_spec(final(self).form_name@, final(self).form_content@) is None),
            r matches Some(q) ==> {
                &&& q.id == (match old(self).editing_prompt {
                    Some(p) => Some(p.id),
                    None => None,
                })
                &&& q.name@ == trim_seq(final(self).form_name@)
                &&& q.content@ == final(self).form_content@
                &&& opt_text(q.description) == search_of(final(self).form_description@)
            },
            final(self).show_form == old(self).show_form,
            final(self).editing_prompt == old(self).editing_prompt,
            final(self).prompts == old(self).prompts,
    {
        match name {
            Some(v) => self.form_name = v,
            None => {},
        }
        match content {
            Some(v) => self.form_content = v,
            None => {},
        }
        match description {
            Some(v) => self.form_description = v,
            None => {},
        }
        let name_t = trimmed_string(self.form_name.as_str());
        if name_t.as_str().unicode_len() == 0 {
            self.error_message = Some(String::from_str("名称不能为空"));
            return None;
        }
        let content_t = trimmed_string(self.form_content.as_str());
        if content_t.as_str().unicode_len() == 0 {
            self.error_message = Some(String::from_str("内容不能为空"));
            return None;
        }
        let description_t = trimmed_string(self.form_description.as_str());
        let description = if description_t.as_str().unicode_len() == 0 {
            None
        } else {
            Some(description_t)
        };
        let id = match &self.editing_prompt {
            Some(p) => Some(p.id),
            None => None,
        };
        Some(SaveRequest { id, name: name_t, content: self.form_content.clone(), description })
    }

    /// Saving ended: on success the form closes and the list reloads (the
    /// returned load); on failure the form shows why, as an update or a
    /// creation failure.
    pub fn save_finished(&mut self, updated: bool, outcome: Result<(), String>) -> (r: Option<LoadRequest>)
        ensures
            outcome is Ok ==> {
                &&& !final(self).show_form
                &&& final(self).editing_prompt is None
                &&& final(self).error_message is None
                &&& final(self).loading
                &&& r matches Some(q) && opt_text(q.search) == search_of(old(self).search_text@)
            },
            outcome matches Err(e) ==> {
                &&& r is None
                &&& opt_text(final(self).error_message)
                    == Some((if updated { "更新失败: "@ } else { "创建失败: "@ }) + e@)
                &&& final(self).show_form == old(self).show_form
                &&& final(self).form_name == old(self).form_name
            },
    {
        match outcome {
            Ok(_) => {
                self.hide_form();
                Some(self.load_prompts())
            },
            Err(e) => {
                let mut msg = if updated { String::from_str("更新失败: ") } else { String::from_str("创建失败: ") };
                msg.append(e.as_str());
                self.error_message = Some(msg);
                None
            },
        }
    }

    /// Asks to delete a prompt: it waits for the confirmation.
    pub fn request_delete(&mut self, id: i64)
        ensures
            final(self).confirm_delete_id == Some(id),
            final(self).prompts == old(self).prompts,
    {
        self.confirm_delete_id = Some(id);
    }

    /// The delete confirmation was dismissed.
    pub fn cancel_delete(&mut self)
        ensures
            final(self).confirm_delete_id is None,
            final(self).prompts == old(self).prompts,
    {
        self.confirm_delete_id = None;
    }

    /// The delete was confirmed: returns the prompt for the host to delete,
    /// if one was waiting.
    pub fn confirm_delete(&mut self) -> (r: Option<i64>)
        ensures
            r == old(self).confirm_delete_id,
            final(self).confirm_delete_id is None,
            final(self).prompts == old(self).prompts,
    {
        let r = self.confirm_delete_id;
        self.confirm_delete_id = None;
        r
    }

    /// Deleting ended: on success the list reloads (the returned load); on
    /// failure the view shows why.
    pub fn delete_finished(&mut self, outcome: Result<(), String>) -> (r: Option<LoadRequest>)
        ensures
            outcome is Ok ==> final(self).loading && (r matches Some(q) && opt_text(q.search) == search_of(old(self).search_text@)),
            outcome matches Err(e) ==> r is None && opt_text(final(self).error_message) == Some("删除失败: "@ + e@),
    {
        match outcome {
            Ok(_) => Some(self.load_prompts()),
            Err(e) => {
                let mut msg = String::from_str("删除失败: ");
                msg.append(e.as_str());
                self.error_message = Some(msg);
                None
            },
        }
    }

    /// The list's placeholder; see `empty_list_message_spec`.
    pub fn empty_list_message(&self) -> (r: Option<&'static str>)
        ensures
            match r {
                Some(t) => empty_list_message_spec(self.loading, self.prompts@.len(), self.search_text@) == Some(t@),
                None => empty_list_message_spec(self.loading, self.prompts@.len(), self.search_text@) is None,
            },
    {
        if self.loading && self.prompts.len() == 0 {
            Some("加载中...")
        } else if self.prompts.len() == 0 {
            let t = trimmed_string(self.search_text.as_str());
            if t.as_str().unicode_len() == 0 {
                Some("暂无提示词，点击右上角「+ 添加提示词」新建")
            } else {
                Some("没有匹配的提示词")
            }
        } else {
            None
        }
    }

    /// The form's title: editing or adding.
    pub fn form_title(&self) -> (r: &'static str)
        ensures
            r@ == (if self.editing_prompt is Some { "编辑提示词"@ } else { "添加提示词"@ }),
    {
        if self.editing_prompt.is_some() {
            "编辑提示词"
        } else {
            "添加提示词"
        }
    }

    /// The count line under the list.
    pub fn total_text(&self) -> (r: String)
        ensures
            r@ == "共 "@ + signed_decimal(self.total_count as int) + " 条"@,
    {
        let mut r = String::from_str("共 ");
        push_signed_decimal(&mut r, self.total_count);
        r.append(" 条");
        r
    }

    /// The list's preview of a prompt's content: its words on one line, at
    /// most 60 characters, `…` after a cut.
    pub fn content_preview(content: &str) -> (r: String)
        ensures
            r@ == shorten_spec(flatten_spec(content@), 60, "…"@),
    {
        let flat = flatten_whitespace(content);
        shorten(flat.as_str(), 60, "…")
    }
}

} // verus!
