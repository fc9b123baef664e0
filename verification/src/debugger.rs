//! The prompt debugger: the messages and tools of the session, the execution
//! history with its paging, selection and comparison, and the registry of
//! detached history windows.
use vstd::prelude::*;
use std::collections::{HashMap, HashSet};
use crate::catalog::{
    function_already_added, prompt_library_available, selectable_functions, selectable_functions_spec,
    tool_definition_from_function, description_text, AppIdentity, DbFunction, LlmModel, LlmPreset, LlmProvider,
    PromptTemplate,
};
use vstd::string::*;
use crate::flags::{clear_flag, flag, flag_of, set_flag, set_flag_if_present, toggle_flag};
use crate::message::{clone_messages, clone_tools, CallState, DebugMessage, MessageRole, ToolDefinition};
use crate::seqs::{first_pos, keep, lemma_first_pos, lemma_first_pos_at, lemma_keep_all, swapped};
use crate::window_key::{key_ids_spec, window_key_for_ids, window_key_ids, window_key_spec};
use crate::catalog::{models_for_preset, selectable_models, model_selectable, valid_model_selection};
use crate::text::{chars_of, chars_eq, trim_seq, trimmed};
use crate::search::{query_spec, flatten_spec, function_matches, function_matches_spec, lowercase, picker_preview, prompt_matches, prompt_matches_spec, search_query, shorten_spec};

verus! {

broadcast use vstd::std_specs::hash::group_hash_axioms;

/// One execution kept in the history.
///
/// The sampling parameters that are floating-point numbers (temperature,
/// top-p) are kept beside it by the host.
pub struct ExecutionRecord {
    pub id: u64,
    pub timestamp: u64,
    pub model_name: String,
    pub max_tokens: u32,
    pub thinking_enabled: bool,
    pub thinking_budget: u32,
    pub messages: Vec<DebugMessage>,
    pub tools: Vec<ToolDefinition>,
    pub result: CallState,
}

/// Two records hold the same data.
pub open spec fn same_record(a: ExecutionRecord, b: ExecutionRecord) -> bool {
    &&& a.id == b.id
    &&& a.timestamp == b.timestamp
    &&& a.model_name == b.model_name
    &&& a.max_tokens == b.max_tokens
    &&& a.thinking_enabled == b.thinking_enabled
    &&& a.thinking_budget == b.thinking_budget
    &&& a.messages@ == b.messages@
    &&& a.tools@ == b.tools@
    &&& a.result == b.result
}

impl Clone for ExecutionRecord {
    fn clone(&self) -> (r: Self)
        ensures
            same_record(r, *self),
    {
        let messages = clone_messages(self.messages.as_slice());
        let tools = clone_tools(self.tools.as_slice());
        ExecutionRecord {
            id: self.id,
            timestamp: self.timestamp,
            model_name: self.model_name.clone(),
            max_tokens: self.max_tokens,
            thinking_enabled: self.thinking_enabled,
            thinking_budget: self.thinking_budget,
            messages,
            tools,
            result: self.result.clone(),
        }
    }
}

/// Which view of a record the viewer shows.
#[derive(Debug, Clone, Copy, PartialEq, Eq, Structural)]
pub enum ViewModalTab {
    /// Formatted text cards.
    Formatted,
    /// Input / output / metadata as JSON.
    Json,
}

impl ViewModalTab {
    pub fn label(self) -> (r: &'static str)
        ensures
            r@ == (match self {
                ViewModalTab::Formatted => "格式化"@,
                ViewModalTab::Json => "JSON"@,
            }),
    {
        match self {
            ViewModalTab::Formatted => "格式化",
            ViewModalTab::Json => "JSON",
        }
    }
}

/// Whether a message has this id.
pub open spec fn message_is(id: u64) -> spec_fn(DebugMessage) -> bool {
    |m: DebugMessage| m.id == id
}

/// Whether a tool has this id.
pub open spec fn tool_is(id: u64) -> spec_fn(ToolDefinition) -> bool {
    |t: ToolDefinition| t.id == id
}

/// Whether a record has this id.
pub open spec fn record_is(id: u64) -> spec_fn(ExecutionRecord) -> bool {
    |r: ExecutionRecord| r.id == id
}

/// No two messages share an id.
pub open spec fn unique_message_ids(ms: Seq<DebugMessage>) -> bool {
    forall|i: int, j: int| 0 <= i < j < ms.len() ==> ms[i].id != ms[j].id
}

/// The messages after moving the message `id` one place up (nothing moves
/// when it is missing or already first).
pub open spec fn moved_up(ms: Seq<DebugMessage>, id: u64) -> Seq<DebugMessage> {
    match first_pos(ms, message_is(id)) {
        Some(p) => if p > 0 { swapped(ms, p, p - 1) } else { ms },
        None => ms,
    }
}

/// The messages after moving the message `id` one place down (nothing
/// moves when it is missing or already last).
pub open spec fn moved_down(ms: Seq<DebugMessage>, id: u64) -> Seq<DebugMessage> {
    match first_pos(ms, message_is(id)) {
        Some(p) => if p + 1 < ms.len() { swapped(ms, p, p + 1) } else { ms },
        None => ms,
    }
}

/// The position of the first message with this id.
pub fn message_index(ms: &[DebugMessage], id: u64) -> (r: Option<usize>)
    ensures
        r matches Some(p) ==> p < ms.len() && first_pos(ms@, message_is(id)) == Some(p as int),
        r is None ==> first_pos(ms@, message_is(id)) is None,
{
    proof { lemma_first_pos(ms@, message_is(id)); }
    let mut i: usize = 0;
    while i < ms.len()
        invariant
            i <= ms.len(),
            forall|j: int| 0 <= j < i ==> !message_is(id)(#[trigger] ms@[j]),
        decreases ms.len() - i,
    {
        if ms[i].id == id {
            proof { lemma_first_pos_at(ms@, message_is(id), i as int); }
            return Some(i);
        }
        i = i + 1;
    }
    None
}

/// The position of the first tool with this id.
pub fn tool_index(ts: &[ToolDefinition], id: u64) -> (r: Option<usize>)
    ensures
        r matches Some(p) ==> p < ts.len() && first_pos(ts@, tool_is(id)) == Some(p as int),
        r is None ==> first_pos(ts@, tool_is(id)) is None,
{
    proof { lemma_first_pos(ts@, tool_is(id)); }
    let mut i: usize = 0;
    while i < ts.len()
        invariant
            i <= ts.len(),
            forall|j: int| 0 <= j < i ==> !tool_is(id)(#[trigger] ts@[j]),
        decreases ts.len() - i,
    {
        if ts[i].id == id {
            proof { lemma_first_pos_at(ts@, tool_is(id), i as int); }
            return Some(i);
        }
        i = i + 1;
    }
    None
}

/// The position of the first record with this id.
pub fn record_index(rs: &[ExecutionRecord], id: u64) -> (r: Option<usize>)
    ensures
        r matches Some(p) ==> p < rs.len() && first_pos(rs@, record_is(id)) == Some(p as int),
        r is None ==> first_pos(rs@, record_is(id)) is None,
{
    proof { lemma_first_pos(rs@, record_is(id)); }
    let mut i: usize = 0;
    while i < rs.len()
        invariant
            i <= rs.len(),
            forall|j: int| 0 <= j < i ==> !record_is(id)(#[trigger] rs@[j]),
        decreases rs.len() - i,
    {
        if rs[i].id == id {
            proof { lemma_first_pos_at(rs@, record_is(id), i as int); }
            return Some(i);
        }
        i = i + 1;
    }
    None
}

/// Exchanges the neighbours at `i` and `i + 1`.
fn swap_with_next<T>(v: &mut Vec<T>, i: usize)
    requires
        i + 1 < old(v).len(),
    ensures
        final(v)@ == swapped(old(v)@, i as int, i + 1),
{
    let ghost s = v@;
    let x = v.remove(i);
    proof { s.remove_ensures(i as int); }
    let ghost t = v@;
    v.insert(i + 1, x);
    proof { t.insert_ensures(i + 1, x); }
    assert(v@ =~= swapped(s, i as int, i + 1));
}


/// The messages and tools being edited, with their display flags.
pub struct Session {
    pub messages: Vec<DebugMessage>,
    pub next_msg_id: u64,
    pub collapsed_messages: HashMap<u64, bool>,
    pub editing_messages: HashMap<u64, bool>,
    pub tools: Vec<ToolDefinition>,
    pub next_tool_id: u64,
    /// Tool id and the id of the managed function it was made from, for the
    /// tools picked from function management.
    pub tool_source_functions: HashMap<u64, i64>,
    pub editing_tools: HashMap<u64, bool>,
    pub collapsed_tools: HashMap<u64, bool>,
    /// The managed functions the tool picker offers.
    pub available_functions: Vec<DbFunction>,
    pub show_tool_picker: bool,
    /// The message whose prompt picker is open.
    pub prompt_picker_target: Option<u64>,
    /// The library prompts the prompt picker offers.
    pub available_prompts: Vec<PromptTemplate>,
    pub max_tokens: u32,
    pub thinking_enabled: bool,
    pub thinking_budget_tokens: u32,
    pub call_state: CallState,
}

/// The messages without those that have this id.
pub open spec fn without_message(ms: Seq<DebugMessage>, id: u64) -> Seq<DebugMessage> {
    keep(ms, message_is(id))
}

/// The tools without those that have this id.
pub open spec fn without_tool(ts: Seq<ToolDefinition>, id: u64) -> Seq<ToolDefinition> {
    keep(ts, tool_is(id))
}

fn remove_messages_with_id(v: &mut Vec<DebugMessage>, id: u64)
    ensures
        final(v)@ == without_message(old(v)@, id),
{
    let ghost all = v@;
    let mut rest = Vec::new();
    std::mem::swap(v, &mut rest);
    let n = rest.len();
    let mut i: usize = 0;
    assert(all.subrange(0, 0) =~= Seq::<DebugMessage>::empty());
    assert(all.subrange(0, n as int) =~= all);
    while rest.len() > 0
        invariant
            i + rest.len() == n,
            n == all.len(),
            rest@ == all.subrange(i as int, n as int),
            v@ == without_message(all.subrange(0, i as int), id),
        decreases rest.len(),
    {
        let m = rest.remove(0);
        proof {
            let q = all.subrange(0, i + 1);
            assert(q.drop_last() =~= all.subrange(0, i as int));
            assert(q.last() == m);
        }
        if m.id != id {
            v.push(m);
        }
        i = i + 1;
        assert(rest@ =~= all.subrange(i as int, n as int));
    }
}

fn remove_tools_with_id(v: &mut Vec<ToolDefinition>, id: u64)
    ensures
        final(v)@ == without_tool(old(v)@, id),
{
    let ghost all = v@;
    let mut rest = Vec::new();
    std::mem::swap(v, &mut rest);
    let n = rest.len();
    let mut i: usize = 0;
    assert(all.subrange(0, 0) =~= Seq::<ToolDefinition>::empty());
    assert(all.subrange(0, n as int) =~= all);
    while rest.len() > 0
        invariant
            i + rest.len() == n,
            n == all.len(),
            rest@ == all.subrange(i as int, n as int),
            v@ == without_tool(all.subrange(0, i as int), id),
        decreases rest.len(),
    {
        let t = rest.remove(0);
        proof {
            let q = all.subrange(0, i + 1);
            assert(q.drop_last() =~= all.subrange(0, i as int));
            assert(q.last() == t);
        }
        if t.id != id {
            v.push(t);
        }
        i = i + 1;
        assert(rest@ =~= all.subrange(i as int, n as int));
    }
}

impl Session {
    /// Adds an empty message with the next id.
    pub fn add_message(&mut self, role: MessageRole)
        requires
            old(self).next_msg_id < u64::MAX,
        ensures
            final(self).messages@.len() == old(self).messages@.len() + 1,
            final(self).messages@.drop_last() == old(self).messages@,
            final(self).messages@.last().id == old(self).next_msg_id,
            final(self).messages@.last().role == role,
            final(self).messages@.last().content@ == Seq::<char>::empty(),
            final(self).next_msg_id == old(self).next_msg_id + 1,
            final(self).tools == old(self).tools,
            final(self).collapsed_messages == old(self).collapsed_messages,
            final(self).editing_messages == old(self).editing_messages,
    {
        let id = self.next_msg_id;
        self.next_msg_id = self.next_msg_id + 1;
        self.messages.push(DebugMessage { id, role, content: String::new() });
        assert(self.messages@.drop_last() =~= old(self).messages@);
    }

    /// Removes the messages with this id.
    pub fn remove_message(&mut self, id: u64)
        ensures
            final(self).messages@ == without_message(old(self).messages@, id),
            final(self).next_msg_id == old(self).next_msg_id,
            final(self).tools == old(self).tools,
    {
        remove_messages_with_id(&mut self.messages, id);
    }

    /// Replaces the content of the first message with this id.
    pub fn update_message_content(&mut self, id: u64, content: String)
        ensures
            match first_pos(old(self).messages@, message_is(id)) {
                Some(p) => final(self).messages@ == old(self).messages@.update(
                    p,
                    DebugMessage { id, role: old(self).messages@[p].role, content },
                ),
                None => final(self).messages@ == old(self).messages@,
            },
            final(self).next_msg_id == old(self).next_msg_id,
            final(self).tools == old(self).tools,
            final(self).editing_messages == old(self).editing_messages,
            final(self).collapsed_messages == old(self).collapsed_messages,
    {
        proof { lemma_first_pos(self.messages@, message_is(id)); }
        match message_index(self.messages.as_slice(), id) {
            Some(p) => {
                let role = self.messages[p].role;
                self.messages.set(p, DebugMessage { id, role, content });
            },
            None => {},
        }
    }

    /// Replaces the role of the first message with this id.
    pub fn update_message_role(&mut self, id: u64, role: MessageRole)
        ensures
            match first_pos(old(self).messages@, message_is(id)) {
                Some(p) => final(self).messages@.len() == old(self).messages@.len()
                    && (forall|j: int| 0 <= j < old(self).messages@.len() && j != p
                        ==> final(self).messages@[j] == old(self).messages@[j])
                    && final(self).messages@[p].id == id
                    && final(self).messages@[p].role == role
                    && final(self).messages@[p].content == old(self).messages@[p].content,
                None => final(self).messages@ == old(self).messages@,
            },
            final(self).next_msg_id == old(self).next_msg_id,
            final(self).tools == old(self).tools,
    {
        proof { lemma_first_pos(self.messages@, message_is(id)); }
        match message_index(self.messages.as_slice(), id) {
            Some(p) => {
                let content = self.messages[p].content.clone();
                self.messages.set(p, DebugMessage { id, role, content });
            },
            None => {},
        }
    }

    /// Moves the first message with this id one place up.
    pub fn move_message_up(&mut self, id: u64)
        ensures
            final(self).messages@ == moved_up(old(self).messages@, id),
            final(self).next_msg_id == old(self).next_msg_id,
            final(self).tools == old(self).tools,
    {
        match message_index(self.messages.as_slice(), id) {
            Some(p) => {
                if p > 0 {
                    swap_with_next(&mut self.messages, p - 1);
                    assert(swapped(old(self).messages@, p - 1, p as int)
                        =~= swapped(old(self).messages@, p as int, p - 1));
                }
            },
            None => {},
        }
    }

    /// Moves the first message with this id one place down.
    pub fn move_message_down(&mut self, id: u64)
        ensures
            final(self).messages@ == moved_down(old(self).messages@, id),
            final(self).next_msg_id == old(self).next_msg_id,
            final(self).tools == old(self).tools,
    {
        match message_index(self.messages.as_slice(), id) {
            Some(p) => {
                if p + 1 < self.messages.len() {
                    swap_with_next(&mut self.messages, p);
                }
            },
            None => {},
        }
    }
}

/// Moving a message up and then down again restores the message list, when
/// message ids are unique and the message could move up.
pub proof fn lemma_move_up_then_down(ms: Seq<DebugMessage>, id: u64)
    requires
        unique_message_ids(ms),
        first_pos(ms, message_is(id)) matches Some(p) && p > 0,
    ensures
        moved_down(moved_up(ms, id), id) == ms,
{
    lemma_first_pos(ms, message_is(id));
    let p = first_pos(ms, message_is(id))->Some_0;
    let up = swapped(ms, p, p - 1);
    assert forall|j: int| 0 <= j < p - 1 implies !message_is(id)(#[trigger] up[j]) by {
        assert(up[j] == ms[j]);
    }
    assert(up[p - 1] == ms[p]);
    lemma_first_pos_at(up, message_is(id), p - 1);
    assert(swapped(up, p - 1, p) =~= ms);
}

/// Moving a message down and then up again restores the message list, when
/// message ids are unique and the message could move down.
pub proof fn lemma_move_down_then_up(ms: Seq<DebugMessage>, id: u64)
    requires
        unique_message_ids(ms),
        first_pos(ms, message_is(id)) matches Some(p) && p + 1 < ms.len(),
    ensures
        moved_up(moved_down(ms, id), id) == ms,
{
    lemma_first_pos(ms, message_is(id));
    let p = first_pos(ms, message_is(id))->Some_0;
    let down = swapped(ms, p, p + 1);
    assert forall|j: int| 0 <= j < p + 1 implies !message_is(id)(#[trigger] down[j]) by {
        if j < p {
            assert(down[j] == ms[j]);
        } else {
            assert(down[j] == ms[p + 1]);
            assert(ms[p].id != ms[p + 1].id);
        }
    }
    assert(down[p + 1] == ms[p]);
    lemma_first_pos_at(down, message_is(id), p + 1);
    assert(swapped(down, p + 1, p) =~= ms);
}


/// Whether a managed function has this id.
pub open spec fn function_is(id: i64) -> spec_fn(DbFunction) -> bool {
    |f: DbFunction| f.id == id
}

/// Whether a library prompt has this id.
pub open spec fn prompt_is(id: i64) -> spec_fn(PromptTemplate) -> bool {
    |p: PromptTemplate| p.id == id
}

/// Whether some tool already came from this function.
pub open spec fn source_added(sources: Map<u64, i64>, function_id: i64) -> bool {
    exists|k: u64| sources.contains_key(k) && #[trigger] sources[k] == function_id
}

/// A function that became a tool counts as added, so picking it again adds
/// nothing (see `add_tool_from_function`).
pub proof fn lemma_added_function_stays_added(sources: Map<u64, i64>, tool_id: u64, function_id: i64)
    ensures
        source_added(sources.insert(tool_id, function_id), function_id),
{
    assert(sources.insert(tool_id, function_id).contains_key(tool_id));
    assert(sources.insert(tool_id, function_id)[tool_id] == function_id);
}

/// Adding the managed function `function_id` as a tool, from `s0` to `s1`:
/// a function that is a tool already, or that is not offered, changes
/// nothing; otherwise a tool made from it is added under the next tool id,
/// remembered as coming from it, shown collapsed and not being edited, and
/// nothing else changes.
pub open spec fn adds_from_function(s0: Session, s1: Session, function_id: i64) -> bool {
    if source_added(s0.tool_source_functions@, function_id)
        || first_pos(s0.available_functions@, function_is(function_id)) is None {
        s1 == s0
    } else {
        let f = s0.available_functions@[first_pos(s0.available_functions@, function_is(function_id))->Some_0];
        let id = s0.next_tool_id;
        &&& s1.tools@.len() == s0.tools@.len() + 1
        &&& s1.tools@.drop_last() == s0.tools@
        &&& s1.tools@.last().id == id
        &&& s1.tools@.last().name@ == f.name@
        &&& s1.tools@.last().description@ == description_text(f.description)
        &&& s1.tools@.last().parameters_json@ == f.input_schema@
        &&& s1.tool_source_functions@ == s0.tool_source_functions@.insert(id, function_id)
        &&& s1.editing_tools@ == s0.editing_tools@.remove(id)
        &&& s1.collapsed_tools@ == s0.collapsed_tools@.insert(id, true)
        &&& s1 == (Session {
            tools: s1.tools,
            next_tool_id: (id + 1) as u64,
            tool_source_functions: s1.tool_source_functions,
            editing_tools: s1.editing_tools,
            collapsed_tools: s1.collapsed_tools,
            ..s0
        })
    }
}

/// Adding the same managed function twice gives what adding it once gives:
/// the second time it is a tool already (or still not offered).
pub proof fn lemma_add_function_twice(s0: Session, s1: Session, s2: Session, function_id: i64)
    requires
        adds_from_function(s0, s1, function_id),
        adds_from_function(s1, s2, function_id),
    ensures
        s2 == s1,
{
    if !(source_added(s0.tool_source_functions@, function_id)
        || first_pos(s0.available_functions@, function_is(function_id)) is None) {
        lemma_added_function_stays_added(s0.tool_source_functions@, s0.next_tool_id, function_id);
    }
}

fn function_index(fs: &[DbFunction], id: i64) -> (r: Option<usize>)
    ensures
        r matches Some(p) ==> p < fs.len() && first_pos(fs@, function_is(id)) == Some(p as int),
        r is None ==> first_pos(fs@, function_is(id)) is None,
{
    proof { lemma_first_pos(fs@, function_is(id)); }
    let mut i: usize = 0;
    while i < fs.len()
        invariant
            i <= fs.len(),
            forall|j: int| 0 <= j < i ==> !function_is(id)(#[trigger] fs@[j]),
        decreases fs.len() - i,
    {
        if fs[i].id == id {
            proof { lemma_first_pos_at(fs@, function_is(id), i as int); }
            return Some(i);
        }
        i = i + 1;
    }
    None
}

fn prompt_index(ps: &[PromptTemplate], id: i64) -> (r: Option<usize>)
    ensures
        r matches Some(p) ==> p < ps.len() && first_pos(ps@, prompt_is(id)) == Some(p as int),
        r is None ==> first_pos(ps@, prompt_is(id)) is None,
{
    proof { lemma_first_pos(ps@, prompt_is(id)); }
    let mut i: usize = 0;
    while i < ps.len()
        invariant
            i <= ps.len(),
            forall|j: int| 0 <= j < i ==> !prompt_is(id)(#[trigger] ps@[j]),
        decreases ps.len() - i,
    {
        if ps[i].id == id {
            proof { lemma_first_pos_at(ps@, prompt_is(id), i as int); }
            return Some(i);
        }
        i = i + 1;
    }
    None
}

/// The parameter schema a new hand-made tool starts with.
pub open spec fn default_tool_schema() -> Seq<char> {
    "{\"type\": \"object\", \"properties\": {}}"@
}

/// A session with the default conversation and settings: a system message
/// and a user greeting, no tools, 2048 tokens, thinking on with a budget of
/// 1024 tokens, no call yet.
pub open spec fn default_session(r: Session) -> bool {
    &&& r.messages@.len() == 2
    &&& r.messages@[0].id == 1 && r.messages@[0].role == MessageRole::System
    &&& r.messages@[0].content@ == "你是一个专业的AI助手。"@
    &&& r.messages@[1].id == 2 && r.messages@[1].role == MessageRole::User
    &&& r.messages@[1].content@ == "你好"@
    &&& r.next_msg_id == 3
    &&& r.tools@.len() == 0
    &&& r.next_tool_id == 1
    &&& r.tool_source_functions@ == Map::<u64, i64>::empty()
    &&& r.collapsed_messages@ == Map::<u64, bool>::empty()
    &&& r.editing_messages@ == Map::<u64, bool>::empty()
    &&& r.editing_tools@ == Map::<u64, bool>::empty()
    &&& r.collapsed_tools@ == Map::<u64, bool>::empty()
    &&& r.available_functions@.len() == 0
    &&& !r.show_tool_picker
    &&& r.prompt_picker_target is None
    &&& r.available_prompts@.len() == 0
    &&& r.max_tokens == 2048
    &&& r.thinking_enabled
    &&& r.thinking_budget_tokens == 1024
    &&& r.call_state == CallState::Idle
}

impl Session {
    /// A session with the default conversation: a system message and a user
    /// greeting.
    pub fn new() -> (r: Self)
        ensures
            default_session(r),
    {
        let mut messages: Vec<DebugMessage> = Vec::new();
        messages.push(DebugMessage {
            id: 1,
            role: MessageRole::System,
            content: String::from_str("你是一个专业的AI助手。"),
        });
        messages.push(DebugMessage { id: 2, role: MessageRole::User, content: String::from_str("你好") });
        Session {
            messages,
            next_msg_id: 3,
            collapsed_messages: HashMap::new(),
            editing_messages: HashMap::new(),
            tools: Vec::new(),
            next_tool_id: 1,
            tool_source_functions: HashMap::new(),
            editing_tools: HashMap::new(),
            collapsed_tools: HashMap::new(),
            available_functions: Vec::new(),
            show_tool_picker: false,
            prompt_picker_target: None,
            available_prompts: Vec::new(),
            max_tokens: 2048,
            thinking_enabled: true,
            thinking_budget_tokens: 1024,
            call_state: CallState::Idle,
        }
    }

    /// Adds an empty hand-made tool with the next id and opens it for editing.
    pub fn add_tool(&mut self)
        requires
            old(self).next_tool_id < u64::MAX,
        ensures
            final(self).tools@.len() == old(self).tools@.len() + 1,
            final(self).tools@.drop_last() == old(self).tools@,
            final(self).tools@.last().id == old(self).next_tool_id,
            final(self).tools@.last().name@ == Seq::<char>::empty(),
            final(self).tools@.last().description@ == Seq::<char>::empty(),
            final(self).tools@.last().parameters_json@ == default_tool_schema(),
            final(self).next_tool_id == old(self).next_tool_id + 1,
            final(self).editing_tools@ == old(self).editing_tools@.insert(old(self).next_tool_id, true),
            final(self).collapsed_tools == old(self).collapsed_tools,
            final(self).tool_source_functions == old(self).tool_source_functions,
            final(self).messages == old(self).messages,
    {
        let id = self.next_tool_id;
        self.next_tool_id = self.next_tool_id + 1;
        self.tools.push(ToolDefinition {
            id,
            name: String::new(),
            description: String::new(),
            parameters_json: String::from_str("{\"type\": \"object\", \"properties\": {}}"),
        });
        assert(self.tools@.drop_last() =~= old(self).tools@);
        set_flag(&mut self.editing_tools, id, true);
    }

    /// Adds the managed function `function_id` as a tool, once: a function
    /// that is already a tool, or that is not offered, adds nothing. The new
    /// tool shows collapsed.
    pub fn add_tool_from_function(&mut self, function_id: i64)
        requires
            !source_added(old(self).tool_source_functions@, function_id)
                && first_pos(old(self).available_functions@, function_is(function_id)) is Some
                ==> old(self).next_tool_id < u64::MAX,
        ensures
            adds_from_function(*old(self), *final(self), function_id),
    {
        if function_already_added(&self.tool_source_functions, function_id) {
            return;
        }
        let k = match function_index(self.available_functions.as_slice(), function_id) {
            Some(k) => k,
            None => return,
        };
        let id = self.next_tool_id;
        self.next_tool_id = self.next_tool_id + 1;
        let tool = tool_definition_from_function(id, &self.available_functions[k]);
        self.tools.push(tool);
        assert(self.tools@.drop_last() =~= old(self).tools@);
        self.tool_source_functions.insert(id, function_id);
        clear_flag(&mut self.editing_tools, id);
        set_flag(&mut self.collapsed_tools, id, true);
    }

    /// Removes the tools with this id and forgets their source and flags.
    pub fn remove_tool(&mut self, id: u64)
        ensures
            final(self).tools@ == without_tool(old(self).tools@, id),
            final(self).tool_source_functions@ == old(self).tool_source_functions@.remove(id),
            final(self).editing_tools@ == old(self).editing_tools@.remove(id),
            final(self).collapsed_tools@ == old(self).collapsed_tools@.remove(id),
            final(self).next_tool_id == old(self).next_tool_id,
            final(self).messages == old(self).messages,
    {
        remove_tools_with_id(&mut self.tools, id);
        self.tool_source_functions.remove(&id);
        clear_flag(&mut self.editing_tools, id);
        clear_flag(&mut self.collapsed_tools, id);
    }

    /// Collapses or expands a tool.
    pub fn toggle_collapse_tool(&mut self, id: u64)
        ensures
            final(self).collapsed_tools@
                == old(self).collapsed_tools@.insert(id, !flag_of(old(self).collapsed_tools@, id)),
            final(self).editing_tools == old(self).editing_tools,
            final(self).tools == old(self).tools,
    {
        toggle_flag(&mut self.collapsed_tools, id);
    }

    /// Opens or closes a tool for editing; opening expands it.
    pub fn toggle_tool_edit(&mut self, id: u64)
        ensures
            final(self).editing_tools@
                == old(self).editing_tools@.insert(id, !flag_of(old(self).editing_tools@, id)),
            final(self).collapsed_tools@ == (if !flag_of(old(self).editing_tools@, id)
                && old(self).collapsed_tools@.contains_key(id) {
                old(self).collapsed_tools@.insert(id, false)
            } else {
                old(self).collapsed_tools@
            }),
            final(self).tools == old(self).tools,
    {
        let editing = toggle_flag(&mut self.editing_tools, id);
        if editing {
            set_flag_if_present(&mut self.collapsed_tools, id, false);
        }
    }

    /// Stores the edited name, description and schema of a tool (when the
    /// editor had inputs for it) and closes its editor.
    pub fn save_tool_edit(&mut self, id: u64, edited: Option<(String, String, String)>)
        ensures
            match edited {
                Some(e) => match first_pos(old(self).tools@, tool_is(id)) {
                    Some(p) => final(self).tools@ == old(self).tools@.update(
                        p,
                        ToolDefinition { id, name: e.0, description: e.1, parameters_json: e.2 },
                    ),
                    None => final(self).tools@ == old(self).tools@,
                },
                None => final(self).tools@ == old(self).tools@,
            },
            final(self).editing_tools@ == (if old(self).editing_tools@.contains_key(id) {
                old(self).editing_tools@.insert(id, false)
            } else {
                old(self).editing_tools@
            }),
            final(self).messages == old(self).messages,
    {
        match edited {
            Some((name, description, parameters_json)) => {
                match tool_index(self.tools.as_slice(), id) {
                    Some(p) => {
                        self.tools.set(p, ToolDefinition { id, name, description, parameters_json });
                    },
                    None => {},
                }
            },
            None => {},
        }
        set_flag_if_present(&mut self.editing_tools, id, false);
    }

    /// Turns thinking mode on or off.
    pub fn toggle_thinking(&mut self)
        ensures
            final(self).thinking_enabled == !old(self).thinking_enabled,
            final(self).messages == old(self).messages,
            final(self).tools == old(self).tools,
    {
        self.thinking_enabled = !self.thinking_enabled;
    }

    /// Collapses or expands a message.
    pub fn toggle_collapse(&mut self, id: u64)
        ensures
            final(self).collapsed_messages@
                == old(self).collapsed_messages@.insert(id, !flag_of(old(self).collapsed_messages@, id)),
            final(self).editing_messages == old(self).editing_messages,
            final(self).messages == old(self).messages,
    {
        toggle_flag(&mut self.collapsed_messages, id);
    }

    /// Opens or closes a message for editing; opening expands it.
    pub fn toggle_edit(&mut self, id: u64)
        ensures
            final(self).editing_messages@
                == old(self).editing_messages@.insert(id, !flag_of(old(self).editing_messages@, id)),
            final(self).collapsed_messages@ == (if !flag_of(old(self).editing_messages@, id)
                && old(self).collapsed_messages@.contains_key(id) {
                old(self).collapsed_messages@.insert(id, false)
            } else {
                old(self).collapsed_messages@
            }),
            final(self).messages == old(self).messages,
    {
        let editing = toggle_flag(&mut self.editing_messages, id);
        if editing {
            set_flag_if_present(&mut self.collapsed_messages, id, false);
        }
    }

    /// Stores the edited content of a message (when the editor had an input
    /// for it) and closes its editor.
    pub fn save_message_content(&mut self, id: u64, edited: Option<String>)
        ensures
            match edited {
                Some(c) => match first_pos(old(self).messages@, message_is(id)) {
                    Some(p) => final(self).messages@ == old(self).messages@.update(
                        p,
                        DebugMessage { id, role: old(self).messages@[p].role, content: c },
                    ),
                    None => final(self).messages@ == old(self).messages@,
                },
                None => final(self).messages@ == old(self).messages@,
            },
            final(self).editing_messages@ == (if old(self).editing_messages@.contains_key(id) {
                old(self).editing_messages@.insert(id, false)
            } else {
                old(self).editing_messages@
            }),
            final(self).next_msg_id == old(self).next_msg_id,
    {
        match edited {
            Some(content) => self.update_message_content(id, content),
            None => {},
        }
        set_flag_if_present(&mut self.editing_messages, id, false);
    }

    /// Opens or closes the tool picker; returns whether it is now open (the
    /// host then clears the search and reloads the managed functions).
    pub fn toggle_tool_picker(&mut self) -> (r: bool)
        ensures
            r == !old(self).show_tool_picker,
            final(self).show_tool_picker == r,
            final(self).tools == old(self).tools,
    {
        self.show_tool_picker = !self.show_tool_picker;
        self.show_tool_picker
    }

    /// Takes the freshly loaded managed functions, keeping those the picker
    /// offers in this application.
    pub fn reload_available_functions(&mut self, identity: AppIdentity, functions: Vec<DbFunction>)
        ensures
            final(self).available_functions@ == selectable_functions_spec(identity, functions@),
            final(self).tools == old(self).tools,
            final(self).messages == old(self).messages,
    {
        self.available_functions = selectable_functions(identity, functions);
    }

    /// Opens the prompt picker for a message, or closes it when it already
    /// serves that message. Returns whether it opened (the host then clears
    /// the search and reloads the library). Without a prompt library nothing
    /// happens.
    pub fn toggle_prompt_picker(&mut self, identity: AppIdentity, msg_id: u64) -> (r: bool)
        ensures
            identity != AppIdentity::NgyPromptStudio ==> !r && final(self).prompt_picker_target == old(self).prompt_picker_target,
            identity == AppIdentity::NgyPromptStudio ==> {
                if old(self).prompt_picker_target == Some(msg_id) {
                    !r && final(self).prompt_picker_target is None
                } else {
                    r && final(self).prompt_picker_target == Some(msg_id)
                }
            },
            final(self).messages == old(self).messages,
    {
        if !prompt_library_available(identity) {
            return false;
        }
        if self.prompt_picker_target == Some(msg_id) {
            self.prompt_picker_target = None;
            return false;
        }
        self.prompt_picker_target = Some(msg_id);
        true
    }

    /// The prompt picker's rows for a search: the available prompts that
    /// match the trimmed, lowercased search (all of them for a blank one),
    /// in order, each with its id, name and one-line preview.
    pub fn prompt_picker_items(&self, search: &str) -> (r: Vec<(i64, String, String)>)
        ensures
            r@.map_values(|x: (i64, String, String)| (x.0, x.1@, x.2@))
                == keep(self.available_prompts@, |p: PromptTemplate| !prompt_matches_spec(query_spec(search@), p))
                    .map_values(|p: PromptTemplate| (p.id, p.name@, shorten_spec(flatten_spec(p.content@), 80, "…"@))),
            trim_seq(search@).len() == 0 ==> r@.len() == self.available_prompts@.len(),
    {
        proof {
            if trim_seq(search@).len() == 0 {
                lemma_keep_all(self.available_prompts@, |p: PromptTemplate| !prompt_matches_spec(query_spec(search@), p));
            }
        }
        let query = search_query(search);
        let ghost q = query_spec(search@);
        let ghost ps = self.available_prompts@;
        let mut out: Vec<(i64, String, String)> = Vec::new();
        let mut i: usize = 0;
        assert(ps.subrange(0, 0) =~= Seq::<PromptTemplate>::empty());
        while i < self.available_prompts.len()
            invariant
                ps == self.available_prompts@,
                query@ == q,
                i <= ps.len(),
                out@.map_values(|x: (i64, String, String)| (x.0, x.1@, x.2@))
                    == keep(ps.subrange(0, i as int), |p: PromptTemplate| !prompt_matches_spec(q, p))
                        .map_values(|p: PromptTemplate| (p.id, p.name@, shorten_spec(flatten_spec(p.content@), 80, "…"@))),
            decreases ps.len() - i,
        {
            let ghost sub = ps.subrange(0, i + 1);
            assert(sub.drop_last() =~= ps.subrange(0, i as int));
            assert(sub.last() == ps[i as int]);
            let p = &self.available_prompts[i];
            let ghost before = out@;
            if prompt_matches(query.as_str(), p) {
                out.push((p.id, p.name.clone(), picker_preview(p.content.as_str())));
                assert(out@.map_values(|x: (i64, String, String)| (x.0, x.1@, x.2@))
                    =~= before.map_values(|x: (i64, String, String)| (x.0, x.1@, x.2@))
                        .push((p.id, p.name@, shorten_spec(flatten_spec(p.content@), 80, "…"@))));
            }
            i = i + 1;
        }
        assert(ps.subrange(0, ps.len() as int) =~= ps);
        out
    }

    /// The tool picker's rows for a search: the available functions that
    /// match the trimmed, lowercased search (all of them for a blank one),
    /// in order, each with its id and whether it is already a tool.
    pub fn tool_picker_items(&self, search: &str) -> (r: Vec<(i64, bool)>)
        ensures
            r@ == keep(self.available_functions@, |f: DbFunction| !function_matches_spec(query_spec(search@), f))
                .map_values(|f: DbFunction| (f.id, source_added(self.tool_source_functions@, f.id))),
            trim_seq(search@).len() == 0 ==> r@.len() == self.available_functions@.len(),
    {
        proof {
            if trim_seq(search@).len() == 0 {
                lemma_keep_all(self.available_functions@, |f: DbFunction| !function_matches_spec(query_spec(search@), f));
            }
        }
        let query = search_query(search);
        let ghost q = query_spec(search@);
        let ghost fs = self.available_functions@;
        let mut out: Vec<(i64, bool)> = Vec::new();
        let mut i: usize = 0;
        assert(fs.subrange(0, 0) =~= Seq::<DbFunction>::empty());
        while i < self.available_functions.len()
            invariant
                fs == self.available_functions@,
                query@ == q,
                i <= fs.len(),
                out@ == keep(fs.subrange(0, i as int), |f: DbFunction| !function_matches_spec(q, f))
                    .map_values(|f: DbFunction| (f.id, source_added(self.tool_source_functions@, f.id))),
            decreases fs.len() - i,
        {
            let ghost sub = fs.subrange(0, i + 1);
            assert(sub.drop_last() =~= fs.subrange(0, i as int));
            assert(sub.last() == fs[i as int]);
            let f = &self.available_functions[i];
            if function_matches(query.as_str(), f) {
                let added = function_already_added(&self.tool_source_functions, f.id);
                let ghost before = out@;
                out.push((f.id, added));
                assert(out@ =~= before.push((f.id, source_added(self.tool_source_functions@, f.id))));
            }
            i = i + 1;
        }
        assert(fs.subrange(0, fs.len() as int) =~= fs);
        out
    }

    /// Takes the freshly loaded library prompts.
    pub fn set_available_prompts(&mut self, prompts: Vec<PromptTemplate>)
        ensures
            final(self).available_prompts@ == prompts@,
            final(self).messages == old(self).messages,
    {
        self.available_prompts = prompts;
    }

    /// Picks the library prompt `prompt_id` for the message the picker
    /// serves: returns that message's id and the prompt's content, for the
    /// host to put into the message's editor (the message itself changes
    /// only when the user saves). The picker closes, also when the message
    /// has been removed meanwhile; an unknown prompt changes nothing.
    pub fn apply_prompt_to_message(&mut self, prompt_id: i64) -> (r: Option<(u64, String)>)
        ensures
            match old(self).prompt_picker_target {
                None => r is None && final(self).prompt_picker_target is None,
                Some(t) => match first_pos(old(self).available_prompts@, prompt_is(prompt_id)) {
                    None => r is None && final(self).prompt_picker_target == Some(t),
                    Some(k) => final(self).prompt_picker_target is None && if first_pos(
                        old(self).messages@,
                        message_is(t),
                    ) is Some {
                        r matches Some(x) && x.0 == t
                            && x.1@ == old(self).available_prompts@[k].content@
                    } else {
                        r is None
                    },
                },
            },
            final(self).messages == old(self).messages,
            final(self).available_prompts == old(self).available_prompts,
    {
        let target = match self.prompt_picker_target {
            Some(t) => t,
            None => return None,
        };
        let k = match prompt_index(self.available_prompts.as_slice(), prompt_id) {
            Some(k) => k,
            None => return None,
        };
        let content = self.available_prompts[k].content.clone();
        if message_index(self.messages.as_slice(), target).is_none() {
            self.prompt_picker_target = None;
            return None;
        }
        self.prompt_picker_target = None;
        Some((target, content))
    }
}

/// Adding a message and then removing it by its id gives the message list
/// back, when the new id was not in use.
pub proof fn lemma_add_then_remove_message(ms: Seq<DebugMessage>, added: DebugMessage)
    requires
        forall|i: int| 0 <= i < ms.len() ==> (#[trigger] ms[i]).id != added.id,
    ensures
        without_message(ms.push(added), added.id) == ms,
{
    let s = ms.push(added);
    assert(s.drop_last() =~= ms);
    assert(s.last() == added);
    assert forall|j: int| 0 <= j < ms.len() implies !message_is(added.id)(#[trigger] ms[j]) by {}
    lemma_keep_all(ms, message_is(added.id));
}


/// How many history records a page shows.
pub const HISTORY_PAGE_SIZE: usize = 10;

/// How many history records are kept.
pub const HISTORY_LIMIT: usize = 50;

/// The ids of the records, in order.
pub open spec fn record_ids(rs: Seq<ExecutionRecord>) -> Seq<u64> {
    rs.map_values(|r: ExecutionRecord| r.id)
}

/// The number of history pages: at least one.
pub open spec fn total_pages_spec(len: int) -> int {
    if len <= 0 { 1 } else { (len + 9) / 10 }
}

/// The page shown: the stored page, kept within the pages that exist.
pub open spec fn current_page_spec(page: int, len: int) -> int {
    if page < total_pages_spec(len) - 1 { page } else { total_pages_spec(len) - 1 }
}

/// `s` after toggling membership of each id of `ids` in turn.
pub open spec fn toggled(s: Set<u64>, ids: Seq<u64>) -> Set<u64>
    decreases ids.len(),
{
    if ids.len() == 0 {
        s
    } else {
        let t = toggled(s, ids.drop_last());
        if t.contains(ids.last()) { t.remove(ids.last()) } else { t.insert(ids.last()) }
    }
}

/// How often `x` occurs in `ids`.
pub open spec fn occurrences(ids: Seq<u64>, x: u64) -> nat
    decreases ids.len(),
{
    if ids.len() == 0 {
        0
    } else {
        occurrences(ids.drop_last(), x) + (if ids.last() == x { 1nat } else { 0nat })
    }
}

/// Whether a record is selected.
pub open spec fn record_selected(sel: Set<u64>) -> spec_fn(ExecutionRecord) -> bool {
    |r: ExecutionRecord| sel.contains(r.id)
}

/// What the host shows after a request to view records.
pub enum ViewAction {
    /// Nothing to show.
    Nothing,
    /// The records are in `view_records`; the viewer dialog is open.
    ShowModal,
    /// Open a detached window for these records, on this tab and with this
    /// "only differences" choice. The window is already registered under
    /// the key (the last field); a host that fails to open it unregisters
    /// the key.
    OpenDetached(Vec<ExecutionRecord>, ViewModalTab, bool, String),
    /// A detached window for the group is open under this key: bring it to
    /// the front.
    ActivateDetached(String),
}

/// The execution history and its panel: paging, selection, the viewer and
/// the detached viewer windows.
pub struct History {
    /// Oldest first.
    pub records: Vec<ExecutionRecord>,
    pub next_record_id: u64,
    pub selected: HashSet<u64>,
    pub comparing_records: Vec<ExecutionRecord>,
    pub page: usize,
    pub collapsed: bool,
    /// The record whose context menu is open.
    pub context_menu: Option<u64>,
    pub show_view_modal: bool,
    pub view_records: Vec<ExecutionRecord>,
    pub view_modal_tab: ViewModalTab,
    pub show_only_diff: bool,
    /// Comparisons open in a detached window instead of the dialog.
    pub detached_comparison: bool,
    /// Single records open in a detached window instead of the dialog.
    pub detached_record_view: bool,
    /// Keys of the open detached windows.
    pub detached_windows: Vec<String>,
}

proof fn lemma_toggled_membership(s: Set<u64>, ids: Seq<u64>, x: u64)
    ensures
        toggled(s, ids).contains(x) == (s.contains(x) != (occurrences(ids, x) % 2 == 1)),
    decreases ids.len(),
{
    if ids.len() > 0 {
        lemma_toggled_membership(s, ids.drop_last(), x);
    }
}

/// Inverting the selection twice gives the selection back.
pub proof fn lemma_invert_twice(s: Set<u64>, ids: Seq<u64>)
    ensures
        toggled(toggled(s, ids), ids) == s,
{
    assert forall|x: u64| toggled(toggled(s, ids), ids).contains(x) == s.contains(x) by {
        lemma_toggled_membership(s, ids, x);
        lemma_toggled_membership(toggled(s, ids), ids, x);
    }
    assert(toggled(toggled(s, ids), ids) =~= s);
}

proof fn lemma_occurrences_unique(ids: Seq<u64>, x: u64)
    requires
        ids.no_duplicates(),
    ensures
        occurrences(ids, x) == (if ids.contains(x) { 1nat } else { 0nat }),
    decreases ids.len(),
{
    if ids.len() > 0 {
        let d = ids.drop_last();
        assert(d.no_duplicates());
        lemma_occurrences_unique(d, x);
        if ids.last() == x {
            assert(!d.contains(x)) by {
                if d.contains(x) {
                    let k = choose|k: int| 0 <= k < d.len() && d[k] == x;
                    assert(ids[k] == ids[ids.len() - 1]);
                }
            }
        }
        if ids.contains(x) && ids.last() != x {
            let k = choose|k: int| 0 <= k < ids.len() && ids[k] == x;
            assert(d[k] == x);
        }
        if d.contains(x) {
            let k = choose|k: int| 0 <= k < d.len() && d[k] == x;
            assert(ids[k] == x);
        }
    }
}

/// Selecting every record and then inverting the selection leaves nothing
/// selected, when record ids are unique.
pub proof fn lemma_select_all_then_invert(ids: Seq<u64>)
    requires
        ids.no_duplicates(),
    ensures
        toggled(ids.to_set(), ids) == Set::<u64>::empty(),
{
    assert forall|x: u64| !toggled(ids.to_set(), ids).contains(x) by {
        lemma_toggled_membership(ids.to_set(), ids, x);
        lemma_occurrences_unique(ids, x);
    }
    assert(toggled(ids.to_set(), ids) =~= Set::<u64>::empty());
}

/// Inverting an empty selection selects every record.
pub proof fn lemma_invert_empty_selects_all(ids: Seq<u64>)
    requires
        ids.no_duplicates(),
    ensures
        toggled(Set::<u64>::empty(), ids) == ids.to_set(),
{
    assert forall|x: u64| toggled(Set::<u64>::empty(), ids).contains(x) == ids.to_set().contains(x) by {
        lemma_toggled_membership(Set::<u64>::empty(), ids, x);
        lemma_occurrences_unique(ids, x);
    }
    assert(toggled(Set::<u64>::empty(), ids) =~= ids.to_set());
}

fn clone_records(v: &[ExecutionRecord]) -> (r: Vec<ExecutionRecord>)
    ensures
        r@.len() == v@.len(),
        forall|i: int| 0 <= i < v@.len() ==> same_record(#[trigger] r@[i], v@[i]),
{
    let mut out: Vec<ExecutionRecord> = Vec::new();
    let mut i: usize = 0;
    while i < v.len()
        invariant
            i <= v.len(),
            out@.len() == i,
            forall|j: int| 0 <= j < i ==> same_record(#[trigger] out@[j], v@[j]),
        decreases v.len() - i,
    {
        out.push(v[i].clone());
        i = i + 1;
    }
    out
}

fn remove_records_with_id(v: &mut Vec<ExecutionRecord>, id: u64)
    ensures
        final(v)@ == keep(old(v)@, record_is(id)),
{
    let ghost all = v@;
    let mut rest = Vec::new();
    std::mem::swap(v, &mut rest);
    let n = rest.len();
    let mut i: usize = 0;
    assert(all.subrange(0, 0) =~= Seq::<ExecutionRecord>::empty());
    assert(all.subrange(0, n as int) =~= all);
    while rest.len() > 0
        invariant
            i + rest.len() == n,
            n == all.len(),
            rest@ == all.subrange(i as int, n as int),
            v@ == keep(all.subrange(0, i as int), record_is(id)),
        decreases rest.len(),
    {
        let r = rest.remove(0);
        proof {
            let q = all.subrange(0, i + 1);
            assert(q.drop_last() =~= all.subrange(0, i as int));
            assert(q.last() == r);
        }
        if r.id != id {
            v.push(r);
        }
        i = i + 1;
        assert(rest@ =~= all.subrange(i as int, n as int));
    }
}

fn remove_selected_records(v: &mut Vec<ExecutionRecord>, sel: &HashSet<u64>)
    ensures
        final(v)@ == keep(old(v)@, record_selected(sel@)),
{
    let ghost all = v@;
    let mut rest = Vec::new();
    std::mem::swap(v, &mut rest);
    let n = rest.len();
    let mut i: usize = 0;
    assert(all.subrange(0, 0) =~= Seq::<ExecutionRecord>::empty());
    assert(all.subrange(0, n as int) =~= all);
    while rest.len() > 0
        invariant
            i + rest.len() == n,
            n == all.len(),
            rest@ == all.subrange(i as int, n as int),
            v@ == keep(all.subrange(0, i as int), record_selected(sel@)),
        decreases rest.len(),
    {
        let r = rest.remove(0);
        proof {
            let q = all.subrange(0, i + 1);
            assert(q.drop_last() =~= all.subrange(0, i as int));
            assert(q.last() == r);
        }
        if !sel.contains(&r.id) {
            v.push(r);
        }
        i = i + 1;
        assert(rest@ =~= all.subrange(i as int, n as int));
    }
}

/// An empty history on its first page, with nothing selected or shown and
/// no detached window.
pub open spec fn fresh_history(r: History) -> bool {
    &&& r.records@.len() == 0
    &&& r.next_record_id == 1
    &&& r.selected@ == Set::<u64>::empty()
    &&& r.comparing_records@.len() == 0
    &&& r.page == 0
    &&& !r.collapsed
    &&& r.context_menu is None
    &&& !r.show_view_modal
    &&& r.view_records@.len() == 0
    &&& r.view_modal_tab == ViewModalTab::Formatted
    &&& !r.show_only_diff
    &&& !r.detached_comparison
    &&& !r.detached_record_view
    &&& r.detached_windows@.len() == 0
}

impl History {
    /// An empty history on its first page.
    pub fn new() -> (r: Self)
        ensures
            fresh_history(r),
    {
        History {
            records: Vec::new(),
            next_record_id: 1,
            selected: HashSet::new(),
            comparing_records: Vec::new(),
            page: 0,
            collapsed: false,
            context_menu: None,
            show_view_modal: false,
            view_records: Vec::new(),
            view_modal_tab: ViewModalTab::Formatted,
            show_only_diff: false,
            detached_comparison: false,
            detached_record_view: false,
            detached_windows: Vec::new(),
        }
    }

    /// The number of pages (at least one).
    pub fn total_pages(&self) -> (r: usize)
        ensures
            r == total_pages_spec(self.records@.len() as int),
            r >= 1,
    {
        let n = self.records.len();
        if n == 0 {
            1
        } else {
            n / HISTORY_PAGE_SIZE + if n % HISTORY_PAGE_SIZE == 0 { 0 } else { 1 }
        }
    }

    /// The page shown, kept within the pages that exist.
    pub fn current_page(&self) -> (r: usize)
        ensures
            r == current_page_spec(self.page as int, self.records@.len() as int),
            r < total_pages_spec(self.records@.len() as int),
    {
        let last = self.total_pages() - 1;
        if self.page < last { self.page } else { last }
    }

    /// Goes to the previous page (stays on the first).
    pub fn prev_page(&mut self)
        ensures
            final(self).page == (if current_page_spec(old(self).page as int, old(self).records@.len() as int) > 0 {
                current_page_spec(old(self).page as int, old(self).records@.len() as int) - 1
            } else {
                0
            }),
            final(self).records == old(self).records,
            final(self).selected == old(self).selected,
    {
        let current = self.current_page();
        self.page = if current > 0 { current - 1 } else { 0 };
    }

    /// Goes to the next page (stays on the last).
    pub fn next_page(&mut self)
        ensures
            final(self).page == (if current_page_spec(old(self).page as int, old(self).records@.len() as int) + 1
                < total_pages_spec(old(self).records@.len() as int) {
                current_page_spec(old(self).page as int, old(self).records@.len() as int) + 1
            } else {
                total_pages_spec(old(self).records@.len() as int) - 1
            }),
            final(self).records == old(self).records,
            final(self).selected == old(self).selected,
    {
        let current = self.current_page();
        let last = self.total_pages() - 1;
        self.page = if current + 1 < last { current + 1 } else { last };
    }

    /// Where the records of the current page lie in `records`: the newest
    /// records come first, so page 0 is the last ten records.
    pub fn page_bounds(&self) -> (r: (usize, usize))
        ensures
            ({
                let len = self.records@.len() as int;
                let end = len - current_page_spec(self.page as int, len) * 10;
                let start = if end >= 10 { end - 10 } else { 0 };
                r.0 == start && r.1 == end && 0 <= r.0 <= r.1 <= len
            }),
    {
        let page = self.current_page();
        let n = self.records.len();
        assert(page * 10 <= n) by (nonlinear_arith)
            requires
                page < total_pages_spec(n as int),
                n == 0 ==> page == 0,
                n > 0 ==> total_pages_spec(n as int) == (n + 9) / 10,
        ;
        let end = n - page * HISTORY_PAGE_SIZE;
        let start = if end >= HISTORY_PAGE_SIZE { end - HISTORY_PAGE_SIZE } else { 0 };
        (start, end)
    }

    /// The ids of the records on the current page, newest first.
    pub fn page_record_ids(&self) -> (r: Vec<u64>)
        ensures
            ({
                let len = self.records@.len() as int;
                let end = len - current_page_spec(self.page as int, len) * 10;
                let start = if end >= 10 { end - 10 } else { 0 };
                r@ == record_ids(self.records@.subrange(start, end)).reverse()
            }),
    {
        let (start, end) = self.page_bounds();
        let mut out: Vec<u64> = Vec::new();
        let mut i: usize = end;
        while i > start
            invariant
                start <= i <= end <= self.records@.len(),
                out@ == record_ids(self.records@.subrange(i as int, end as int)).reverse(),
            decreases i - start,
        {
            i = i - 1;
            out.push(self.records[i].id);
            assert(out@ =~= record_ids(self.records@.subrange(i as int, end as int)).reverse());
        }
        out
    }

    /// Folds or unfolds the history panel.
    pub fn toggle_collapsed(&mut self)
        ensures
            final(self).collapsed == !old(self).collapsed,
            final(self).records == old(self).records,
    {
        self.collapsed = !self.collapsed;
    }

    /// Selects or unselects a record.
    pub fn toggle_record_selection(&mut self, id: u64)
        ensures
            final(self).selected@ == (if old(self).selected@.contains(id) {
                old(self).selected@.remove(id)
            } else {
                old(self).selected@.insert(id)
            }),
            final(self).records == old(self).records,
    {
        if self.selected.contains(&id) {
            self.selected.remove(&id);
        } else {
            self.selected.insert(id);
        }
    }

    /// Selects every record.
    pub fn select_all_records(&mut self)
        ensures
            final(self).selected@ == record_ids(old(self).records@).to_set(),
            final(self).records == old(self).records,
    {
        self.selected.clear();
        let mut i: usize = 0;
        assert(record_ids(self.records@.subrange(0, 0)).to_set() =~= Set::<u64>::empty());
        while i < self.records.len()
            invariant
                i <= self.records.len(),
                self.records == old(self).records,
                self.selected@ == record_ids(self.records@.subrange(0, i as int)).to_set(),
            decreases self.records.len() - i,
        {
            let id = self.records[i].id;
            self.selected.insert(id);
            i = i + 1;
            proof {
                let prev = record_ids(self.records@.subrange(0, i - 1));
                assert(record_ids(self.records@.subrange(0, i as int)) =~= prev.push(id));
                prev.lemma_push_to_set_commute(id);
            }
        }
        assert(self.records@.subrange(0, self.records.len() as int) =~= self.records@);
    }

    /// Selects nothing.
    pub fn deselect_all_records(&mut self)
        ensures
            final(self).selected@ == Set::<u64>::empty(),
            final(self).records == old(self).records,
    {
        self.selected.clear();
    }

    /// The select-all button: a selection as large as the history is
    /// cleared; otherwise every record is selected.
    pub fn toggle_select_all(&mut self)
        ensures
            old(self).selected@.len() == old(self).records@.len() ==> final(self).selected@ == Set::<u64>::empty(),
            old(self).selected@.len() != old(self).records@.len() ==> final(self).selected@ == record_ids(old(self).records@).to_set(),
            final(self).records == old(self).records,
    {
        if self.selected.len() == self.records.len() {
            self.deselect_all_records();
        } else {
            self.select_all_records();
        }
    }

    /// Inverts the selection: each record in turn is selected if it was not,
    /// and unselected if it was.
    pub fn invert_record_selection(&mut self)
        ensures
            final(self).selected@ == toggled(old(self).selected@, record_ids(old(self).records@)),
            final(self).records == old(self).records,
    {
        let mut i: usize = 0;
        let ghost start = self.selected@;
        assert(record_ids(self.records@.subrange(0, 0)) =~= Seq::<u64>::empty());
        while i < self.records.len()
            invariant
                i <= self.records.len(),
                self.selected@ == toggled(start, record_ids(self.records@.subrange(0, i as int))),
                self.records == old(self).records,
                start == old(self).selected@,
            decreases self.records.len() - i,
        {
            let id = self.records[i].id;
            proof {
                let q = record_ids(self.records@.subrange(0, i + 1));
                assert(q.drop_last() =~= record_ids(self.records@.subrange(0, i as int)));
                assert(q.last() == id);
            }
            if self.selected.contains(&id) {
                self.selected.remove(&id);
            } else {
                self.selected.insert(id);
            }
            i = i + 1;
        }
        assert(self.records@.subrange(0, self.records.len() as int) =~= self.records@);
    }

    /// Opens the context menu of a record.
    pub fn show_context_menu(&mut self, record_id: u64)
        ensures
            final(self).context_menu == Some(record_id),
            final(self).records == old(self).records,
    {
        self.context_menu = Some(record_id);
    }

    /// Closes the context menu.
    pub fn hide_context_menu(&mut self)
        ensures
            final(self).context_menu is None,
            final(self).records == old(self).records,
    {
        self.context_menu = None;
    }

    /// Turns "only differences" on or off.
    pub fn toggle_show_only_diff(&mut self)
        ensures
            final(self).show_only_diff == !old(self).show_only_diff,
            final(self).records == old(self).records,
    {
        self.show_only_diff = !self.show_only_diff;
    }

    /// Shows a tab of the viewer dialog.
    pub fn set_view_tab(&mut self, tab: ViewModalTab)
        ensures
            final(self).view_modal_tab == tab,
            final(self).show_only_diff == old(self).show_only_diff,
            final(self).view_records == old(self).view_records,
            final(self).records == old(self).records,
    {
        self.view_modal_tab = tab;
    }

    /// Closes the viewer dialog and resets it.
    pub fn close_view_modal(&mut self)
        ensures
            !final(self).show_view_modal,
            final(self).view_records@.len() == 0,
            !final(self).show_only_diff,
            final(self).view_modal_tab == ViewModalTab::Formatted,
            final(self).records == old(self).records,
            final(self).selected == old(self).selected,
            final(self).detached_windows == old(self).detached_windows,
    {
        self.show_view_modal = false;
        self.view_records.clear();
        self.show_only_diff = false;
        self.view_modal_tab = ViewModalTab::Formatted;
    }

    /// Puts a group of records into a detached window: a group whose
    /// window is open already (the same key, whatever the order of the
    /// records) brings that window to the front; otherwise the group's key
    /// is registered and a new window is to open. An empty group opens
    /// nothing.
    pub fn open_detached_window(&mut self, records: Vec<ExecutionRecord>, tab: ViewModalTab, show_only_diff: bool)
        -> (r: ViewAction)
        ensures
            records@.len() == 0 ==> r is Nothing && *final(self) == *old(self),
            records@.len() > 0 ==> detached_opened(
                old(self).detached_windows@,
                final(self).detached_windows@,
                records@,
                tab,
                show_only_diff,
                r,
            ),
            *final(self) == (History { detached_windows: final(self).detached_windows, ..*old(self) }),
    {
        if records.len() == 0 {
            return ViewAction::Nothing;
        }
        let key = PromptDebugger::detached_window_key(records.as_slice());
        if self.has_detached_window(key.as_str()) {
            return ViewAction::ActivateDetached(key);
        }
        let registered_key = key.clone();
        self.register_detached_window(registered_key);
        proof {
            assert forall|i: int| 0 <= i < records@.len() implies same_record(#[trigger] records@[i], records@[i]) by {}
        }
        ViewAction::OpenDetached(records, tab, show_only_diff, key)
    }
}


/// Opening the detached window of a group of records: the group's key is
/// registered; a window that is open under it already is brought to the
/// front, else a new one opens with these records, tab and filter.
pub open spec fn detached_opened(
    w0: Seq<String>,
    w1: Seq<String>,
    records: Seq<ExecutionRecord>,
    tab: ViewModalTab,
    diff: bool,
    r: ViewAction,
) -> bool {
    let k = window_key_spec(record_ids(records));
    &&& window_keys(w1) == registered(window_keys(w0), k)
    &&& if window_keys(w0).contains(k) {
        r matches ViewAction::ActivateDetached(key) && key@ == k
    } else {
        r matches ViewAction::OpenDetached(v, t, d, key) && same_records(v@, records) && t == tab && d == diff
            && key@ == k
    }
}

proof fn lemma_same_records_ids(a: Seq<ExecutionRecord>, b: Seq<ExecutionRecord>)
    requires
        same_records(a, b),
    ensures
        record_ids(a) == record_ids(b),
{
    assert forall|i: int| 0 <= i < a.len() implies record_ids(a)[i] == record_ids(b)[i] by {
        assert(same_record(a[i], b[i]));
    }
    assert(record_ids(a) =~= record_ids(b));
}

/// Opening a group's window reads the group only through its records'
/// contents, so a copy of the group opens the same way.
proof fn lemma_detached_opened_copy(
    w0: Seq<String>,
    w1: Seq<String>,
    a: Seq<ExecutionRecord>,
    b: Seq<ExecutionRecord>,
    tab: ViewModalTab,
    diff: bool,
    r: ViewAction,
)
    requires
        same_records(a, b),
        detached_opened(w0, w1, a, tab, diff, r),
    ensures
        detached_opened(w0, w1, b, tab, diff, r),
{
    lemma_same_records_ids(a, b);
    if let ViewAction::OpenDetached(v, t, d, key) = r {
        assert forall|i: int| 0 <= i < v@.len() implies same_record(#[trigger] v@[i], b[i]) by {
            assert(same_record(v@[i], a[i]));
            assert(same_record(a[i], b[i]));
        }
    }
}

/// The key texts of the open detached windows.
pub open spec fn window_keys(ws: Seq<String>) -> Seq<Seq<char>> {
    ws.map_values(|k: String| k@)
}

/// The registry keys after a window for `key` is registered: a key that is
/// there already stays once; a new one is added at the end.
pub open spec fn registered(keys: Seq<Seq<char>>, key: Seq<char>) -> Seq<Seq<char>> {
    if keys.contains(key) { keys } else { keys.push(key) }
}

/// Registering the window of a group a second time changes nothing: a
/// group has at most one detached window.
pub proof fn lemma_register_twice(keys: Seq<Seq<char>>, key: Seq<char>)
    ensures
        registered(registered(keys, key), key) == registered(keys, key),
{
    if !keys.contains(key) {
        assert(keys.push(key)[keys.len() as int] == key);
    }
}

/// A registry without repeated keys keeps none after a registration.
pub proof fn lemma_register_keeps_keys_unique(keys: Seq<Seq<char>>, key: Seq<char>)
    requires
        keys.no_duplicates(),
    ensures
        registered(keys, key).no_duplicates(),
        registered(keys, key).contains(key),
{
    if !keys.contains(key) {
        let r = keys.push(key);
        assert(r[keys.len() as int] == key);
        assert forall|i: int, j: int| 0 <= i < r.len() && 0 <= j < r.len() && i != j implies r[i] != r[j] by {
            if i < keys.len() && j < keys.len() {
            } else if i < keys.len() {
                assert(keys[i] == r[i]);
            } else {
                assert(keys[j] == r[j]);
            }
        }
    }
}

/// Whether a window key names one of these record ids.
pub open spec fn key_names_any(ids: Seq<u64>) -> spec_fn(String) -> bool {
    |k: String| exists|i: int| 0 <= i < key_ids_spec(k@).len() && ids.contains(#[trigger] key_ids_spec(k@)[i])
}

/// Whether a window key names one of the ids of this set.
pub open spec fn key_names_in(sel: Set<u64>) -> spec_fn(String) -> bool {
    |k: String| exists|i: int| 0 <= i < key_ids_spec(k@).len() && sel.contains(#[trigger] key_ids_spec(k@)[i])
}

/// The records that are selected, in history order.
pub open spec fn selected_records(rs: Seq<ExecutionRecord>, sel: Set<u64>) -> Seq<ExecutionRecord> {
    keep(rs, |r: ExecutionRecord| !sel.contains(r.id))
}

/// The id that follows every loaded record id (1 when there are none).
pub open spec fn next_id_after(rs: Seq<ExecutionRecord>) -> u64
    decreases rs.len(),
{
    if rs.len() == 0 {
        1
    } else {
        let m = next_id_after(rs.drop_last());
        let c = (rs.last().id + 1) as u64;
        if rs.len() == 1 { c } else if c > m { c } else { m }
    }
}

/// The history after appending a record: only the newest records up to
/// the limit are kept.
pub open spec fn appended_history(rs: Seq<ExecutionRecord>, r: ExecutionRecord) -> Seq<ExecutionRecord> {
    let all = rs.push(r);
    if all.len() > 50 { all.subrange(all.len() - 50, all.len() as int) } else { all }
}

fn key_hits_ids(key: &String, ids: &[u64]) -> (r: bool)
    ensures
        r == key_names_any(ids@)(*key),
{
    let named = window_key_ids(key.as_str());
    let mut i: usize = 0;
    while i < named.len()
        invariant
            i <= named.len(),
            named@ == key_ids_spec(key@),
            forall|j: int| 0 <= j < i ==> !ids@.contains(#[trigger] named@[j]),
        decreases named.len() - i,
    {
        let id = named[i];
        let mut k: usize = 0;
        while k < ids.len()
            invariant
                k <= ids.len(),
                i < named.len(),
                id == named@[i as int],
                named@ == key_ids_spec(key@),
                forall|j: int| 0 <= j < k ==> ids@[j] != id,
            decreases ids.len() - k,
        {
            if ids[k] == id {
                assert(ids@[k as int] == id);
                assert(ids@.contains(named@[i as int]));
                return true;
            }
            k = k + 1;
        }
        i = i + 1;
    }
    false
}

fn key_hits_set(key: &String, sel: &HashSet<u64>) -> (r: bool)
    ensures
        r == key_names_in(sel@)(*key),
{
    let named = window_key_ids(key.as_str());
    let mut i: usize = 0;
    while i < named.len()
        invariant
            i <= named.len(),
            named@ == key_ids_spec(key@),
            forall|j: int| 0 <= j < i ==> !sel@.contains(#[trigger] named@[j]),
        decreases named.len() - i,
    {
        if sel.contains(&named[i]) {
            return true;
        }
        i = i + 1;
    }
    false
}

impl History {
    /// Takes the records loaded from the history file: the next record id
    /// follows the largest loaded one, and the first page shows.
    pub fn load(&mut self, records: Vec<ExecutionRecord>)
        requires
            forall|i: int| 0 <= i < records@.len() ==> (#[trigger] records@[i]).id < u64::MAX,
        ensures
            final(self).records@ == records@,
            final(self).next_record_id == next_id_after(records@),
            final(self).page == 0,
            final(self).selected == old(self).selected,
    {
        let mut next: u64 = 1;
        let mut i: usize = 0;
        while i < records.len()
            invariant
                i <= records.len(),
                forall|j: int| 0 <= j < records@.len() ==> (#[trigger] records@[j]).id < u64::MAX,
                next == next_id_after(records@.subrange(0, i as int)),
            decreases records.len() - i,
        {
            let c = records[i].id + 1;
            proof {
                let q = records@.subrange(0, i + 1);
                assert(q.drop_last() =~= records@.subrange(0, i as int));
                assert(q.last() == records@[i as int]);
            }
            if i == 0 || c > next {
                next = c;
            }
            i = i + 1;
        }
        assert(records@.subrange(0, records.len() as int) =~= records@);
        self.records = records;
        self.next_record_id = next;
        self.page = 0;
    }

    /// Appends a record, keeps the newest records up to the limit, and
    /// returns to the first page so that the new record shows.
    pub fn push_record(&mut self, record: ExecutionRecord)
        ensures
            final(self).records@ == appended_history(old(self).records@, record),
            final(self).page == 0,
            *final(self) == (History { records: final(self).records, page: 0, ..*old(self) }),
    {
        self.records.push(record);
        let ghost all = self.records@;
        if self.records.len() > HISTORY_LIMIT {
            let cut = self.records.len() - HISTORY_LIMIT;
            let tail = self.records.split_off(cut);
            self.records = tail;
        }
        self.page = 0;
    }

    /// Closes every detached window that shows one of these records;
    /// returns the keys of the windows to close.
    pub fn close_detached_windows_for(&mut self, record_ids: &[u64]) -> (r: Vec<String>)
        ensures
            r@ == keep(old(self).detached_windows@, |k: String| !key_names_any(record_ids@)(k)),
            final(self).detached_windows@ == keep(old(self).detached_windows@, key_names_any(record_ids@)),
            final(self).records == old(self).records,
            final(self).selected == old(self).selected,
            final(self).view_records == old(self).view_records,
            final(self).comparing_records == old(self).comparing_records,
            final(self).show_view_modal == old(self).show_view_modal,
            final(self).page == old(self).page,
    {
        let ghost all = self.detached_windows@;
        let mut rest = Vec::new();
        std::mem::swap(&mut self.detached_windows, &mut rest);
        let mut closed: Vec<String> = Vec::new();
        let n = rest.len();
        let mut i: usize = 0;
        assert(all.subrange(0, 0) =~= Seq::<String>::empty());
        assert(all.subrange(0, n as int) =~= all);
        while rest.len() > 0
            invariant
                i + rest.len() == n,
                n == all.len(),
                rest@ == all.subrange(i as int, n as int),
                self.detached_windows@ == keep(all.subrange(0, i as int), key_names_any(record_ids@)),
                closed@ == keep(all.subrange(0, i as int), |k: String| !key_names_any(record_ids@)(k)),
                self.records == old(self).records,
                self.selected == old(self).selected,
                self.view_records == old(self).view_records,
                self.comparing_records == old(self).comparing_records,
                self.show_view_modal == old(self).show_view_modal,
                self.page == old(self).page,
            decreases rest.len(),
        {
            let k = rest.remove(0);
            proof {
                let q = all.subrange(0, i + 1);
                assert(q.drop_last() =~= all.subrange(0, i as int));
                assert(q.last() == k);
            }
            if key_hits_ids(&k, record_ids) {
                closed.push(k);
            } else {
                self.detached_windows.push(k);
            }
            i = i + 1;
            assert(rest@ =~= all.subrange(i as int, n as int));
        }
        closed
    }

    /// Closes every detached window that shows a selected record; returns
    /// the keys of the windows to close.
    fn close_detached_windows_for_selected(&mut self) -> (r: Vec<String>)
        ensures
            r@ == keep(old(self).detached_windows@, |k: String| !key_names_in(old(self).selected@)(k)),
            final(self).detached_windows@ == keep(old(self).detached_windows@, key_names_in(old(self).selected@)),
            final(self).records == old(self).records,
            final(self).selected == old(self).selected,
            final(self).view_records == old(self).view_records,
            final(self).comparing_records == old(self).comparing_records,
            final(self).show_view_modal == old(self).show_view_modal,
            final(self).page == old(self).page,
    {
        let ghost all = self.detached_windows@;
        let mut rest = Vec::new();
        std::mem::swap(&mut self.detached_windows, &mut rest);
        let mut closed: Vec<String> = Vec::new();
        let n = rest.len();
        let mut i: usize = 0;
        assert(all.subrange(0, 0) =~= Seq::<String>::empty());
        assert(all.subrange(0, n as int) =~= all);
        while rest.len() > 0
            invariant
                i + rest.len() == n,
                n == all.len(),
                rest@ == all.subrange(i as int, n as int),
                self.detached_windows@ == keep(all.subrange(0, i as int), key_names_in(old(self).selected@)),
                closed@ == keep(all.subrange(0, i as int), |k: String| !key_names_in(old(self).selected@)(k)),
                self.records == old(self).records,
                self.selected == old(self).selected,
                self.view_records == old(self).view_records,
                self.comparing_records == old(self).comparing_records,
                self.show_view_modal == old(self).show_view_modal,
                self.page == old(self).page,
            decreases rest.len(),
        {
            let k = rest.remove(0);
            proof {
                let q = all.subrange(0, i + 1);
                assert(q.drop_last() =~= all.subrange(0, i as int));
                assert(q.last() == k);
            }
            if key_hits_set(&k, &self.selected) {
                closed.push(k);
            } else {
                self.detached_windows.push(k);
            }
            i = i + 1;
            assert(rest@ =~= all.subrange(i as int, n as int));
        }
        closed
    }

    /// Forgets every detached window; returns their keys, for the host to
    /// close them.
    pub fn close_all_detached_windows(&mut self) -> (r: Vec<String>)
        ensures
            r@ == old(self).detached_windows@,
            final(self).detached_windows@.len() == 0,
            final(self).records == old(self).records,
    {
        let mut open = Vec::new();
        std::mem::swap(&mut self.detached_windows, &mut open);
        open
    }

    /// Deletes a record: it leaves the history, the selection, the
    /// comparison and the viewer (which closes when it has nothing left),
    /// its context menu closes, and every detached window showing it closes.
    /// Returns the keys of the windows to close.
    pub fn delete_record(&mut self, record_id: u64) -> (r: Vec<String>)
        ensures
            final(self).records@ == keep(old(self).records@, record_is(record_id)),
            final(self).selected@ == old(self).selected@.remove(record_id),
            final(self).comparing_records@ == keep(old(self).comparing_records@, record_is(record_id)),
            final(self).view_records@ == keep(old(self).view_records@, record_is(record_id)),
            final(self).show_view_modal == (old(self).show_view_modal
                && keep(old(self).view_records@, record_is(record_id)).len() > 0),
            r@ == keep(old(self).detached_windows@, |k: String| !key_names_any(seq![record_id])(k)),
            final(self).detached_windows@ == keep(old(self).detached_windows@, key_names_any(seq![record_id])),
            final(self).context_menu is None,
            final(self).page == current_page_spec(
                old(self).page as int,
                keep(old(self).records@, record_is(record_id)).len() as int,
            ),
    {
        remove_records_with_id(&mut self.records, record_id);
        self.selected.remove(&record_id);
        remove_records_with_id(&mut self.comparing_records, record_id);
        remove_records_with_id(&mut self.view_records, record_id);
        if self.view_records.len() == 0 {
            self.show_view_modal = false;
        }
        let ids = [record_id];
        assert(ids@ =~= seq![record_id]);
        let closed = self.close_detached_windows_for(&ids);
        self.context_menu = None;
        self.page = self.current_page();
        closed
    }

    /// Deletes the selected records (nothing happens without a selection):
    /// they leave the history, the comparison and the viewer, every detached
    /// window showing one of them closes, and the selection empties.
    /// Returns the keys of the windows to close.
    pub fn delete_selected_records(&mut self) -> (r: Vec<String>)
        ensures
            old(self).selected@.is_empty() ==> r@.len() == 0 && *final(self) == *old(self),
            !old(self).selected@.is_empty() ==> {
                &&& final(self).records@ == keep(old(self).records@, record_selected(old(self).selected@))
                &&& final(self).comparing_records@ == keep(old(self).comparing_records@, record_selected(old(self).selected@))
                &&& final(self).view_records@ == keep(old(self).view_records@, record_selected(old(self).selected@))
                &&& final(self).show_view_modal == (old(self).show_view_modal
                    && keep(old(self).view_records@, record_selected(old(self).selected@)).len() > 0)
                &&& r@ == keep(old(self).detached_windows@, |k: String| !key_names_in(old(self).selected@)(k))
                &&& final(self).detached_windows@ == keep(old(self).detached_windows@, key_names_in(old(self).selected@))
                &&& final(self).selected@ == Set::<u64>::empty()
                &&& final(self).context_menu is None
                &&& final(self).page == current_page_spec(
                    old(self).page as int,
                    keep(old(self).records@, record_selected(old(self).selected@)).len() as int,
                )
            },
    {
        if self.selected.is_empty() {
            return Vec::new();
        }
        remove_selected_records(&mut self.records, &self.selected);
        remove_selected_records(&mut self.comparing_records, &self.selected);
        remove_selected_records(&mut self.view_records, &self.selected);
        if self.view_records.len() == 0 {
            self.show_view_modal = false;
        }
        let closed = self.close_detached_windows_for_selected();
        self.selected.clear();
        self.context_menu = None;
        self.page = self.current_page();
        closed
    }

    /// Records that a detached window with this key is open.
    pub fn register_detached_window(&mut self, key: String)
        ensures
            window_keys(final(self).detached_windows@) == registered(window_keys(old(self).detached_windows@), key@),
            *final(self) == (History { detached_windows: final(self).detached_windows, ..*old(self) }),
    {
        let mut i: usize = 0;
        while i < self.detached_windows.len()
            invariant
                i <= self.detached_windows.len(),
                self.detached_windows == old(self).detached_windows,
                forall|j: int| 0 <= j < i ==> window_keys(self.detached_windows@)[j] != key@,
            decreases self.detached_windows.len() - i,
        {
            if self.detached_windows[i] == key {
                assert(window_keys(self.detached_windows@)[i as int] == key@);
                return;
            }
            i = i + 1;
        }
        let ghost before = self.detached_windows@;
        self.detached_windows.push(key);
        proof {
            assert(!window_keys(before).contains(key@));
            assert(window_keys(self.detached_windows@) =~= window_keys(before).push(key@));
        }
    }

    /// Forgets the detached window with this key (it was closed).
    pub fn unregister_detached_window(&mut self, key: &str)
        ensures
            final(self).detached_windows@ == keep(old(self).detached_windows@, |k: String| k@ == key@),
            final(self).records == old(self).records,
    {
        let ghost all = self.detached_windows@;
        let mut rest = Vec::new();
        std::mem::swap(&mut self.detached_windows, &mut rest);
        let n = rest.len();
        let mut i: usize = 0;
        assert(all.subrange(0, 0) =~= Seq::<String>::empty());
        assert(all.subrange(0, n as int) =~= all);
        while rest.len() > 0
            invariant
                i + rest.len() == n,
                n == all.len(),
                rest@ == all.subrange(i as int, n as int),
                self.detached_windows@ == keep(all.subrange(0, i as int), |k: String| k@ == key@),
                self.records == old(self).records,
            decreases rest.len(),
        {
            let k = rest.remove(0);
            proof {
                let q = all.subrange(0, i + 1);
                assert(q.drop_last() =~= all.subrange(0, i as int));
                assert(q.last() == k);
            }
            if !crate::text::str_eq(k.as_str(), key) {
                self.detached_windows.push(k);
            }
            i = i + 1;
            assert(rest@ =~= all.subrange(i as int, n as int));
        }
    }

    /// Whether a detached window with this key is open.
    pub fn has_detached_window(&self, key: &str) -> (r: bool)
        ensures
            r == window_keys(self.detached_windows@).contains(key@),
    {
        let mut i: usize = 0;
        while i < self.detached_windows.len()
            invariant
                i <= self.detached_windows.len(),
                forall|j: int| 0 <= j < i ==> (#[trigger] self.detached_windows@[j])@ != key@,
            decreases self.detached_windows.len() - i,
        {
            if crate::text::str_eq(self.detached_windows[i].as_str(), key) {
                assert(window_keys(self.detached_windows@)[i as int] == key@);
                return true;
            }
            i = i + 1;
        }
        proof {
            let v = window_keys(self.detached_windows@);
            if v.contains(key@) {
                let j = choose|j: int| 0 <= j < v.len() && #[trigger] v[j] == key@;
                assert(self.detached_windows@[j]@ == key@);
            }
        }
        false
    }
}


/// Two record lists hold the same data.
pub open spec fn same_records(a: Seq<ExecutionRecord>, b: Seq<ExecutionRecord>) -> bool {
    a.len() == b.len() && forall|i: int| 0 <= i < a.len() ==> same_record(#[trigger] a[i], b[i])
}

/// Whether a stored "use a detached window" setting is on: only the text
/// `true` (whitespace around it aside) is; a missing setting is off.
pub open spec fn detached_flag_spec(stored: Option<Seq<char>>) -> bool {
    match stored {
        Some(v) => trim_seq(v) == "true"@,
        None => false,
    }
}

/// Reads a stored "use a detached window" setting.
pub fn detached_flag_value(stored: Option<&str>) -> (r: bool)
    ensures
        r == detached_flag_spec(match stored { Some(v) => Some(v@), None => None }),
{
    match stored {
        Some(v) => {
            let c = chars_of(v);
            let t = trimmed(c.as_slice());
            let expected = chars_of("true");
            chars_eq(t.as_slice(), expected.as_slice())
        },
        None => false,
    }
}

impl History {
    /// Copies of the selected records, in history order.
    pub fn selected_record_copies(&self) -> (r: Vec<ExecutionRecord>)
        ensures
            same_records(r@, selected_records(self.records@, self.selected@)),
    {
        let mut out: Vec<ExecutionRecord> = Vec::new();
        let mut i: usize = 0;
        assert(self.records@.subrange(0, 0) =~= Seq::<ExecutionRecord>::empty());
        while i < self.records.len()
            invariant
                i <= self.records.len(),
                same_records(out@, selected_records(self.records@.subrange(0, i as int), self.selected@)),
            decreases self.records.len() - i,
        {
            proof {
                let q = self.records@.subrange(0, i + 1);
                assert(q.drop_last() =~= self.records@.subrange(0, i as int));
                assert(q.last() == self.records@[i as int]);
            }
            if self.selected.contains(&self.records[i].id) {
                out.push(self.records[i].clone());
            }
            i = i + 1;
        }
        assert(self.records@.subrange(0, self.records.len() as int) =~= self.records@);
        out
    }

    /// Compares the selected records when at least two are selected: in a
    /// detached window when that setting is on, else in the viewer dialog.
    pub fn start_comparison(&mut self) -> (r: ViewAction)
        ensures
            selected_records(old(self).records@, old(self).selected@).len() < 2 ==> r is Nothing
                && *final(self) == *old(self),
            selected_records(old(self).records@, old(self).selected@).len() >= 2 ==> {
                if old(self).detached_comparison {
                    &&& detached_opened(
                        old(self).detached_windows@,
                        final(self).detached_windows@,
                        selected_records(old(self).records@, old(self).selected@),
                        ViewModalTab::Formatted,
                        false,
                        r,
                    )
                    &&& *final(self) == (History { detached_windows: final(self).detached_windows, ..*old(self) })
                } else {
                    &&& r is ShowModal
                    &&& same_records(final(self).view_records@, selected_records(old(self).records@, old(self).selected@))
                    &&& final(self).show_view_modal
                    &&& final(self).records == old(self).records
                    &&& final(self).selected == old(self).selected
                }
            },
    {
        let selected = self.selected_record_copies();
        if selected.len() >= 2 {
            if self.detached_comparison {
                let ghost w0 = self.detached_windows@;
                let ghost sel = selected@;
                let r = self.open_detached_window(selected, ViewModalTab::Formatted, false);
                proof {
                    lemma_detached_opened_copy(w0, self.detached_windows@, sel,
                        selected_records(old(self).records@, old(self).selected@), ViewModalTab::Formatted, false, r);
                }
                return r;
            }
            self.view_records = selected;
            self.show_view_modal = true;
            return ViewAction::ShowModal;
        }
        ViewAction::Nothing
    }

    /// Shows one record: in a detached window when that setting is on,
    /// else in the viewer dialog.
    pub fn show_single_record(&mut self, record: ExecutionRecord) -> (r: ViewAction)
        ensures
            old(self).detached_record_view ==> {
                &&& detached_opened(
                    old(self).detached_windows@,
                    final(self).detached_windows@,
                    seq![record],
                    ViewModalTab::Formatted,
                    false,
                    r,
                )
                &&& *final(self) == (History { detached_windows: final(self).detached_windows, ..*old(self) })
            },
            !old(self).detached_record_view ==> {
                &&& r is ShowModal
                &&& final(self).view_records@ == seq![record]
                &&& final(self).show_view_modal
                &&& *final(self) == (History { view_records: final(self).view_records, show_view_modal: true, ..*old(self) })
            },
    {
        let mut v: Vec<ExecutionRecord> = Vec::new();
        v.push(record);
        assert(v@ =~= seq![record]);
        if self.detached_record_view {
            return self.open_detached_window(v, ViewModalTab::Formatted, false);
        }
        self.view_records = v;
        self.show_view_modal = true;
        ViewAction::ShowModal
    }

    /// Shows the record with this id (if it exists) and closes the context
    /// menu.
    pub fn open_view_record(&mut self, record_id: u64) -> (r: ViewAction)
        ensures
            final(self).context_menu is None,
            final(self).records == old(self).records,
            final(self).selected == old(self).selected,
            first_pos(old(self).records@, record_is(record_id)) is None ==> r is Nothing,
            first_pos(old(self).records@, record_is(record_id)) matches Some(k) ==> {
                let rec = old(self).records@[k];
                if old(self).detached_record_view {
                    &&& detached_opened(
                        old(self).detached_windows@,
                        final(self).detached_windows@,
                        seq![rec],
                        ViewModalTab::Formatted,
                        false,
                        r,
                    )
                    &&& final(self).show_view_modal == old(self).show_view_modal
                    &&& final(self).view_records == old(self).view_records
                } else {
                    &&& r is ShowModal
                    &&& final(self).view_records@.len() == 1
                    &&& same_record(final(self).view_records@[0], rec)
                    &&& final(self).show_view_modal
                }
            },
    {
        let r = match record_index(self.records.as_slice(), record_id) {
            Some(k) => {
                let rec = self.records[k].clone();
                let ghost w0 = self.detached_windows@;
                let ghost copy = rec;
                let r = self.show_single_record(rec);
                proof {
                    if old(self).detached_record_view {
                        lemma_detached_opened_copy(w0, self.detached_windows@, seq![copy], seq![self.records@[k as int]],
                            ViewModalTab::Formatted, false, r);
                    }
                }
                r
            },
            None => ViewAction::Nothing,
        };
        self.context_menu = None;
        r
    }

    /// Moves the records of the viewer dialog into a detached window,
    /// keeping its tab and "only differences" choice; the dialog closes.
    pub fn detach_current_view_modal(&mut self) -> (r: ViewAction)
        ensures
            old(self).view_records@.len() == 0 ==> r is Nothing && *final(self) == *old(self),
            old(self).view_records@.len() > 0 ==> {
                &&& detached_opened(
                    old(self).detached_windows@,
                    final(self).detached_windows@,
                    old(self).view_records@,
                    old(self).view_modal_tab,
                    old(self).show_only_diff,
                    r,
                )
                &&& !final(self).show_view_modal
                &&& final(self).view_records@.len() == 0
                &&& !final(self).show_only_diff
                &&& final(self).view_modal_tab == ViewModalTab::Formatted
                &&& final(self).records == old(self).records
            },
    {
        if self.view_records.len() == 0 {
            return ViewAction::Nothing;
        }
        let records = clone_records(self.view_records.as_slice());
        let tab = self.view_modal_tab;
        let diff = self.show_only_diff;
        let ghost copies = records@;
        self.close_view_modal();
        let ghost w0 = self.detached_windows@;
        let r = self.open_detached_window(records, tab, diff);
        proof {
            lemma_detached_opened_copy(w0, self.detached_windows@, copies, old(self).view_records@, tab, diff, r);
        }
        r
    }
}


/// The message shown when the preset is missing.
pub open spec fn missing_preset_error() -> Seq<char> {
    "左侧「LLM 设定」未设置：请先选择 Preset"@
}

/// The message shown when no model of the preset is selected.
pub open spec fn missing_model_error() -> Seq<char> {
    "左侧「LLM 设定」未设置：请选择当前 Preset 下的模型"@
}

/// Whether some preset has this id.
pub open spec fn preset_listed(presets: Seq<LlmPreset>, id: i64) -> bool {
    exists|i: int| 0 <= i < presets.len() && (#[trigger] presets[i]).id == id
}

/// Whether a model has this id and belongs to this preset.
pub open spec fn model_of(id: i64, preset_id: i64) -> spec_fn(LlmModel) -> bool {
    |m: LlmModel| m.id == id && m.preset_id == Some(preset_id)
}

/// Whether a preset has this id.
pub open spec fn preset_id_is(id: i64) -> spec_fn(LlmPreset) -> bool {
    |p: LlmPreset| p.id == id
}

/// Whether a model has this id.
pub open spec fn model_id_is(id: i64) -> spec_fn(LlmModel) -> bool {
    |m: LlmModel| m.id == id
}

/// Whether a provider has this id.
pub open spec fn provider_is(id: i64) -> spec_fn(LlmProvider) -> bool {
    |p: LlmProvider| p.id == id
}

/// The name of the model with this id (empty when it is not listed).
pub open spec fn model_name_of(models: Seq<LlmModel>, id: Option<i64>) -> Seq<char> {
    match id {
        Some(m) => match first_pos(models, |x: LlmModel| x.id == m) {
            Some(k) => models[k].name@,
            None => Seq::<char>::empty(),
        },
        None => Seq::<char>::empty(),
    }
}

/// The history after a record is added: at most the last 50 records stay,
/// the new one last.
pub open spec fn kept_before_new(before: Seq<ExecutionRecord>, after: Seq<ExecutionRecord>) -> bool {
    let all_len = before.len() + 1;
    &&& after.len() == (if all_len > 50 { 50 } else { all_len })
    &&& after.drop_last() == (if all_len > 50 {
        before.subrange(all_len - 50, before.len() as int)
    } else {
        before
    })
}

/// The record of the session's run: the next id, the time, the selected
/// model's name, the session's settings, messages, tools and result.
pub open spec fn run_record(d: PromptDebugger, timestamp: u64, rec: ExecutionRecord) -> bool {
    &&& rec.id == d.history.next_record_id
    &&& rec.timestamp == timestamp
    &&& rec.model_name@ == model_name_of(d.models@, d.selected_model_id)
    &&& rec.max_tokens == d.session.max_tokens
    &&& rec.thinking_enabled == d.session.thinking_enabled
    &&& rec.thinking_budget == d.session.thinking_budget_tokens
    &&& rec.messages@ == d.session.messages@
    &&& rec.tools@ == d.session.tools@
    &&& rec.result == d.session.call_state
}

/// What a call is made with, once the form is complete.
pub struct CallTarget {
    /// Position of the model in `models`.
    pub model: usize,
    /// Position of the model's provider in `providers`.
    pub provider: usize,
}

fn preset_exists(presets: &[LlmPreset], id: i64) -> (r: bool)
    ensures
        r == preset_listed(presets@, id),
{
    let mut i: usize = 0;
    while i < presets.len()
        invariant
            i <= presets.len(),
            forall|j: int| 0 <= j < i ==> (#[trigger] presets@[j]).id != id,
        decreases presets.len() - i,
    {
        if presets[i].id == id {
            return true;
        }
        i = i + 1;
    }
    false
}

fn model_position(models: &[LlmModel], id: i64, preset_id: i64) -> (r: Option<usize>)
    ensures
        r matches Some(p) ==> p < models.len() && first_pos(models@, model_of(id, preset_id)) == Some(p as int),
        r is None ==> first_pos(models@, model_of(id, preset_id)) is None,
{
    proof { lemma_first_pos(models@, model_of(id, preset_id)); }
    let mut i: usize = 0;
    while i < models.len()
        invariant
            i <= models.len(),
            forall|j: int| 0 <= j < i ==> !model_of(id, preset_id)(#[trigger] models@[j]),
        decreases models.len() - i,
    {
        if models[i].id == id && models[i].preset_id == Some(preset_id) {
            proof { lemma_first_pos_at(models@, model_of(id, preset_id), i as int); }
            return Some(i);
        }
        i = i + 1;
    }
    None
}

fn model_name_position(models: &[LlmModel], id: i64) -> (r: Option<usize>)
    ensures
        r matches Some(p) ==> p < models.len() && first_pos(models@, |x: LlmModel| x.id == id) == Some(p as int),
        r is None ==> first_pos(models@, |x: LlmModel| x.id == id) is None,
{
    proof { lemma_first_pos(models@, |x: LlmModel| x.id == id); }
    let mut i: usize = 0;
    while i < models.len()
        invariant
            i <= models.len(),
            forall|j: int| 0 <= j < i ==> !(|x: LlmModel| x.id == id)(#[trigger] models@[j]),
        decreases models.len() - i,
    {
        if models[i].id == id {
            proof { lemma_first_pos_at(models@, |x: LlmModel| x.id == id, i as int); }
            return Some(i);
        }
        i = i + 1;
    }
    None
}

fn provider_position(providers: &[LlmProvider], id: i64) -> (r: Option<usize>)
    ensures
        r matches Some(p) ==> p < providers.len() && first_pos(providers@, provider_is(id)) == Some(p as int),
        r is None ==> first_pos(providers@, provider_is(id)) is None,
{
    proof { lemma_first_pos(providers@, provider_is(id)); }
    let mut i: usize = 0;
    while i < providers.len()
        invariant
            i <= providers.len(),
            forall|j: int| 0 <= j < i ==> !provider_is(id)(#[trigger] providers@[j]),
        decreases providers.len() - i,
    {
        if providers[i].id == id {
            proof { lemma_first_pos_at(providers@, provider_is(id), i as int); }
            return Some(i);
        }
        i = i + 1;
    }
    None
}

/// The prompt debugger's state, apart from the floating-point sampling
/// parameters and the widgets, which the host keeps.
pub struct PromptDebugger {
    /// The application that hosts the view.
    pub identity: AppIdentity,
    pub presets: Vec<LlmPreset>,
    pub models: Vec<LlmModel>,
    pub providers: Vec<LlmProvider>,
    pub selected_preset_id: Option<i64>,
    pub selected_model_id: Option<i64>,
    /// Whether presets and models have been loaded once.
    pub loaded: bool,
    /// The problem with the LLM settings form found by the last run.
    pub form_error: Option<String>,
    pub session: Session,
    pub history: History,
}

impl PromptDebugger {
    /// The registry key of the detached window for a group of records: the
    /// same for any order of the group.
    pub fn detached_window_key(records: &[ExecutionRecord]) -> (r: String)
        ensures
            r@ == window_key_spec(record_ids(records@)),
    {
        let mut ids: Vec<u64> = Vec::new();
        let mut i: usize = 0;
        while i < records.len()
            invariant
                i <= records@.len(),
                ids@ == record_ids(records@.subrange(0, i as int)),
            decreases records.len() - i,
        {
            ids.push(records[i].id);
            i = i + 1;
            assert(ids@ =~= record_ids(records@.subrange(0, i as int)));
        }
        assert(records@.subrange(0, records@.len() as int) =~= records@);
        window_key_for_ids(ids.as_slice())
    }

    /// The record ids that a detached window key names.
    pub fn detached_window_key_ids(key: &str) -> (r: Vec<u64>)
        ensures
            r@ == key_ids_spec(key@),
    {
        window_key_ids(key)
    }

    /// The row of the selected preset in the preset picker, where it is
    /// listed.
    pub fn preset_select_index(&self) -> (r: Option<usize>)
        ensures
            self.selected_preset_id is None ==> r is None,
            self.selected_preset_id matches Some(id) ==> match r {
                Some(k) => first_pos(self.presets@, preset_id_is(id)) == Some(k as int),
                None => first_pos(self.presets@, preset_id_is(id)) is None,
            },
    {
        let id = match self.selected_preset_id {
            Some(id) => id,
            None => return None,
        };
        proof { lemma_first_pos(self.presets@, preset_id_is(id)); }
        let mut i: usize = 0;
        while i < self.presets.len()
            invariant
                self.selected_preset_id == Some(id),
                i <= self.presets@.len(),
                forall|j: int| 0 <= j < i ==> (#[trigger] self.presets@[j]).id != id,
            decreases self.presets.len() - i,
        {
            if self.presets[i].id == id {
                proof { lemma_first_pos_at(self.presets@, preset_id_is(id), i as int); }
                return Some(i);
            }
            i = i + 1;
        }
        None
    }

    /// The row of the selected model in the model picker, which lists the
    /// selected preset's models, where it is one of them.
    pub fn model_select_index(&self) -> (r: Option<usize>)
        ensures
            self.selected_model_id is None ==> r is None,
            self.selected_model_id matches Some(id) ==> match r {
                Some(k) => first_pos(selectable_models(self.models@, self.selected_preset_id), model_id_is(id)) == Some(k as int),
                None => first_pos(selectable_models(self.models@, self.selected_preset_id), model_id_is(id)) is None,
            },
    {
        let id = match self.selected_model_id {
            Some(id) => id,
            None => return None,
        };
        let listed = models_for_preset(self.models.as_slice(), self.selected_preset_id);
        let ghost ms = selectable_models(self.models@, self.selected_preset_id);
        proof { lemma_first_pos(ms, model_id_is(id)); }
        let mut i: usize = 0;
        while i < listed.len()
            invariant
                self.selected_model_id == Some(id),
                ms == selectable_models(self.models@, self.selected_preset_id),
                listed@.map_values(|m: &LlmModel| *m) == ms,
                i <= listed@.len(),
                forall|j: int| 0 <= j < i ==> (#[trigger] ms[j]).id != id,
            decreases listed.len() - i,
        {
            assert(ms[i as int] == *listed@[i as int]);
            if listed[i].id == id {
                proof { lemma_first_pos_at(ms, model_id_is(id), i as int); }
                return Some(i);
            }
            i = i + 1;
        }
        None
    }

    /// The debugger of an application, before anything is loaded.
    pub fn new(identity: AppIdentity) -> (r: Self)
        ensures
            r.identity == identity,
            r.presets@.len() == 0 && r.models@.len() == 0 && r.providers@.len() == 0,
            r.selected_preset_id is None && r.selected_model_id is None,
            !r.loaded,
            r.form_error is None,
            default_session(r.session),
            fresh_history(r.history),
    {
        PromptDebugger {
            identity,
            presets: Vec::new(),
            models: Vec::new(),
            providers: Vec::new(),
            selected_preset_id: None,
            selected_model_id: None,
            loaded: false,
            form_error: None,
            session: Session::new(),
            history: History::new(),
        }
    }

    /// Takes freshly loaded presets, models and providers. The preset and
    /// model that were selected when the load started stay selected while
    /// they still exist (the model: under the kept preset); otherwise the
    /// selection clears.
    pub fn reload_presets_and_models(
        &mut self,
        presets: Vec<LlmPreset>,
        models: Vec<LlmModel>,
        providers: Vec<LlmProvider>,
        current_preset_id: Option<i64>,
        current_model_id: Option<i64>,
    )
        ensures
            final(self).presets@ == presets@,
            final(self).models@ == models@,
            final(self).providers@ == providers@,
            final(self).selected_preset_id == (match current_preset_id {
                Some(p) => if preset_listed(presets@, p) { Some(p) } else { None },
                None => None,
            }),
            final(self).selected_model_id == (match current_model_id {
                Some(m) => if model_selectable(models@, final(self).selected_preset_id, m) { Some(m) } else { None },
                None => None,
            }),
            final(self).loaded,
            final(self).session == old(self).session,
            final(self).history == old(self).history,
    {
        self.presets = presets;
        self.models = models;
        self.providers = providers;
        let keep_preset = match current_preset_id {
            Some(p) => preset_exists(self.presets.as_slice(), p),
            None => false,
        };
        self.selected_preset_id = if keep_preset { current_preset_id } else { None };
        self.selected_model_id = valid_model_selection(self.models.as_slice(), self.selected_preset_id, current_model_id);
        self.loaded = true;
    }

    /// The user picked a preset (or cleared the pick). A preset that is not
    /// listed counts as none; changing the preset drops the model. The form
    /// error clears.
    pub fn on_preset_select(&mut self, preset_id: Option<i64>)
        ensures
            ({
                let p = match preset_id {
                    Some(id) => if preset_listed(old(self).presets@, id) { Some(id) } else { None },
                    None => None,
                };
                &&& final(self).selected_preset_id == p
                &&& final(self).selected_model_id == (if old(self).selected_preset_id != p {
                    None
                } else {
                    old(self).selected_model_id
                })
            }),
            final(self).form_error is None,
            final(self).presets == old(self).presets,
            final(self).models == old(self).models,
            final(self).session == old(self).session,
            final(self).history == old(self).history,
    {
        let p = match preset_id {
            Some(id) => if preset_exists(self.presets.as_slice(), id) { Some(id) } else { None },
            None => None,
        };
        if self.selected_preset_id != p {
            self.selected_preset_id = p;
            self.selected_model_id = None;
        }
        self.form_error = None;
    }

    /// The user picked a model: it is kept only when it belongs to the
    /// selected preset. The form error clears.
    pub fn on_model_select(&mut self, model_id: Option<i64>)
        ensures
            final(self).selected_model_id == (match model_id {
                Some(m) => if model_selectable(old(self).models@, old(self).selected_preset_id, m) { Some(m) } else { None },
                None => None,
            }),
            final(self).selected_preset_id == old(self).selected_preset_id,
            final(self).form_error is None,
            final(self).presets == old(self).presets,
            final(self).models == old(self).models,
            final(self).session == old(self).session,
            final(self).history == old(self).history,
    {
        self.selected_model_id = valid_model_selection(self.models.as_slice(), self.selected_preset_id, model_id);
        self.form_error = None;
    }

    /// Takes the stored "use a detached window" settings for comparisons
    /// and for single records. Returns, for each, whether it was missing
    /// (the host then stores its default, off).
    pub fn reload_detached_window_settings(
        &mut self,
        stored_comparison: Option<&str>,
        stored_record: Option<&str>,
    ) -> (r: (bool, bool))
        ensures
            final(self).history.detached_comparison == detached_flag_spec(
                match stored_comparison { Some(v) => Some(v@), None => None },
            ),
            final(self).history.detached_record_view == detached_flag_spec(
                match stored_record { Some(v) => Some(v@), None => None },
            ),
            r.0 == stored_comparison is None,
            r.1 == stored_record is None,
            final(self).history.records == old(self).history.records,
            final(self).session == old(self).session,
    {
        self.history.detached_comparison = detached_flag_value(stored_comparison);
        self.history.detached_record_view = detached_flag_value(stored_record);
        (stored_comparison.is_none(), stored_record.is_none())
    }

    /// Forgets every detached window; returns their keys, for the host to
    /// close them (the main window is closing).
    pub fn close_all_detached_windows(&mut self) -> (r: Vec<String>)
        ensures
            r@ == old(self).history.detached_windows@,
            final(self).history.detached_windows@.len() == 0,
            final(self).history.records == old(self).history.records,
            final(self).session == old(self).session,
    {
        self.history.close_all_detached_windows()
    }

    /// Puts back the stored LLM settings (the integer and flag fields; the
    /// host puts back the floating-point ones).
    pub fn apply_saved_settings(
        &mut self,
        selected_preset_id: Option<i64>,
        selected_model_id: Option<i64>,
        max_tokens: u32,
        thinking_enabled: bool,
        thinking_budget_tokens: u32,
    )
        ensures
            final(self).selected_preset_id == selected_preset_id,
            final(self).selected_model_id == selected_model_id,
            final(self).session.max_tokens == max_tokens,
            final(self).session.thinking_enabled == thinking_enabled,
            final(self).session.thinking_budget_tokens == thinking_budget_tokens,
            final(self).session.messages == old(self).session.messages,
            final(self).session.tools == old(self).session.tools,
            final(self).history == old(self).history,
    {
        self.selected_preset_id = selected_preset_id;
        self.selected_model_id = selected_model_id;
        self.session.max_tokens = max_tokens;
        self.session.thinking_enabled = thinking_enabled;
        self.session.thinking_budget_tokens = thinking_budget_tokens;
    }

    /// Checks the LLM settings before a run. The form error clears first.
    /// Without a listed selected preset, or without a selected model of that
    /// preset, the form error names what is missing, the call fails, and
    /// `Err` comes back; a model whose provider has no base URL fails the
    /// call the same way, without a form error. Otherwise the call is
    /// loading and the model and its provider come back.
    pub fn begin_execution(&mut self) -> (r: Result<CallTarget, ()>)
        ensures
            ({
                let preset_ok = old(self).selected_preset_id matches Some(p) && preset_listed(old(self).presets@, p);
                let p = old(self).selected_preset_id->Some_0;
                let model = match old(self).selected_model_id {
                    Some(m) => first_pos(old(self).models@, model_of(m, p)),
                    None => None,
                };
                if !preset_ok {
                    &&& r is Err
                    &&& final(self).form_error matches Some(e) && e@ == missing_preset_error()
                    &&& final(self).session.call_state matches CallState::Error(e) && e@ == "请先选择 Preset"@
                } else if model is None {
                    &&& r is Err
                    &&& final(self).form_error matches Some(e) && e@ == missing_model_error()
                    &&& final(self).session.call_state matches CallState::Error(e) && e@ == "请选择当前 Preset 下的模型"@
                } else {
                    let k = model->Some_0;
                    let pv = match old(self).models@[k].provider_id {
                        Some(pid) => first_pos(old(self).providers@, provider_is(pid)),
                        None => None,
                    };
                    &&& final(self).form_error is None
                    &&& if pv is Some && old(self).providers@[pv->Some_0].base_url@.len() > 0 {
                        &&& r matches Ok(t) && t.model == k && t.provider == pv->Some_0
                        &&& final(self).session.call_state == CallState::Loading
                    } else {
                        &&& r is Err
                        &&& final(self).session.call_state matches CallState::Error(e) && e@ == "所选模型未配置 Provider base_url"@
                    }
                }
            }),
            final(self).presets == old(self).presets,
            final(self).models == old(self).models,
            final(self).providers == old(self).providers,
            final(self).selected_preset_id == old(self).selected_preset_id,
            final(self).selected_model_id == old(self).selected_model_id,
            final(self).session == (Session { call_state: final(self).session.call_state, ..old(self).session }),
            final(self).history == old(self).history,
            final(self).identity == old(self).identity,
            final(self).loaded == old(self).loaded,
    {
        self.form_error = None;
        let p = match self.selected_preset_id {
            Some(p) => p,
            None => {
                self.form_error = Some(String::from_str("左侧「LLM 设定」未设置：请先选择 Preset"));
                self.session.call_state = CallState::Error(String::from_str("请先选择 Preset"));
                return Err(());
            },
        };
        if !preset_exists(self.presets.as_slice(), p) {
            self.form_error = Some(String::from_str("左侧「LLM 设定」未设置：请先选择 Preset"));
            self.session.call_state = CallState::Error(String::from_str("请先选择 Preset"));
            return Err(());
        }
        let k = match self.selected_model_id {
            Some(m) => model_position(self.models.as_slice(), m, p),
            None => None,
        };
        let k = match k {
            Some(k) => k,
            None => {
                self.form_error = Some(String::from_str("左侧「LLM 设定」未设置：请选择当前 Preset 下的模型"));
                self.session.call_state = CallState::Error(String::from_str("请选择当前 Preset 下的模型"));
                return Err(());
            },
        };
        let pv = match self.models[k].provider_id {
            Some(pid) => provider_position(self.providers.as_slice(), pid),
            None => None,
        };
        match pv {
            Some(j) => {
                if !self.providers[j].base_url.as_str().is_empty() {
                    self.session.call_state = CallState::Loading;
                    return Ok(CallTarget { model: k, provider: j });
                }
            },
            None => {},
        }
        self.session.call_state = CallState::Error(String::from_str("所选模型未配置 Provider base_url"));
        Err(())
    }

    /// Adds the finished call to the history: the next record id, the
    /// selected model's name, the session's messages, tools, settings and
    /// result.
    pub fn save_execution_record(&mut self, timestamp: u64)
        requires
            old(self).history.next_record_id < u64::MAX,
        ensures
            final(self).history.next_record_id == old(self).history.next_record_id + 1,
            final(self).history.page == 0,
            kept_before_new(old(self).history.records@, final(self).history.records@),
            run_record(*old(self), timestamp, final(self).history.records@.last()),
            final(self).history == (History {
                records: final(self).history.records,
                next_record_id: final(self).history.next_record_id,
                page: 0,
                ..old(self).history
            }),
            final(self).session == old(self).session,
    {
        let model_name = match self.selected_model_id {
            Some(m) => match model_name_position(self.models.as_slice(), m) {
                Some(k) => self.models[k].name.clone(),
                None => String::new(),
            },
            None => String::new(),
        };
        let record = ExecutionRecord {
            id: self.history.next_record_id,
            timestamp,
            model_name,
            max_tokens: self.session.max_tokens,
            thinking_enabled: self.session.thinking_enabled,
            thinking_budget: self.session.thinking_budget_tokens,
            messages: clone_messages(self.session.messages.as_slice()),
            tools: clone_tools(self.session.tools.as_slice()),
            result: self.session.call_state.clone(),
        };
        self.history.next_record_id = self.history.next_record_id + 1;
        let ghost before = self.history.records@;
        self.history.push_record(record);
        proof {
            let all = before.push(record);
            if all.len() > 50 {
                assert(all.subrange(all.len() - 50, all.len() as int).drop_last()
                    =~= before.subrange(all.len() - 50, before.len() as int));
            } else {
                assert(all.drop_last() =~= before);
            }
        }
    }

    /// Ends a run: the call state takes the reply or the error, the run is
    /// added to the history, and the new record is shown (in a detached
    /// window or the viewer dialog, as set).
    pub fn finish_execution(&mut self, response: Result<String, String>, timestamp: u64) -> (r: ViewAction)
        requires
            old(self).history.next_record_id < u64::MAX,
        ensures
            final(self).session.call_state == (match response {
                Ok(t) => CallState::Success(t),
                Err(e) => CallState::Error(e),
            }),
            final(self).history.next_record_id == old(self).history.next_record_id + 1,
            final(self).history.page == 0,
            kept_before_new(old(self).history.records@, final(self).history.records@),
            run_record(
                PromptDebugger { session: Session { call_state: final(self).session.call_state, ..old(self).session }, ..*old(self) },
                timestamp,
                final(self).history.records@.last(),
            ),
            final(self).history.selected == old(self).history.selected,
            final(self).session.messages == old(self).session.messages,
            final(self).session.tools == old(self).session.tools,
            old(self).history.detached_record_view ==> {
                &&& detached_opened(
                    old(self).history.detached_windows@,
                    final(self).history.detached_windows@,
                    seq![final(self).history.records@.last()],
                    ViewModalTab::Formatted,
                    false,
                    r,
                )
                &&& final(self).history.show_view_modal == old(self).history.show_view_modal
                &&& final(self).history.view_records == old(self).history.view_records
            },
            !old(self).history.detached_record_view ==> {
                &&& r is ShowModal
                &&& final(self).history.view_records@.len() == 1
                &&& same_record(final(self).history.view_records@[0], final(self).history.records@.last())
                &&& final(self).history.show_view_modal
                &&& final(self).history.detached_windows == old(self).history.detached_windows
            },
    {
        self.session.call_state = match response {
            Ok(t) => CallState::Success(t),
            Err(e) => CallState::Error(e),
        };
        self.save_execution_record(timestamp);
        let n = self.history.records.len();
        let last = self.history.records[n - 1].clone();
        let ghost w0 = self.history.detached_windows@;
        let ghost copy = last;
        let r = self.history.show_single_record(last);
        proof {
            if old(self).history.detached_record_view {
                lemma_detached_opened_copy(w0, self.history.detached_windows@, seq![copy],
                    seq![self.history.records@.last()], ViewModalTab::Formatted, false, r);
            }
        }
        r
    }

    /// Loads a history record back into the editor: its messages, tools
    /// and integer and flag settings (the host loads the floating-point
    /// ones); the context menu closes.
    pub fn apply_record(&mut self, record: &ExecutionRecord)
        ensures
            final(self).session.messages@ == record.messages@,
            final(self).session.tools@ == record.tools@,
            final(self).session.max_tokens == record.max_tokens,
            final(self).session.thinking_enabled == record.thinking_enabled,
            final(self).session.thinking_budget_tokens == record.thinking_budget,
            final(self).session.next_msg_id == old(self).session.next_msg_id,
            final(self).history.context_menu is None,
            final(self).history.records == old(self).history.records,
    {
        self.session.messages = clone_messages(record.messages.as_slice());
        self.session.max_tokens = record.max_tokens;
        self.session.thinking_enabled = record.thinking_enabled;
        self.session.thinking_budget_tokens = record.thinking_budget;
        self.session.tools = clone_tools(record.tools.as_slice());
        self.history.context_menu = None;
    }
}

} // verus!
