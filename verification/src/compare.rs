//! The texts of the record viewer and comparison: the value of each
//! compared dimension, whether a dimension differs between records, the
//! copied text of a group of records, and the detached window's size and
//! title.

use vstd::prelude::*;
use crate::call::join_seq;
use crate::debugger::ExecutionRecord;
use crate::json::{derefs, diff_paths, json_clone, json_option_view, json_view, parse_json, parsed_json, text_set, JsonValue};
use crate::message::{role_label, CallState, DebugMessage, ToolDefinition};
use crate::text::{decimal, first_index_of, join_with, lemma_first_index_at, lemma_split_join, push_decimal, split_on, str_eq};

verus! {

/// The floating-point settings of a record (temperature, top-p), as two
/// decimals write them; the host formats them.
pub struct SamplingTexts {
    pub temperature: String,
    pub top_p: String,
}

/// A message as one line: its role label in brackets, then its content.
pub open spec fn message_line(m: DebugMessage) -> Seq<char> {
    "["@ + role_label(m.role) + "] "@ + m.content@
}

/// The messages, one per line.
pub open spec fn messages_text(ms: Seq<DebugMessage>) -> Seq<char> {
    join_seq(ms.map_values(|m: DebugMessage| message_line(m)), "\n"@)
}

/// A tool as one line: its name and description, behind a dash when
/// `bulleted`.
pub open spec fn tool_line(t: ToolDefinition, bulleted: bool) -> Seq<char> {
    (if bulleted { "- "@ } else { Seq::<char>::empty() }) + t.name@ + ": "@ + t.description@
}

/// The tools, one per line, or `无工具` where there are none.
pub open spec fn tools_text(ts: Seq<ToolDefinition>, bulleted: bool) -> Seq<char> {
    if ts.len() == 0 {
        "无工具"@
    } else {
        join_seq(ts.map_values(|t: ToolDefinition| tool_line(t, bulleted)), "\n"@)
    }
}

/// The text of a call's result: the reply or the error, or `无结果`.
pub open spec fn result_text(r: CallState) -> Seq<char> {
    match r {
        CallState::Success(t) => t@,
        CallState::Error(e) => e@,
        _ => "无结果"@,
    }
}

/// The sampling settings of a record on one line.
pub open spec fn params_text(r: ExecutionRecord, f: SamplingTexts) -> Seq<char> {
    "T="@ + f.temperature@ + " Max="@ + decimal(r.max_tokens as nat) + " TopP="@ + f.top_p@
}

/// The value of a record in a compared dimension (`模型`, `参数`, `消息`,
/// `工具`, `结果`); any other dimension is empty.
pub open spec fn dimension_value(r: ExecutionRecord, f: SamplingTexts, dim: Seq<char>) -> Seq<char> {
    if dim == "模型"@ {
        r.model_name@
    } else if dim == "参数"@ {
        params_text(r, f)
    } else if dim == "消息"@ {
        messages_text(r.messages@)
    } else if dim == "工具"@ {
        tools_text(r.tools@, false)
    } else if dim == "结果"@ {
        result_text(r.result)
    } else {
        Seq::empty()
    }
}

/// The messages, one per line.
fn messages_lines(ms: &[DebugMessage]) -> (r: String)
    ensures
        r@ == messages_text(ms@),
{
    let ghost ps = ms@.map_values(|m: DebugMessage| message_line(m));
    let mut out = String::new();
    let mut k: usize = 0;
    assert(ps.subrange(0, 0) =~= Seq::<Seq<char>>::empty());
    while k < ms.len()
        invariant
            k <= ms@.len(),
            ps == ms@.map_values(|m: DebugMessage| message_line(m)),
            out@ == join_seq(ps.subrange(0, k as int), "\n"@),
        decreases ms.len() - k,
    {
        proof {
            let q = ps.subrange(0, k + 1);
            assert(q.drop_last() =~= ps.subrange(0, k as int));
            assert(q.last() == message_line(ms@[k as int]));
            if k == 0 {
                assert(q[0] == message_line(ms@[0]));
            }
        }
        if k > 0 {
            out.append("\n");
        }
        out.append("[");
        out.append(ms[k].role.label());
        out.append("] ");
        out.append(ms[k].content.as_str());
        k = k + 1;
        assert(out@ =~= join_seq(ps.subrange(0, k as int), "\n"@));
    }
    assert(ps.subrange(0, ms.len() as int) =~= ps);
    out
}

/// The tools, one per line (behind a dash when `bulleted`), or `无工具`.
fn tools_lines(ts: &[ToolDefinition], bulleted: bool) -> (r: String)
    ensures
        r@ == tools_text(ts@, bulleted),
{
    if ts.len() == 0 {
        return String::from_str("无工具");
    }
    let ghost ps = ts@.map_values(|t: ToolDefinition| tool_line(t, bulleted));
    let mut out = String::new();
    let mut k: usize = 0;
    assert(ps.subrange(0, 0) =~= Seq::<Seq<char>>::empty());
    while k < ts.len()
        invariant
            k <= ts@.len(),
            ps == ts@.map_values(|t: ToolDefinition| tool_line(t, bulleted)),
            out@ == join_seq(ps.subrange(0, k as int), "\n"@),
        decreases ts.len() - k,
    {
        proof {
            let q = ps.subrange(0, k + 1);
            assert(q.drop_last() =~= ps.subrange(0, k as int));
            assert(q.last() == tool_line(ts@[k as int], bulleted));
            if k == 0 {
                assert(q[0] == tool_line(ts@[0], bulleted));
            }
        }
        if k > 0 {
            out.append("\n");
        }
        if bulleted {
            out.append("- ");
        }
        out.append(ts[k].name.as_str());
        out.append(": ");
        out.append(ts[k].description.as_str());
        proof {
            reveal_strlit("");
        }
        k = k + 1;
        assert(out@ =~= join_seq(ps.subrange(0, k as int), "\n"@));
    }
    assert(ps.subrange(0, ts.len() as int) =~= ps);
    out
}

/// The text of a call's result.
fn result_string(r: &CallState) -> (s: String)
    ensures
        s@ == result_text(*r),
{
    match r {
        CallState::Success(t) => t.clone(),
        CallState::Error(e) => e.clone(),
        _ => String::from_str("无结果"),
    }
}

/// The sampling settings of a record on one line.
fn params_string(r: &ExecutionRecord, f: &SamplingTexts) -> (s: String)
    ensures
        s@ == params_text(*r, *f),
{
    let mut s = String::from_str("T=");
    s.append(f.temperature.as_str());
    s.append(" Max=");
    push_decimal(&mut s, r.max_tokens as u64);
    s.append(" TopP=");
    s.append(f.top_p.as_str());
    s
}

/// The value of a record in a compared dimension; see `dimension_value`.
pub fn get_dimension_value(record: &ExecutionRecord, sampling: &SamplingTexts, dim: &str) -> (r: String)
    ensures
        r@ == dimension_value(*record, *sampling, dim@),
{
    if str_eq(dim, "模型") {
        record.model_name.clone()
    } else if str_eq(dim, "参数") {
        params_string(record, sampling)
    } else if str_eq(dim, "消息") {
        messages_lines(record.messages.as_slice())
    } else if str_eq(dim, "工具") {
        tools_lines(record.tools.as_slice(), false)
    } else if str_eq(dim, "结果") {
        result_string(&record.result)
    } else {
        String::new()
    }
}

/// Whether every record has the first one's value in the dimension; fewer
/// than two records always agree.
pub open spec fn all_same_spec(records: Seq<ExecutionRecord>, sampling: Seq<SamplingTexts>, dim: Seq<char>) -> bool {
    records.len() < 2 || forall|i: int| 1 <= i < records.len() ==>
        dimension_value(#[trigger] records[i], sampling[i], dim) == dimension_value(records[0], sampling[0], dim)
}

/// Whether the dimension is the same in every record (`sampling` holds
/// each record's floating-point settings, in the same order).
pub fn all_same(records: &[ExecutionRecord], sampling: &[SamplingTexts], dim: &str) -> (r: bool)
    requires
        sampling@.len() == records@.len(),
    ensures
        r == all_same_spec(records@, sampling@, dim@),
{
    if records.len() < 2 {
        return true;
    }
    let first = get_dimension_value(&records[0], &sampling[0], dim);
    let mut i: usize = 1;
    while i < records.len()
        invariant
            sampling@.len() == records@.len(),
            1 <= i <= records@.len(),
            first@ == dimension_value(records@[0], sampling@[0], dim@),
            forall|j: int| 1 <= j < i ==>
                dimension_value(#[trigger] records@[j], sampling@[j], dim@) == dimension_value(records@[0], sampling@[0], dim@),
        decreases records.len() - i,
    {
        let v = get_dimension_value(&records[i], &sampling[i], dim);
        if !str_eq(v.as_str(), first.as_str()) {
            return false;
        }
        i = i + 1;
    }
    true
}

/// A rule of forty box-drawing dashes.
pub open spec fn rule_line() -> Seq<char> {
    Seq::new(40, |i: int| '─')
}

/// The sections of a record in the copied text: its settings, messages,
/// tools (behind dashes) and result, each under its heading.
#[verifier::opaque]
pub open spec fn record_sections_text(r: ExecutionRecord, f: SamplingTexts) -> Seq<char> {
    "参数: "@ + params_text(r, f) + "\n"@
        + "消息:\n"@ + messages_text(r.messages@) + "\n"@
        + "工具:\n"@ + tools_text(r.tools@, true) + "\n"@
        + "结果:\n"@ + result_text(r.result) + "\n"@
}

/// The heading line of the record at position `idx` of a comparison: its
/// position counted from one and its model.
#[verifier::opaque]
pub open spec fn block_head(idx: nat, model: Seq<char>) -> Seq<char> {
    "\n["@ + decimal(idx + 1) + "] "@ + model + "\n"@
}

/// The copied text of one record shown alone.
pub open spec fn single_copy_text(r: ExecutionRecord, f: SamplingTexts) -> Seq<char> {
    "模型: "@ + r.model_name@ + "\n"@ + record_sections_text(r, f)
}

/// The copied block of the record at position `idx` of a comparison.
pub open spec fn compared_copy_block(idx: nat, r: ExecutionRecord, f: SamplingTexts) -> Seq<char> {
    block_head(idx, r.model_name@) + record_sections_text(r, f) + rule_line() + "\n"@
}

/// The blocks of the first `n` records of a comparison.
pub open spec fn compared_copy_blocks(records: Seq<ExecutionRecord>, sampling: Seq<SamplingTexts>, n: nat) -> Seq<char>
    decreases n,
{
    if n == 0 {
        Seq::empty()
    } else {
        compared_copy_blocks(records, sampling, (n - 1) as nat)
            + compared_copy_block((n - 1) as nat, records[n - 1], sampling[n - 1])
    }
}

/// The copied text of the records shown: a comparison of several, with a
/// heading and one block per record; one record alone; nothing for none.
pub open spec fn copy_text(records: Seq<ExecutionRecord>, sampling: Seq<SamplingTexts>) -> Seq<char> {
    if records.len() > 1 {
        "对比 ("@ + decimal(records.len()) + " 条记录)\n"@ + rule_line() + "\n"@
            + compared_copy_blocks(records, sampling, records.len())
    } else if records.len() == 1 {
        single_copy_text(records[0], sampling[0])
    } else {
        Seq::empty()
    }
}

/// The text after the first line break of `t` (nothing where it has none).
pub open spec fn after_first_line(t: Seq<char>) -> Seq<char> {
    match first_index_of(t, '\n') {
        Some(i) => t.subrange(i + 1, t.len() as int),
        None => Seq::empty(),
    }
}

/// The blocks of the first `n` records of a comparison, each written from
/// the single-record copy of its record: the position and model line, the
/// single copy without its model line, and a rule.
pub open spec fn blocks_from_single_copies(records: Seq<ExecutionRecord>, sampling: Seq<SamplingTexts>, n: nat)
    -> Seq<char>
    decreases n,
{
    if n == 0 {
        Seq::empty()
    } else {
        blocks_from_single_copies(records, sampling, (n - 1) as nat)
            + "\n["@ + decimal(n as nat) + "] "@ + records[n - 1].model_name@ + "\n"@
            + after_first_line(single_copy_text(records[n - 1], sampling[n - 1]))
            + rule_line() + "\n"@
    }
}

/// A block of a comparison copy repeats the single-record copy of its
/// record, without that copy's model line, under the record's position and
/// model, and ends with a rule (when the model name is one line).
pub proof fn lemma_compared_block_from_single_copy(idx: nat, r: ExecutionRecord, f: SamplingTexts)
    requires
        !r.model_name@.contains('\n'),
    ensures
        compared_copy_block(idx, r, f) == "\n["@ + decimal(idx + 1) + "] "@ + r.model_name@ + "\n"@
            + after_first_line(single_copy_text(r, f)) + rule_line() + "\n"@,
{
    reveal_strlit("模型: ");
    reveal_strlit("\n");
    reveal(block_head);
    let p = "模型: "@ + r.model_name@;
    let single = single_copy_text(r, f);
    assert(single =~= p + "\n"@ + record_sections_text(r, f));
    assert forall|j: int| 0 <= j < p.len() implies single[j] != '\n' by {
        if j >= 4 {
            assert(single[j] == r.model_name@[j - 4]);
        }
    }
    lemma_first_index_at(single, '\n', p.len() as int);
    assert(single.subrange(p.len() as int + 1, single.len() as int) =~= record_sections_text(r, f));
}

/// The copied text of a comparison is its heading and, for each record in
/// turn, its position and model over its single-record copy without the
/// model line, closed by a rule (when every model name is one line).
pub proof fn lemma_comparison_copy_from_single_copies(records: Seq<ExecutionRecord>, sampling: Seq<SamplingTexts>)
    requires
        records.len() >= 2,
        sampling.len() == records.len(),
        forall|i: int| 0 <= i < records.len() ==> !(#[trigger] records[i]).model_name@.contains('\n'),
    ensures
        copy_text(records, sampling) == "对比 ("@ + decimal(records.len()) + " 条记录)\n"@ + rule_line() + "\n"@
            + blocks_from_single_copies(records, sampling, records.len()),
{
    lemma_blocks_from_single_copies(records, sampling, records.len());
}

proof fn lemma_blocks_from_single_copies(records: Seq<ExecutionRecord>, sampling: Seq<SamplingTexts>, n: nat)
    requires
        n <= records.len(),
        sampling.len() == records.len(),
        forall|i: int| 0 <= i < records.len() ==> !(#[trigger] records[i]).model_name@.contains('\n'),
    ensures
        compared_copy_blocks(records, sampling, n) == blocks_from_single_copies(records, sampling, n),
    decreases n,
{
    if n > 0 {
        lemma_blocks_from_single_copies(records, sampling, (n - 1) as nat);
        let k = (n - 1) as int;
        assert(!records[k].model_name@.contains('\n'));
        lemma_compared_block_from_single_copy((n - 1) as nat, records[k], sampling[k]);
        assert(compared_copy_blocks(records, sampling, n) =~= blocks_from_single_copies(records, sampling, n));
    }
}

proof fn lemma_join_newline(ps: Seq<Seq<char>>)
    ensures
        join_seq(ps, "\n"@) == join_with(ps, '\n'),
    decreases ps.len(),
{
    reveal_strlit("\n");
    if ps.len() > 1 {
        lemma_join_newline(ps.drop_last());
        assert(join_with(ps.drop_last(), '\n').push('\n') =~= join_with(ps.drop_last(), '\n') + "\n"@);
    }
}

/// The tools text lists every tool, one line each: for tools whose names
/// and descriptions are single lines, its lines are, in order, each tool's
/// (optional bullet,) name, `: ` and description.
pub proof fn lemma_tools_text_lines(ts: Seq<ToolDefinition>, bulleted: bool)
    requires
        ts.len() > 0,
        forall|i: int| 0 <= i < ts.len() ==> !(#[trigger] ts[i]).name@.contains('\n') && !ts[i].description@.contains('\n'),
    ensures
        split_on(tools_text(ts, bulleted), '\n').len() == ts.len(),
        forall|i: int| 0 <= i < ts.len() ==> #[trigger] split_on(tools_text(ts, bulleted), '\n')[i]
            == (if bulleted { "- "@ } else { Seq::<char>::empty() }) + ts[i].name@ + ": "@ + ts[i].description@,
{
    reveal_strlit("- ");
    reveal_strlit(": ");
    let ps = ts.map_values(|t: ToolDefinition| tool_line(t, bulleted));
    assert forall|i: int| 0 <= i < ps.len() implies !(#[trigger] ps[i]).contains('\n') by {
        let t = ts[i];
        let pre = if bulleted { "- "@ } else { Seq::<char>::empty() };
        let l = pre + t.name@ + ": "@ + t.description@;
        assert(ps[i] == l);
        if l.contains('\n') {
            let k = choose|k: int| 0 <= k < l.len() && l[k] == '\n';
            if k < pre.len() {
                assert(l[k] == pre[k]);
            } else if k < pre.len() + t.name@.len() {
                assert(l[k] == t.name@[k - pre.len()]);
            } else if k < pre.len() + t.name@.len() + 2 {
                assert(l[k] == ": "@[k - pre.len() - t.name@.len()]);
            } else {
                assert(l[k] == t.description@[k - pre.len() - t.name@.len() - 2]);
            }
        }
    }
    lemma_join_newline(ps);
    lemma_split_join(ps, '\n');
}

/// Two records show the same tools dimension only when they list the same
/// number of tools with equal lines, pairwise (for tools whose names and
/// descriptions are single lines, and records with at least one tool).
pub proof fn lemma_same_tools_dimension(a: ExecutionRecord, fa: SamplingTexts, b: ExecutionRecord, fb: SamplingTexts)
    requires
        a.tools@.len() > 0,
        b.tools@.len() > 0,
        forall|i: int| 0 <= i < a.tools@.len() ==> !(#[trigger] a.tools@[i]).name@.contains('\n')
            && !a.tools@[i].description@.contains('\n'),
        forall|i: int| 0 <= i < b.tools@.len() ==> !(#[trigger] b.tools@[i]).name@.contains('\n')
            && !b.tools@[i].description@.contains('\n'),
        dimension_value(a, fa, "工具"@) == dimension_value(b, fb, "工具"@),
    ensures
        a.tools@.len() == b.tools@.len(),
        forall|i: int| 0 <= i < a.tools@.len() ==>
            (#[trigger] a.tools@[i]).name@ + ": "@ + a.tools@[i].description@
                == b.tools@[i].name@ + ": "@ + b.tools@[i].description@,
{
    reveal_strlit("工具");
    reveal_strlit("模型");
    reveal_strlit("参数");
    reveal_strlit("消息");
    assert("工具"@[0] != "模型"@[0]);
    assert("工具"@[0] != "参数"@[0]);
    assert("工具"@[0] != "消息"@[0]);
    assert(dimension_value(a, fa, "工具"@) == tools_text(a.tools@, false));
    assert(dimension_value(b, fb, "工具"@) == tools_text(b.tools@, false));
    lemma_tools_text_lines(a.tools@, false);
    lemma_tools_text_lines(b.tools@, false);
    assert forall|i: int| 0 <= i < a.tools@.len() implies
        (#[trigger] a.tools@[i]).name@ + ": "@ + a.tools@[i].description@
            == b.tools@[i].name@ + ": "@ + b.tools@[i].description@ by {
        assert(split_on(tools_text(a.tools@, false), '\n')[i] == split_on(tools_text(b.tools@, false), '\n')[i]);
        assert(Seq::<char>::empty() + a.tools@[i].name@ =~= a.tools@[i].name@);
        assert(Seq::<char>::empty() + b.tools@[i].name@ =~= b.tools@[i].name@);
    }
}

/// Appends forty box-drawing dashes.
fn push_rule(out: &mut String)
    ensures
        final(out)@ == old(out)@ + rule_line(),
{
    let mut i: usize = 0;
    while i < 40
        invariant
            i <= 40,
            out@ == old(out)@ + Seq::new(i as nat, |j: int| '─'),
        decreases 40 - i,
    {
        crate::std_wrappers::push_char(out, '─');
        i = i + 1;
        assert(out@ =~= old(out)@ + Seq::new(i as nat, |j: int| '─'));
    }
}

/// Appends the sections shared by both copy layouts.
fn push_record_sections(out: &mut String, record: &ExecutionRecord, sampling: &SamplingTexts)
    ensures
        final(out)@ == old(out)@ + record_sections_text(*record, *sampling),
{
    out.append("参数: ");
    out.append(params_string(record, sampling).as_str());
    out.append("\n");
    out.append("消息:\n");
    out.append(messages_lines(record.messages.as_slice()).as_str());
    out.append("\n");
    out.append("工具:\n");
    out.append(tools_lines(record.tools.as_slice(), true).as_str());
    out.append("\n");
    out.append("结果:\n");
    out.append(result_string(&record.result).as_str());
    out.append("\n");
    proof {
        reveal(record_sections_text);
    }
    assert(out@ =~= old(out)@ + record_sections_text(*record, *sampling));
}

/// Appends the heading line of the record at position `idx`.
fn push_block_head(out: &mut String, idx: usize, model: &str)
    requires
        idx < usize::MAX,
    ensures
        final(out)@ == old(out)@ + block_head(idx as nat, model@),
{
    out.append("\n[");
    push_decimal(out, idx as u64 + 1);
    out.append("] ");
    out.append(model);
    out.append("\n");
    proof {
        reveal(block_head);
    }
    assert(out@ =~= old(out)@ + block_head(idx as nat, model@));
}

/// Appends the copied block of the record at position `idx`.
fn push_compared_block(out: &mut String, idx: usize, record: &ExecutionRecord, sampling: &SamplingTexts)
    requires
        idx < usize::MAX,
    ensures
        final(out)@ == old(out)@ + compared_copy_block(idx as nat, *record, *sampling),
{
    push_block_head(out, idx, record.model_name.as_str());
    push_record_sections(out, record, sampling);
    push_rule(out);
    out.append("\n");
    assert(out@ =~= old(out)@ + compared_copy_block(idx as nat, *record, *sampling));
}

/// The text copied from the viewer or the comparison; see `copy_text`.
pub fn format_records_for_copy(records: &[ExecutionRecord], sampling: &[SamplingTexts]) -> (r: String)
    requires
        sampling@.len() == records@.len(),
    ensures
        r@ == copy_text(records@, sampling@),
{
    if records.len() > 1 {
        let mut out = String::from_str("对比 (");
        push_decimal(&mut out, records.len() as u64);
        out.append(" 条记录)\n");
        push_rule(&mut out);
        out.append("\n");
        let ghost head = out@;
        let mut idx: usize = 0;
        while idx < records.len()
            invariant
                sampling@.len() == records@.len(),
                idx <= records@.len(),
                out@ == head + compared_copy_blocks(records@, sampling@, idx as nat),
            decreases records.len() - idx,
        {
            push_compared_block(&mut out, idx, &records[idx], &sampling[idx]);
            idx = idx + 1;
            assert(out@ =~= head + compared_copy_blocks(records@, sampling@, idx as nat));
        }
        assert(out@ =~= copy_text(records@, sampling@));
        out
    } else if records.len() == 1 {
        let mut out = String::from_str("模型: ");
        out.append(records[0].model_name.as_str());
        out.append("\n");
        push_record_sections(&mut out, &records[0], &sampling[0]);
        assert(out@ =~= copy_text(records@, sampling@));
        out
    } else {
        String::new()
    }
}


/// The three JSON sections of a record, as the host pretty-printed them:
/// the request sent, the response, and the metadata.
pub struct JsonSections {
    pub input: String,
    pub output: String,
    pub metadata: String,
}

/// The ASCII key of a JSON comparison dimension.
pub open spec fn json_dimension_key_spec(dim: Seq<char>) -> Seq<char> {
    if dim == "模型"@ {
        "MODEL"@
    } else if dim == "输入"@ {
        "INPUT"@
    } else if dim == "输出"@ {
        "OUTPUT"@
    } else {
        "METADATA"@
    }
}

/// The ASCII key of a JSON comparison dimension (`模型`, `输入`, `输出`;
/// anything else is the metadata).
pub fn json_dimension_key(dim: &str) -> (r: &'static str)
    ensures
        r@ == json_dimension_key_spec(dim@),
{
    if str_eq(dim, "模型") {
        "MODEL"
    } else if str_eq(dim, "输入") {
        "INPUT"
    } else if str_eq(dim, "输出") {
        "OUTPUT"
    } else {
        "METADATA"
    }
}

/// The text of a record in a JSON comparison dimension; any other
/// dimension is empty.
pub open spec fn json_dimension_value_spec(r: ExecutionRecord, sections: JsonSections, dim: Seq<char>) -> Seq<char> {
    if dim == "模型"@ {
        r.model_name@
    } else if dim == "输入"@ {
        sections.input@
    } else if dim == "输出"@ {
        sections.output@
    } else if dim == "Metadata"@ {
        sections.metadata@
    } else {
        Seq::empty()
    }
}

/// The text of a record in a JSON comparison dimension.
pub fn json_dimension_value(record: &ExecutionRecord, sections: &JsonSections, dim: &str) -> (r: String)
    ensures
        r@ == json_dimension_value_spec(*record, *sections, dim@),
{
    if str_eq(dim, "模型") {
        record.model_name.clone()
    } else if str_eq(dim, "输入") {
        sections.input.clone()
    } else if str_eq(dim, "输出") {
        sections.output.clone()
    } else if str_eq(dim, "Metadata") {
        sections.metadata.clone()
    } else {
        String::new()
    }
}

/// Whether a JSON dimension is the same for every record that has its
/// sections (records and sections go in pairs, as far as both reach);
/// fewer than two of either always agree.
pub open spec fn json_all_same_spec(records: Seq<ExecutionRecord>, sections: Seq<JsonSections>, dim: Seq<char>) -> bool {
    records.len() < 2 || sections.len() < 2 || forall|i: int| 1 <= i < records.len() && i < sections.len() ==>
        json_dimension_value_spec(#[trigger] records[i], sections[i], dim)
            == json_dimension_value_spec(records[0], sections[0], dim)
}

/// Whether a JSON dimension is the same for every record; see
/// `json_all_same_spec`.
pub fn json_all_same(records: &[ExecutionRecord], sections: &[JsonSections], dim: &str) -> (r: bool)
    ensures
        r == json_all_same_spec(records@, sections@, dim@),
{
    if records.len() < 2 || sections.len() < 2 {
        return true;
    }
    let first = json_dimension_value(&records[0], &sections[0], dim);
    let mut i: usize = 1;
    while i < records.len() && i < sections.len()
        invariant
            records@.len() >= 2,
            sections@.len() >= 2,
            1 <= i <= records@.len(),
            i <= sections@.len(),
            first@ == json_dimension_value_spec(records@[0], sections@[0], dim@),
            forall|j: int| 1 <= j < i ==>
                json_dimension_value_spec(#[trigger] records@[j], sections@[j], dim@)
                    == json_dimension_value_spec(records@[0], sections@[0], dim@),
        decreases records.len() - i,
    {
        let v = json_dimension_value(&records[i], &sections[i], dim);
        if !str_eq(v.as_str(), first.as_str()) {
            return false;
        }
        i = i + 1;
    }
    true
}

/// The three JSON sections of a record as parsed values (`None` where a
/// section is no JSON).
pub struct ParsedSections {
    pub input: Option<JsonValue>,
    pub output: Option<JsonValue>,
    pub metadata: Option<JsonValue>,
}

/// The three sections of a record parsed as JSON (`None` for a section
/// that is no JSON).
pub fn parse_sections(sections: &JsonSections) -> (r: ParsedSections)
    ensures
        json_option_view(r.input) == parsed_json(sections.input@),
        json_option_view(r.output) == parsed_json(sections.output@),
        json_option_view(r.metadata) == parsed_json(sections.metadata@),
{
    ParsedSections {
        input: parse_json(sections.input.as_str()),
        output: parse_json(sections.output.as_str()),
        metadata: parse_json(sections.metadata.as_str()),
    }
}

/// The parsed value of a record in a JSON comparison dimension: the model
/// name as a JSON string, a section's parsed value, or `null` where the
/// section is no JSON or the dimension is none of these.
pub open spec fn parsed_dimension_value(r: ExecutionRecord, p: ParsedSections, dim: Seq<char>) -> JsonValue {
    let or_null = |v: Option<JsonValue>| match v {
        Some(x) => x,
        None => JsonValue::Null,
    };
    if dim == "模型"@ {
        JsonValue::Str(r.model_name)
    } else if dim == "输入"@ {
        or_null(p.input)
    } else if dim == "输出"@ {
        or_null(p.output)
    } else if dim == "Metadata"@ {
        or_null(p.metadata)
    } else {
        JsonValue::Null
    }
}

/// The parsed value of a record in a JSON comparison dimension; see
/// `parsed_dimension_value`.
pub fn json_dimension_value_parsed(record: &ExecutionRecord, parsed: &ParsedSections, dim: &str) -> (r: JsonValue)
    ensures
        json_view(r) == json_view(parsed_dimension_value(*record, *parsed, dim@)),
{
    let null = JsonValue::Null;
    if str_eq(dim, "模型") {
        JsonValue::Str(record.model_name.clone())
    } else if str_eq(dim, "输入") {
        json_clone(value_or(&parsed.input, &null))
    } else if str_eq(dim, "输出") {
        json_clone(value_or(&parsed.output, &null))
    } else if str_eq(dim, "Metadata") {
        json_clone(value_or(&parsed.metadata, &null))
    } else {
        JsonValue::Null
    }
}

/// A reference to `v`'s value, or to `null`.
fn value_or<'a>(v: &'a Option<JsonValue>, null: &'a JsonValue) -> (r: &'a JsonValue)
    ensures
        *r == (match *v {
            Some(x) => x,
            None => *null,
        }),
{
    match v {
        Some(x) => x,
        None => null,
    }
}

/// The JSON pointers at which a JSON dimension differs between the records
/// (records and parsed sections go in pairs, as far as both reach).
pub fn json_dimension_diff_paths(records: &[ExecutionRecord], parsed: &[ParsedSections], dim: &str) -> (r: Vec<String>)
    ensures
        text_set(r@) == diff_paths(Seq::new(
            if records@.len() < parsed@.len() { records@.len() } else { parsed@.len() },
            |i: int| parsed_dimension_value(records@[i], parsed@[i], dim@),
        )),
{
    let n = if records.len() < parsed.len() { records.len() } else { parsed.len() };
    let null = JsonValue::Null;
    let mut names: Vec<JsonValue> = Vec::new();
    let mut i: usize = 0;
    while i < n
        invariant
            n <= records@.len(),
            i <= n,
            names@.len() == i,
            forall|j: int| 0 <= j < i ==> #[trigger] names@[j] == JsonValue::Str(records@[j].model_name),
        decreases n - i,
    {
        names.push(JsonValue::Str(records[i].model_name.clone()));
        i = i + 1;
    }
    let is_model = str_eq(dim, "模型");
    let is_input = str_eq(dim, "输入");
    let is_output = str_eq(dim, "输出");
    let is_metadata = str_eq(dim, "Metadata");
    let ghost want = Seq::new(n as nat, |k: int| parsed_dimension_value(records@[k], parsed@[k], dim@));
    let mut refs: Vec<&JsonValue> = Vec::new();
    let mut k: usize = 0;
    while k < n
        invariant
            n <= records@.len(),
            n <= parsed@.len(),
            names@.len() == n,
            forall|j: int| 0 <= j < n ==> #[trigger] names@[j] == JsonValue::Str(records@[j].model_name),
            null is Null,
            is_model == (dim@ == "模型"@),
            is_input == (dim@ == "输入"@),
            is_output == (dim@ == "输出"@),
            is_metadata == (dim@ == "Metadata"@),
            want == Seq::new(n as nat, |k: int| parsed_dimension_value(records@[k], parsed@[k], dim@)),
            k <= n,
            refs@.len() == k,
            forall|j: int| 0 <= j < k ==> *(#[trigger] refs@[j]) == want[j],
        decreases n - k,
    {
        let v: &JsonValue = if is_model {
            &names[k]
        } else if is_input {
            value_or(&parsed[k].input, &null)
        } else if is_output {
            value_or(&parsed[k].output, &null)
        } else if is_metadata {
            value_or(&parsed[k].metadata, &null)
        } else {
            &null
        };
        refs.push(v);
        k = k + 1;
    }
    assert(derefs(refs@) =~= want);
    crate::json::json_diff_paths_of(refs.as_slice())
}

/// The JSON tab's copied text for the records: for each, its input, output
/// and metadata sections; records are separated by a rule and, when there
/// are several, headed by their position and model.
pub open spec fn json_copy_block(idx: nat, count: nat, r: ExecutionRecord, s: JsonSections) -> Seq<char> {
    (if idx > 0 { "\n"@ + rule_line() + "\n"@ } else { Seq::<char>::empty() })
        + (if count > 1 { "["@ + decimal(idx + 1) + "] "@ + r.model_name@ + "\n"@ } else { Seq::<char>::empty() })
        + "输入:\n"@ + s.input@ + "\n\n"@
        + "输出:\n"@ + s.output@ + "\n\n"@
        + "Metadata:\n"@ + s.metadata@ + "\n"@
}

/// The JSON copy blocks of the first `n` records.
pub open spec fn json_copy_blocks(records: Seq<ExecutionRecord>, sections: Seq<JsonSections>, n: nat) -> Seq<char>
    decreases n,
{
    if n == 0 {
        Seq::empty()
    } else {
        json_copy_blocks(records, sections, (n - 1) as nat)
            + json_copy_block((n - 1) as nat, records.len(), records[n - 1], sections[n - 1])
    }
}

/// Appends one record's JSON copy block.
fn push_json_block(out: &mut String, idx: usize, count: usize, record: &ExecutionRecord, sections: &JsonSections)
    requires
        idx < usize::MAX,
    ensures
        final(out)@ == old(out)@ + json_copy_block(idx as nat, count as nat, *record, *sections),
{
    if idx > 0 {
        out.append("\n");
        push_rule(out);
        out.append("\n");
    }
    if count > 1 {
        out.append("[");
        push_decimal(out, idx as u64 + 1);
        out.append("] ");
        out.append(record.model_name.as_str());
        out.append("\n");
    }
    out.append("输入:\n");
    out.append(sections.input.as_str());
    out.append("\n\n");
    out.append("输出:\n");
    out.append(sections.output.as_str());
    out.append("\n\n");
    out.append("Metadata:\n");
    out.append(sections.metadata.as_str());
    out.append("\n");
    assert(out@ =~= old(out)@ + json_copy_block(idx as nat, count as nat, *record, *sections));
}

/// The JSON tab's copied text; see `json_copy_block`.
pub fn format_records_for_json_copy(records: &[ExecutionRecord], sections: &[JsonSections]) -> (r: String)
    requires
        sections@.len() == records@.len(),
    ensures
        r@ == json_copy_blocks(records@, sections@, records@.len()),
{
    let mut out = String::new();
    let mut idx: usize = 0;
    while idx < records.len()
        invariant
            sections@.len() == records@.len(),
            idx <= records@.len(),
            out@ == json_copy_blocks(records@, sections@, idx as nat),
        decreases records.len() - idx,
    {
        push_json_block(&mut out, idx, records.len(), &records[idx], &sections[idx]);
        idx = idx + 1;
    }
    out
}

/// The most record columns a comparison shows.
pub const MAX_COMPARISON_COLUMNS: usize = 20;

/// The width, in pixels, of a detached window for `n` records: one record
/// gets 900; a comparison gets 132 plus 300 per shown column (at most 20),
/// capped at 1600.
pub open spec fn detached_width_spec(n: nat) -> nat {
    if n > 1 {
        let cols: nat = if n < 20 { n } else { 20 };
        let w: nat = 132 + cols * 300;
        if w < 1600 { w } else { 1600 }
    } else {
        900
    }
}

/// The width, in pixels, of a detached window for `n` records.
pub fn detached_window_width(n: usize) -> (r: u32)
    ensures
        r == detached_width_spec(n as nat),
{
    if n > 1 {
        let cols: u32 = if n < MAX_COMPARISON_COLUMNS { n as u32 } else { 20 };
        let w: u32 = 132 + cols * 300;
        if w < 1600 { w } else { 1600 }
    } else {
        900
    }
}

/// The title of a detached window for `n` records.
pub open spec fn detached_title_spec(n: nat) -> Seq<char> {
    if n > 1 {
        "对比 ("@ + decimal(n) + " 条记录)"@
    } else {
        "查看执行记录"@
    }
}

/// The title of a detached window for `n` records.
pub fn detached_window_title(n: usize) -> (r: String)
    ensures
        r@ == detached_title_spec(n as nat),
{
    if n > 1 {
        let mut t = String::from_str("对比 (");
        push_decimal(&mut t, n as u64);
        t.append(" 条记录)");
        t
    } else {
        String::from_str("查看执行记录")
    }
}

} // verus!
