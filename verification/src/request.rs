//! The body of a chat-completion request: the model, the messages, the
//! token limit, the tools in the provider's format, and the thinking or
//! sampling settings.

use vstd::prelude::*;
use crate::call::contains_seq;
use crate::json::{json_view, lemma_array_view, lemma_object_view, model_get, model_key_is, parse_json, parsed_json, JsonModel, JsonValue};
use crate::seqs::{first_pos, lemma_first_pos, lemma_first_pos_at};
use crate::debugger::ExecutionRecord;
use crate::message::{role_api_name, CallState, DebugMessage, ToolDefinition};
use crate::search::{is_anthropic_provider, lowercase};
use crate::text::{decimal, push_decimal};

verus! {

/// The floating-point sampling settings of a run, each as the JSON number
/// text the host wrote for it.
pub struct SamplingNumbers {
    pub temperature: String,
    pub top_p: String,
    pub presence_penalty: String,
    pub frequency_penalty: String,
}

/// The members of an object, as plain data.
pub open spec fn members_view(ms: Seq<(String, JsonValue)>) -> Seq<(Seq<char>, JsonModel)> {
    Seq::new(ms.len(), |i: int| (ms[i].0@, json_view(ms[i].1)))
}

/// A message in a request: its content and its role's API name.
pub open spec fn message_json(m: DebugMessage) -> JsonModel {
    JsonModel::Object(seq![
        ("content"@, JsonModel::Str(m.content@)),
        ("role"@, JsonModel::Str(role_api_name(m.role))),
    ])
}

/// A tool in a request, with its parsed parameter schema: Anthropic
/// providers take its name, description and input schema; the others take
/// a `function` entry with name, description and parameters.
pub open spec fn tool_json(t: ToolDefinition, schema: JsonModel, anthropic: bool) -> JsonModel {
    if anthropic {
        JsonModel::Object(seq![
            ("description"@, JsonModel::Str(t.description@)),
            ("input_schema"@, schema),
            ("name"@, JsonModel::Str(t.name@)),
        ])
    } else {
        JsonModel::Object(seq![
            ("function"@, JsonModel::Object(seq![
                ("description"@, JsonModel::Str(t.description@)),
                ("name"@, JsonModel::Str(t.name@)),
                ("parameters"@, schema),
            ])),
            ("type"@, JsonModel::Str("function"@)),
        ])
    }
}

/// The request entries of the first `n` tools: a tool whose parameter
/// schema is no JSON is left out.
pub open spec fn tools_json(tools: Seq<ToolDefinition>, schemas: Seq<Option<JsonModel>>, anthropic: bool, n: nat) -> Seq<JsonModel>
    decreases n,
{
    if n == 0 {
        Seq::empty()
    } else {
        let r = tools_json(tools, schemas, anthropic, (n - 1) as nat);
        match schemas[n - 1] {
            Some(s) => r.push(tool_json(tools[n - 1], s, anthropic)),
            None => r,
        }
    }
}

/// Whether a provider (by its name, where there is one) takes
/// Anthropic-style tools.
pub open spec fn anthropic_spec(provider_name: Option<Seq<char>>) -> bool {
    match provider_name {
        Some(n) => contains_seq(lowercase(n), "anthropic"@),
        None => false,
    }
}

/// The plain data of optional JSON values.
pub open spec fn options_view(v: Seq<Option<JsonValue>>) -> Seq<Option<JsonModel>> {
    v.map_values(|o: Option<JsonValue>| match o {
        Some(x) => Some(json_view(x)),
        None => None,
    })
}

/// The body of a chat-completion request, its members in key order. It
/// holds the model, the messages and the token limit; the tools, when any
/// has a schema that parses; with thinking on, the thinking budget; with
/// thinking off, the sampling settings instead.
pub open spec fn request_body_spec(
    model_name: Seq<char>,
    messages: Seq<DebugMessage>,
    max_tokens: u32,
    tools: Seq<ToolDefinition>,
    schemas: Seq<Option<JsonModel>>,
    anthropic: bool,
    thinking_enabled: bool,
    thinking_budget_tokens: u32,
    sampling: SamplingNumbers,
) -> JsonModel {
    let ts = tools_json(tools, schemas, anthropic, tools.len());
    let tools_member = if ts.len() > 0 {
        seq![("tools"@, JsonModel::Array(ts))]
    } else {
        Seq::empty()
    };
    let core = seq![
        ("max_tokens"@, JsonModel::Number(decimal(max_tokens as nat))),
        ("messages"@, JsonModel::Array(messages.map_values(|m: DebugMessage| message_json(m)))),
        ("model"@, JsonModel::Str(model_name)),
    ];
    if thinking_enabled {
        JsonModel::Object(core
            + seq![("thinking"@, JsonModel::Object(seq![
                ("budget_tokens"@, JsonModel::Number(decimal(thinking_budget_tokens as nat))),
                ("type"@, JsonModel::Str("enabled"@)),
            ]))]
            + tools_member)
    } else {
        JsonModel::Object(seq![("frequency_penalty"@, JsonModel::Number(sampling.frequency_penalty@))]
            + core
            + seq![
                ("presence_penalty"@, JsonModel::Number(sampling.presence_penalty@)),
                ("temperature"@, JsonModel::Number(sampling.temperature@)),
                ("thinking"@, JsonModel::Object(seq![("type"@, JsonModel::Str("disabled"@))])),
            ]
            + tools_member
            + seq![("top_p"@, JsonModel::Number(sampling.top_p@))])
    }
}

/// A JSON string.
fn json_text(s: &str) -> (r: JsonValue)
    ensures
        json_view(r) == JsonModel::Str(s@),
{
    JsonValue::Str(String::from_str(s))
}

/// A JSON number for `n`.
fn json_number(n: u64) -> (r: JsonValue)
    ensures
        json_view(r) == JsonModel::Number(decimal(n as nat)),
{
    let mut t = String::new();
    push_decimal(&mut t, n);
    JsonValue::Number(t)
}

/// An object with these members.
fn json_object(members: Vec<(String, JsonValue)>) -> (r: JsonValue)
    ensures
        json_view(r) == JsonModel::Object(members_view(members@)),
{
    proof {
        lemma_object_view(members);
    }
    JsonValue::Object(members)
}

/// No members yet.
fn new_members() -> (r: Vec<(String, JsonValue)>)
    ensures
        members_view(r@) == Seq::<(Seq<char>, JsonModel)>::empty(),
{
    let r: Vec<(String, JsonValue)> = Vec::new();
    assert(members_view(r@) =~= Seq::<(Seq<char>, JsonModel)>::empty());
    r
}

/// Adds a member.
fn push_member(members: &mut Vec<(String, JsonValue)>, key: &str, value: JsonValue)
    ensures
        members_view(final(members)@) == members_view(old(members)@).push((key@, json_view(value))),
{
    members.push((String::from_str(key), value));
    assert(members_view(members@) =~= members_view(old(members)@).push((key@, json_view(value))));
}

/// A message as a request entry.
fn message_value(m: &DebugMessage) -> (r: JsonValue)
    ensures
        json_view(r) == message_json(*m),
{
    let mut ms = new_members();
    push_member(&mut ms, "content", json_text(m.content.as_str()));
    push_member(&mut ms, "role", json_text(m.role.api_role()));
    assert(members_view(ms@) =~= seq![
        ("content"@, JsonModel::Str(m.content@)),
        ("role"@, JsonModel::Str(role_api_name(m.role))),
    ]);
    let r = json_object(ms);
    assert(json_view(r) =~= message_json(*m));
    r
}

/// A tool as a request entry.
fn tool_value(t: &ToolDefinition, schema: JsonValue, anthropic: bool) -> (r: JsonValue)
    ensures
        json_view(r) == tool_json(*t, json_view(schema), anthropic),
{
    let ghost sv = json_view(schema);
    let mut ms = new_members();
    if anthropic {
        push_member(&mut ms, "description", json_text(t.description.as_str()));
        push_member(&mut ms, "input_schema", schema);
        push_member(&mut ms, "name", json_text(t.name.as_str()));
        assert(members_view(ms@) =~= seq![
            ("description"@, JsonModel::Str(t.description@)),
            ("input_schema"@, sv),
            ("name"@, JsonModel::Str(t.name@)),
        ]);
        let r = json_object(ms);
        r
    } else {
        let mut f = new_members();
        push_member(&mut f, "description", json_text(t.description.as_str()));
        push_member(&mut f, "name", json_text(t.name.as_str()));
        push_member(&mut f, "parameters", schema);
        let ghost fm = seq![
            ("description"@, JsonModel::Str(t.description@)),
            ("name"@, JsonModel::Str(t.name@)),
            ("parameters"@, sv),
        ];
        assert(members_view(f@) =~= fm);
        let fv = json_object(f);
        push_member(&mut ms, "function", fv);
        push_member(&mut ms, "type", json_text("function"));
        assert(members_view(ms@) =~= seq![
            ("function"@, JsonModel::Object(fm)),
            ("type"@, JsonModel::Str("function"@)),
        ]);
        let r = json_object(ms);
        r
    }
}

/// The parameter schemas of tools, each as its text parses as JSON.
pub open spec fn tool_schemas(tools: Seq<ToolDefinition>) -> Seq<Option<JsonModel>> {
    tools.map_values(|t: ToolDefinition| parsed_json(t.parameters_json@))
}

/// Parses each tool's parameter schema.
fn parse_schemas(tools: &[ToolDefinition]) -> (r: Vec<Option<JsonValue>>)
    ensures
        r@.len() == tools@.len(),
        options_view(r@) == tool_schemas(tools@),
{
    let mut out: Vec<Option<JsonValue>> = Vec::new();
    let mut i: usize = 0;
    while i < tools.len()
        invariant
            i <= tools@.len(),
            out@.len() == i,
            options_view(out@) == tool_schemas(tools@.subrange(0, i as int)),
        decreases tools.len() - i,
    {
        let ghost before = out@;
        let p = parse_json(tools[i].parameters_json.as_str());
        out.push(p);
        proof {
            let n = i + 1;
            let ov = options_view(out@);
            let ts = tool_schemas(tools@.subrange(0, n as int));
            assert forall|j: int| 0 <= j < n implies ov[j] == ts[j] by {
                if j < i {
                    assert(out@[j] == before[j]);
                    assert(options_view(before)[j] == tool_schemas(tools@.subrange(0, i as int))[j]);
                }
            }
            assert(ov =~= ts);
        }
        i = i + 1;
    }
    assert(tools@.subrange(0, tools@.len() as int) =~= tools@);
    out
}

/// The body of a chat-completion request for these tools, whose parameter
/// schemas are parsed here; see `request_body_spec`. `provider_name` is
/// the name of the model's provider, where it has one.
pub fn request_body(
    model_name: &str,
    messages: &[DebugMessage],
    max_tokens: u32,
    tools: &[ToolDefinition],
    provider_name: Option<&str>,
    thinking_enabled: bool,
    thinking_budget_tokens: u32,
    sampling: &SamplingNumbers,
) -> (r: JsonValue)
    ensures
        json_view(r) == request_body_spec(
            model_name@,
            messages@,
            max_tokens,
            tools@,
            tool_schemas(tools@),
            anthropic_spec(match provider_name {
                Some(n) => Some(n@),
                None => None,
            }),
            thinking_enabled,
            thinking_budget_tokens,
            *sampling,
        ),
{
    let schemas = parse_schemas(tools);
    request_body_from_schemas(model_name, messages, max_tokens, tools, schemas, provider_name, thinking_enabled,
        thinking_budget_tokens, sampling)
}

/// The body of a chat-completion request; see `request_body_spec`.
/// `schemas` holds each tool's parameter schema as parsed JSON (`None`
/// where it is no JSON), in the order of `tools`; `provider_name` is the
/// name of the model's provider, where it has one.
pub fn request_body_from_schemas(
    model_name: &str,
    messages: &[DebugMessage],
    max_tokens: u32,
    tools: &[ToolDefinition],
    schemas: Vec<Option<JsonValue>>,
    provider_name: Option<&str>,
    thinking_enabled: bool,
    thinking_budget_tokens: u32,
    sampling: &SamplingNumbers,
) -> (r: JsonValue)
    requires
        schemas@.len() == tools@.len(),
    ensures
        json_view(r) == request_body_spec(
            model_name@,
            messages@,
            max_tokens,
            tools@,
            options_view(schemas@),
            anthropic_spec(match provider_name {
                Some(n) => Some(n@),
                None => None,
            }),
            thinking_enabled,
            thinking_budget_tokens,
            *sampling,
        ),
{
    let anthropic = match provider_name {
        Some(n) => is_anthropic_provider(n),
        None => false,
    };
    let ghost sv = options_view(schemas@);
    let ghost all = schemas@;
    // The request entries of the tools.
    let mut schemas = schemas;
    let mut tool_values: Vec<JsonValue> = Vec::new();
    let mut i: usize = 0;
    while i < tools.len()
        invariant
            all.len() == tools@.len(),
            sv == options_view(all),
            i <= tools@.len(),
            schemas@ == all.subrange(i as int, all.len() as int),
            tool_values@.map_values(|v: JsonValue| json_view(v)) == tools_json(tools@, sv, anthropic, i as nat),
        decreases tools.len() - i,
    {
        let ghost before = tool_values@;
        let schema = schemas.remove(0);
        assert(schema == all[i as int]);
        match schema {
            Some(s) => {
                let v = tool_value(&tools[i], s, anthropic);
                tool_values.push(v);
            },
            None => {},
        }
        i = i + 1;
        assert(schemas@ =~= all.subrange(i as int, all.len() as int));
        assert(tool_values@.map_values(|v: JsonValue| json_view(v)) =~= tools_json(tools@, sv, anthropic, i as nat));
    }
    let ghost ts = tools_json(tools@, sv, anthropic, tools@.len() as nat);
    // The messages.
    let mut message_values: Vec<JsonValue> = Vec::new();
    let mut k: usize = 0;
    while k < messages.len()
        invariant
            k <= messages@.len(),
            message_values@.map_values(|v: JsonValue| json_view(v))
                == messages@.subrange(0, k as int).map_values(|m: DebugMessage| message_json(m)),
        decreases messages.len() - k,
    {
        let ghost before = message_values@;
        let v = message_value(&messages[k]);
        message_values.push(v);
        proof {
            assert(message_values@.map_values(|v: JsonValue| json_view(v))
                =~= before.map_values(|v: JsonValue| json_view(v)).push(json_view(v)));
            assert(messages@.subrange(0, k + 1).map_values(|m: DebugMessage| message_json(m))
                =~= messages@.subrange(0, k as int).map_values(|m: DebugMessage| message_json(m)).push(message_json(messages@[k as int])));
        }
        k = k + 1;
        assert(message_values@.map_values(|v: JsonValue| json_view(v))
            =~= messages@.subrange(0, k as int).map_values(|m: DebugMessage| message_json(m)));
    }
    assert(messages@.subrange(0, messages@.len() as int) =~= messages@);
    proof {
        lemma_array_view(message_values);
        lemma_array_view(tool_values);
    }
    let msgs = JsonValue::Array(message_values);
    assert(json_view(msgs) =~= JsonModel::Array(messages@.map_values(|m: DebugMessage| message_json(m))));
    let has_tools = tool_values.len() > 0;
    assert(tool_values@.map_values(|v: JsonValue| json_view(v)).len() == tool_values@.len());
    let tools_array = JsonValue::Array(tool_values);
    assert(json_view(tools_array) =~= JsonModel::Array(ts));
    let ghost msgs_view = JsonModel::Array(messages@.map_values(|m: DebugMessage| message_json(m)));
    let ghost tools_member = if ts.len() > 0 {
        seq![("tools"@, JsonModel::Array(ts))]
    } else {
        Seq::<(Seq<char>, JsonModel)>::empty()
    };
    let ghost core = seq![
        ("max_tokens"@, JsonModel::Number(decimal(max_tokens as nat))),
        ("messages"@, msgs_view),
        ("model"@, JsonModel::Str(model_name@)),
    ];
    assert(has_tools == (ts.len() > 0));
    let mut body = new_members();
    if !thinking_enabled {
        push_member(&mut body, "frequency_penalty", JsonValue::Number(sampling.frequency_penalty.clone()));
    }
    let ghost start = members_view(body@);
    push_member(&mut body, "max_tokens", json_number(max_tokens as u64));
    push_member(&mut body, "messages", msgs);
    push_member(&mut body, "model", json_text(model_name));
    assert(members_view(body@) =~= start + core);
    if thinking_enabled {
        let mut th = new_members();
        push_member(&mut th, "budget_tokens", json_number(thinking_budget_tokens as u64));
        push_member(&mut th, "type", json_text("enabled"));
        let ghost thv = seq![
            ("budget_tokens"@, JsonModel::Number(decimal(thinking_budget_tokens as nat))),
            ("type"@, JsonModel::Str("enabled"@)),
        ];
        assert(members_view(th@) =~= thv);
        push_member(&mut body, "thinking", json_object(th));
        if has_tools {
            push_member(&mut body, "tools", tools_array);
        }
        assert(start =~= Seq::<(Seq<char>, JsonModel)>::empty());
        assert(members_view(body@) =~= core + seq![("thinking"@, JsonModel::Object(thv))] + tools_member);
    } else {
        push_member(&mut body, "presence_penalty", JsonValue::Number(sampling.presence_penalty.clone()));
        push_member(&mut body, "temperature", JsonValue::Number(sampling.temperature.clone()));
        let mut th = new_members();
        push_member(&mut th, "type", json_text("disabled"));
        let ghost thv = seq![("type"@, JsonModel::Str("disabled"@))];
        assert(members_view(th@) =~= thv);
        push_member(&mut body, "thinking", json_object(th));
        let ghost mid = members_view(body@);
        if has_tools {
            push_member(&mut body, "tools", tools_array);
        }
        assert(members_view(body@) =~= mid + tools_member);
        push_member(&mut body, "top_p", JsonValue::Number(sampling.top_p.clone()));
        assert(start =~= seq![("frequency_penalty"@, JsonModel::Number(sampling.frequency_penalty@))]);
        assert(members_view(body@) =~= seq![("frequency_penalty"@, JsonModel::Number(sampling.frequency_penalty@))]
            + core
            + seq![
                ("presence_penalty"@, JsonModel::Number(sampling.presence_penalty@)),
                ("temperature"@, JsonModel::Number(sampling.temperature@)),
                ("thinking"@, JsonModel::Object(thv)),
            ]
            + tools_member
            + seq![("top_p"@, JsonModel::Number(sampling.top_p@))]);
    }
    let r = json_object(body);
    assert(json_view(r) =~= request_body_spec(
        model_name@,
        messages@,
        max_tokens,
        tools@,
        sv,
        anthropic,
        thinking_enabled,
        thinking_budget_tokens,
        *sampling,
    ));
    r
}

/// The entries of the first `n` tools of a record as it was sent: each in
/// the function format, with its schema as parsed (`null` where it is no
/// JSON).
pub open spec fn record_tools_json(tools: Seq<ToolDefinition>, schemas: Seq<Option<JsonModel>>, n: nat) -> Seq<JsonModel>
    decreases n,
{
    if n == 0 {
        Seq::empty()
    } else {
        record_tools_json(tools, schemas, (n - 1) as nat).push(tool_json(
            tools[n - 1],
            match schemas[n - 1] {
                Some(s) => s,
                None => JsonModel::Null,
            },
            false,
        ))
    }
}

/// The input section of a record: its model, messages and token limit, the
/// temperature and top-p (as the JSON number texts given), the thinking
/// budget when thinking was on, and its tools when it has any; members in
/// key order.
pub open spec fn record_input_spec(
    r: ExecutionRecord,
    temperature: Seq<char>,
    top_p: Seq<char>,
    schemas: Seq<Option<JsonModel>>,
) -> JsonModel {
    JsonModel::Object(
        seq![
            ("max_tokens"@, JsonModel::Number(decimal(r.max_tokens as nat))),
            ("messages"@, JsonModel::Array(r.messages@.map_values(|m: DebugMessage| message_json(m)))),
            ("model"@, JsonModel::Str(r.model_name@)),
            ("temperature"@, JsonModel::Number(temperature)),
        ]
        + (if r.thinking_enabled {
            seq![("thinking_budget"@, JsonModel::Number(decimal(r.thinking_budget as nat)))]
        } else {
            Seq::empty()
        })
        + (if r.tools@.len() > 0 {
            seq![("tools"@, JsonModel::Array(record_tools_json(r.tools@, schemas, r.tools@.len())))]
        } else {
            Seq::empty()
        })
        + seq![("top_p"@, JsonModel::Number(top_p))],
    )
}

/// The output section of a record: a reply that is JSON as it is (`parsed`
/// is the reply parsed, where it is JSON), another reply under `text`, an
/// error under `error.message`, and an empty `text` without a result.
pub open spec fn record_output_spec(result: CallState, parsed: Option<JsonModel>) -> JsonModel {
    match result {
        CallState::Success(t) => match parsed {
            Some(v) => v,
            None => JsonModel::Object(seq![("text"@, JsonModel::Str(t@))]),
        },
        CallState::Error(e) => JsonModel::Object(seq![
            ("error"@, JsonModel::Object(seq![("message"@, JsonModel::Str(e@))])),
        ]),
        _ => JsonModel::Object(seq![("text"@, JsonModel::Str(Seq::empty()))]),
    }
}

/// The metadata section of a record: its model, settings and time, members
/// in key order.
pub open spec fn record_metadata_spec(r: ExecutionRecord, temperature: Seq<char>, top_p: Seq<char>) -> JsonModel {
    JsonModel::Object(seq![
        ("max_tokens"@, JsonModel::Number(decimal(r.max_tokens as nat))),
        ("model"@, JsonModel::Str(r.model_name@)),
        ("temperature"@, JsonModel::Number(temperature)),
        ("thinking_budget"@, JsonModel::Number(decimal(r.thinking_budget as nat))),
        ("thinking_enabled"@, JsonModel::Bool(r.thinking_enabled)),
        ("timestamp"@, JsonModel::Number(decimal(r.timestamp as nat))),
        ("top_p"@, JsonModel::Number(top_p)),
    ])
}

/// A successful reply parsed as JSON, where it is JSON.
pub open spec fn parsed_reply(result: CallState) -> Option<JsonModel> {
    match result {
        CallState::Success(t) => parsed_json(t@),
        _ => None,
    }
}

/// The input, output and metadata sections of a record, as JSON values;
/// its tools' schemas and its reply are parsed here. `temperature` and
/// `top_p` are the record's sampling settings as JSON number texts.
pub fn record_json_values(record: &ExecutionRecord, temperature: &str, top_p: &str)
    -> (r: (JsonValue, JsonValue, JsonValue))
    ensures
        json_view(r.0) == record_input_spec(*record, temperature@, top_p@, tool_schemas(record.tools@)),
        json_view(r.1) == record_output_spec(record.result, parsed_reply(record.result)),
        json_view(r.2) == record_metadata_spec(*record, temperature@, top_p@),
{
    let schemas = parse_schemas(record.tools.as_slice());
    let parsed = match &record.result {
        CallState::Success(t) => parse_json(t.as_str()),
        _ => None,
    };
    record_json_values_from_parsed(record, temperature, top_p, schemas, parsed)
}

/// The input, output and metadata sections of a record, as JSON values.
/// `temperature` and `top_p` are the record's sampling settings as JSON
/// number texts; `schemas` holds each tool's parameter schema as parsed
/// JSON (`None` where it is no JSON), in the order of the record's tools;
/// `parsed_result` is a successful reply parsed as JSON, where it is.
pub fn record_json_values_from_parsed(
    record: &ExecutionRecord,
    temperature: &str,
    top_p: &str,
    schemas: Vec<Option<JsonValue>>,
    parsed_result: Option<JsonValue>,
) -> (r: (JsonValue, JsonValue, JsonValue))
    requires
        schemas@.len() == record.tools@.len(),
    ensures
        json_view(r.0) == record_input_spec(*record, temperature@, top_p@, options_view(schemas@)),
        json_view(r.1) == record_output_spec(record.result, match parsed_result {
            Some(v) => Some(json_view(v)),
            None => None,
        }),
        json_view(r.2) == record_metadata_spec(*record, temperature@, top_p@),
{
    let ghost sv = options_view(schemas@);
    let ghost all = schemas@;
    let tools = record.tools.as_slice();
    // The tools.
    let mut schemas = schemas;
    let mut tool_values: Vec<JsonValue> = Vec::new();
    let mut i: usize = 0;
    while i < tools.len()
        invariant
            all.len() == tools@.len(),
            sv == options_view(all),
            i <= tools@.len(),
            schemas@ == all.subrange(i as int, all.len() as int),
            tool_values@.map_values(|v: JsonValue| json_view(v)) == record_tools_json(tools@, sv, i as nat),
        decreases tools.len() - i,
    {
        let ghost before = tool_values@;
        let schema = schemas.remove(0);
        assert(schema == all[i as int]);
        let s = match schema {
            Some(s) => s,
            None => JsonValue::Null,
        };
        let v = tool_value(&tools[i], s, false);
        tool_values.push(v);
        i = i + 1;
        assert(schemas@ =~= all.subrange(i as int, all.len() as int));
        assert(tool_values@.map_values(|v: JsonValue| json_view(v)) =~= record_tools_json(tools@, sv, i as nat));
    }
    // The messages.
    let messages = record.messages.as_slice();
    let mut message_values: Vec<JsonValue> = Vec::new();
    let mut k: usize = 0;
    while k < messages.len()
        invariant
            k <= messages@.len(),
            message_values@.map_values(|v: JsonValue| json_view(v))
                == messages@.subrange(0, k as int).map_values(|m: DebugMessage| message_json(m)),
        decreases messages.len() - k,
    {
        let ghost before = message_values@;
        let v = message_value(&messages[k]);
        message_values.push(v);
        proof {
            assert(message_values@.map_values(|v: JsonValue| json_view(v))
                =~= before.map_values(|v: JsonValue| json_view(v)).push(json_view(v)));
            assert(messages@.subrange(0, k + 1).map_values(|m: DebugMessage| message_json(m))
                =~= messages@.subrange(0, k as int).map_values(|m: DebugMessage| message_json(m)).push(message_json(messages@[k as int])));
        }
        k = k + 1;
        assert(message_values@.map_values(|v: JsonValue| json_view(v))
            =~= messages@.subrange(0, k as int).map_values(|m: DebugMessage| message_json(m)));
    }
    assert(messages@.subrange(0, messages@.len() as int) =~= messages@);
    proof {
        lemma_array_view(message_values);
        lemma_array_view(tool_values);
    }
    let msgs = JsonValue::Array(message_values);
    assert(json_view(msgs) =~= JsonModel::Array(messages@.map_values(|m: DebugMessage| message_json(m))));
    let has_tools = tools.len() > 0;
    let tools_array = JsonValue::Array(tool_values);
    assert(json_view(tools_array) =~= JsonModel::Array(record_tools_json(tools@, sv, tools@.len() as nat)));
    // The input.
    let mut input = new_members();
    push_member(&mut input, "max_tokens", json_number(record.max_tokens as u64));
    push_member(&mut input, "messages", msgs);
    push_member(&mut input, "model", json_text(record.model_name.as_str()));
    push_member(&mut input, "temperature", JsonValue::Number(String::from_str(temperature)));
    let ghost head = members_view(input@);
    if record.thinking_enabled {
        push_member(&mut input, "thinking_budget", json_number(record.thinking_budget as u64));
    }
    let ghost mid = members_view(input@);
    if has_tools {
        push_member(&mut input, "tools", tools_array);
    }
    let ghost late = members_view(input@);
    push_member(&mut input, "top_p", JsonValue::Number(String::from_str(top_p)));
    proof {
        let thinking_part = if record.thinking_enabled {
            seq![("thinking_budget"@, JsonModel::Number(decimal(record.thinking_budget as nat)))]
        } else {
            Seq::<(Seq<char>, JsonModel)>::empty()
        };
        let tools_part = if record.tools@.len() > 0 {
            seq![("tools"@, JsonModel::Array(record_tools_json(record.tools@, sv, record.tools@.len())))]
        } else {
            Seq::<(Seq<char>, JsonModel)>::empty()
        };
        assert(head =~= seq![
            ("max_tokens"@, JsonModel::Number(decimal(record.max_tokens as nat))),
            ("messages"@, JsonModel::Array(record.messages@.map_values(|m: DebugMessage| message_json(m)))),
            ("model"@, JsonModel::Str(record.model_name@)),
            ("temperature"@, JsonModel::Number(temperature@)),
        ]);
        assert(mid =~= head + thinking_part);
        assert(late =~= head + thinking_part + tools_part);
        assert(members_view(input@) =~= head + thinking_part + tools_part
            + seq![("top_p"@, JsonModel::Number(top_p@))]);
    }
    let input_value = json_object(input);
    assert(json_view(input_value) =~= record_input_spec(*record, temperature@, top_p@, sv));
    // The output.
    let output_value = match &record.result {
        CallState::Success(t) => match parsed_result {
            Some(v) => v,
            None => {
                let mut o = new_members();
                push_member(&mut o, "text", json_text(t.as_str()));
                assert(members_view(o@) =~= seq![("text"@, JsonModel::Str(t@))]);
                json_object(o)
            },
        },
        CallState::Error(e) => {
            let mut inner = new_members();
            push_member(&mut inner, "message", json_text(e.as_str()));
            assert(members_view(inner@) =~= seq![("message"@, JsonModel::Str(e@))]);
            let mut o = new_members();
            push_member(&mut o, "error", json_object(inner));
            assert(members_view(o@) =~= seq![
                ("error"@, JsonModel::Object(seq![("message"@, JsonModel::Str(e@))])),
            ]);
            json_object(o)
        },
        _ => {
            let mut o = new_members();
            proof {
                reveal_strlit("");
                assert(""@ =~= Seq::<char>::empty());
            }
            push_member(&mut o, "text", json_text(""));
            assert(members_view(o@) =~= seq![("text"@, JsonModel::Str(Seq::empty()))]);
            json_object(o)
        },
    };
    // The metadata.
    let mut meta = new_members();
    push_member(&mut meta, "max_tokens", json_number(record.max_tokens as u64));
    push_member(&mut meta, "model", json_text(record.model_name.as_str()));
    push_member(&mut meta, "temperature", JsonValue::Number(String::from_str(temperature)));
    push_member(&mut meta, "thinking_budget", json_number(record.thinking_budget as u64));
    push_member(&mut meta, "thinking_enabled", JsonValue::Bool(record.thinking_enabled));
    push_member(&mut meta, "timestamp", json_number(record.timestamp));
    push_member(&mut meta, "top_p", JsonValue::Number(String::from_str(top_p)));
    assert(members_view(meta@) =~= seq![
        ("max_tokens"@, JsonModel::Number(decimal(record.max_tokens as nat))),
        ("model"@, JsonModel::Str(record.model_name@)),
        ("temperature"@, JsonModel::Number(temperature@)),
        ("thinking_budget"@, JsonModel::Number(decimal(record.thinking_budget as nat))),
        ("thinking_enabled"@, JsonModel::Bool(record.thinking_enabled)),
        ("timestamp"@, JsonModel::Number(decimal(record.timestamp as nat))),
        ("top_p"@, JsonModel::Number(top_p@)),
    ]);
    let meta_value = json_object(meta);
    assert(json_view(meta_value) =~= record_metadata_spec(*record, temperature@, top_p@));
    (input_value, output_value, meta_value)
}

proof fn lemma_get_at(ms: Seq<(Seq<char>, JsonModel)>, k: Seq<char>, i: int)
    requires
        0 <= i < ms.len(),
        ms[i].0 == k,
        forall|j: int| 0 <= j < i ==> (#[trigger] ms[j]).0 != k,
    ensures
        model_get(JsonModel::Object(ms), k) == Some(ms[i].1),
{
    assert forall|j: int| 0 <= j < i implies !model_key_is(k)(#[trigger] ms[j]) by {}
    lemma_first_pos_at(ms, model_key_is(k), i);
}

proof fn lemma_get_absent(ms: Seq<(Seq<char>, JsonModel)>, k: Seq<char>)
    requires
        forall|j: int| 0 <= j < ms.len() ==> (#[trigger] ms[j]).0 != k,
    ensures
        model_get(JsonModel::Object(ms), k) is None,
{
    lemma_first_pos(ms, model_key_is(k));
    if let Some(q) = first_pos(ms, model_key_is(k)) {
        assert(ms[q].0 != k);
    }
}

proof fn lemma_body_keys_differ()
    ensures
        "max_tokens"@ != "tools"@,
        "messages"@ != "tools"@,
        "model"@ != "tools"@,
        "thinking"@ != "tools"@,
        "frequency_penalty"@ != "tools"@,
        "presence_penalty"@ != "tools"@,
        "temperature"@ != "tools"@,
        "top_p"@ != "tools"@,
        "max_tokens"@ != "temperature"@,
        "messages"@ != "temperature"@,
        "model"@ != "temperature"@,
        "thinking"@ != "temperature"@,
        "frequency_penalty"@ != "temperature"@,
        "presence_penalty"@ != "temperature"@,
        "max_tokens"@ != "top_p"@,
        "messages"@ != "top_p"@,
        "model"@ != "top_p"@,
        "thinking"@ != "top_p"@,
        "frequency_penalty"@ != "top_p"@,
        "presence_penalty"@ != "top_p"@,
        "temperature"@ != "top_p"@,
{
    reveal_strlit("max_tokens");
    reveal_strlit("messages");
    reveal_strlit("model");
    reveal_strlit("thinking");
    reveal_strlit("frequency_penalty");
    reveal_strlit("presence_penalty");
    reveal_strlit("temperature");
    reveal_strlit("top_p");
    reveal_strlit("tools");
    assert("max_tokens"@.len() == 10);
    assert("messages"@.len() == 8);
    assert("temperature"@.len() == 11);
    assert("model"@[0] != "tools"@[0]);
    assert("top_p"@[2] != "tools"@[2]);
    assert("model"@[0] != "top_p"@[0]);
}

/// The tool entries of a request hold exactly the tools whose schemas
/// parsed: one for each such tool, and nothing else.
proof fn lemma_tools_json_entries(tools: Seq<ToolDefinition>, schemas: Seq<Option<JsonModel>>, anthropic: bool, n: nat)
    requires
        n <= tools.len(),
        schemas.len() == tools.len(),
    ensures
        tools_json(tools, schemas, anthropic, n).len() > 0 <==> exists|i: int| 0 <= i < n && (#[trigger] schemas[i]) is Some,
        forall|i: int| 0 <= i < n && (#[trigger] schemas[i]) is Some
            ==> tools_json(tools, schemas, anthropic, n).contains(tool_json(tools[i], schemas[i]->Some_0, anthropic)),
        forall|x: JsonModel| #[trigger] tools_json(tools, schemas, anthropic, n).contains(x)
            ==> exists|i: int| 0 <= i < n && (#[trigger] schemas[i]) is Some
                && x == tool_json(tools[i], schemas[i]->Some_0, anthropic),
    decreases n,
{
    if n > 0 {
        let m = (n - 1) as nat;
        lemma_tools_json_entries(tools, schemas, anthropic, m);
        let r = tools_json(tools, schemas, anthropic, m);
        let t = tools_json(tools, schemas, anthropic, n);
        match schemas[m as int] {
            Some(sc) => {
                assert(t == r.push(tool_json(tools[m as int], sc, anthropic)));
                assert(t[r.len() as int] == tool_json(tools[m as int], sc, anthropic));
                assert forall|i: int| 0 <= i < n && (#[trigger] schemas[i]) is Some
                    implies t.contains(tool_json(tools[i], schemas[i]->Some_0, anthropic)) by {
                    if i < m {
                        let j = choose|j: int| 0 <= j < r.len() && r[j] == tool_json(tools[i], schemas[i]->Some_0, anthropic);
                        assert(t[j] == r[j]);
                    }
                }
                assert forall|x: JsonModel| #[trigger] t.contains(x) implies exists|i: int| 0 <= i < n
                    && (#[trigger] schemas[i]) is Some && x == tool_json(tools[i], schemas[i]->Some_0, anthropic) by {
                    let j = choose|j: int| 0 <= j < t.len() && t[j] == x;
                    if j < r.len() {
                        assert(r[j] == x);
                        assert(r.contains(x));
                    } else {
                        assert(schemas[m as int] is Some);
                    }
                }
            },
            None => {
                assert(t == r);
            },
        }
    }
}

/// The entries of the `tools` array of a request body (none where it has
/// no such array).
pub open spec fn tools_entries(body: JsonModel) -> Seq<JsonModel> {
    match model_get(body, "tools"@) {
        Some(JsonModel::Array(xs)) => xs,
        _ => Seq::empty(),
    }
}

/// The tools member of a request body does not depend on thinking: the
/// body has a `tools` member exactly when some tool's schema parsed, and
/// that member is the same array whether thinking is on or off, holding an
/// entry for each such tool and nothing else. With thinking off the body
/// carries the temperature and top-p; with thinking on it does not.
pub proof fn lemma_request_tools_ignore_thinking(
    model_name: Seq<char>,
    messages: Seq<DebugMessage>,
    max_tokens: u32,
    tools: Seq<ToolDefinition>,
    schemas: Seq<Option<JsonModel>>,
    anthropic: bool,
    thinking_budget_tokens: u32,
    sampling: SamplingNumbers,
)
    requires
        schemas.len() == tools.len(),
    ensures
        ({
            let on = request_body_spec(model_name, messages, max_tokens, tools, schemas, anthropic, true,
                thinking_budget_tokens, sampling);
            let off = request_body_spec(model_name, messages, max_tokens, tools, schemas, anthropic, false,
                thinking_budget_tokens, sampling);
            &&& model_get(on, "tools"@) == model_get(off, "tools"@)
            &&& (model_get(on, "tools"@) is Some <==> exists|i: int| 0 <= i < tools.len() && (#[trigger] schemas[i]) is Some)
            &&& model_get(on, "tools"@) is Some ==> model_get(on, "tools"@) == Some(JsonModel::Array(tools_entries(on)))
            &&& forall|i: int| 0 <= i < tools.len() && (#[trigger] schemas[i]) is Some
                ==> tools_entries(on).contains(tool_json(tools[i], schemas[i]->Some_0, anthropic))
            &&& forall|x: JsonModel| #[trigger] tools_entries(on).contains(x)
                ==> exists|i: int| 0 <= i < tools.len() && (#[trigger] schemas[i]) is Some
                    && x == tool_json(tools[i], schemas[i]->Some_0, anthropic)
            &&& model_get(off, "temperature"@) == Some(JsonModel::Number(sampling.temperature@))
            &&& model_get(off, "top_p"@) == Some(JsonModel::Number(sampling.top_p@))
            &&& model_get(on, "temperature"@) is None
            &&& model_get(on, "top_p"@) is None
        }),
{
    lemma_body_keys_differ();
    lemma_tools_json_entries(tools, schemas, anthropic, tools.len());
    let ts = tools_json(tools, schemas, anthropic, tools.len());
    let tools_member = if ts.len() > 0 {
        seq![("tools"@, JsonModel::Array(ts))]
    } else {
        Seq::<(Seq<char>, JsonModel)>::empty()
    };
    let core = seq![
        ("max_tokens"@, JsonModel::Number(decimal(max_tokens as nat))),
        ("messages"@, JsonModel::Array(messages.map_values(|m: DebugMessage| message_json(m)))),
        ("model"@, JsonModel::Str(model_name)),
    ];
    let on_ms = core
        + seq![("thinking"@, JsonModel::Object(seq![
            ("budget_tokens"@, JsonModel::Number(decimal(thinking_budget_tokens as nat))),
            ("type"@, JsonModel::Str("enabled"@)),
        ]))]
        + tools_member;
    let off_ms = seq![("frequency_penalty"@, JsonModel::Number(sampling.frequency_penalty@))]
        + core
        + seq![
            ("presence_penalty"@, JsonModel::Number(sampling.presence_penalty@)),
            ("temperature"@, JsonModel::Number(sampling.temperature@)),
            ("thinking"@, JsonModel::Object(seq![("type"@, JsonModel::Str("disabled"@))])),
        ]
        + tools_member
        + seq![("top_p"@, JsonModel::Number(sampling.top_p@))];
    let on = request_body_spec(model_name, messages, max_tokens, tools, schemas, anthropic, true,
        thinking_budget_tokens, sampling);
    let off = request_body_spec(model_name, messages, max_tokens, tools, schemas, anthropic, false,
        thinking_budget_tokens, sampling);
    assert(on == JsonModel::Object(on_ms));
    assert(off == JsonModel::Object(off_ms));
    // temperature and top_p
    assert(off_ms[5].0 == "temperature"@);
    lemma_get_at(off_ms, "temperature"@, 5);
    let last = off_ms.len() - 1;
    assert(off_ms[last].0 == "top_p"@);
    assert forall|j: int| 0 <= j < last implies (#[trigger] off_ms[j]).0 != "top_p"@ by {
        if j == 7 && ts.len() > 0 {
            assert(off_ms[j].0 == "tools"@);
        }
    }
    lemma_get_at(off_ms, "top_p"@, last);
    assert forall|j: int| 0 <= j < on_ms.len() implies (#[trigger] on_ms[j]).0 != "temperature"@ by {
        if j == 4 {
            assert(on_ms[j].0 == "tools"@);
        }
    }
    lemma_get_absent(on_ms, "temperature"@);
    assert forall|j: int| 0 <= j < on_ms.len() implies (#[trigger] on_ms[j]).0 != "top_p"@ by {
        if j == 4 {
            assert(on_ms[j].0 == "tools"@);
        }
    }
    lemma_get_absent(on_ms, "top_p"@);
    // tools
    if ts.len() > 0 {
        assert(on_ms[4].0 == "tools"@);
        lemma_get_at(on_ms, "tools"@, 4);
        assert(off_ms[7].0 == "tools"@);
        lemma_get_at(off_ms, "tools"@, 7);
    } else {
        assert(on_ms =~= core + seq![on_ms[3]]);
        lemma_get_absent(on_ms, "tools"@);
        assert forall|j: int| 0 <= j < off_ms.len() implies (#[trigger] off_ms[j]).0 != "tools"@ by {}
        lemma_get_absent(off_ms, "tools"@);
    }
}

} // verus!
