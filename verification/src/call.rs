//! The text around a model call: the endpoint URL, the reply shown, the
//! error texts and the log lines.
use vstd::prelude::*;
use vstd::string::*;
use crate::std_wrappers::push_char;
use crate::text::{chars_eq, chars_of, string_of};

use crate::json::{json_get, json_option_view, json_view, lemma_array_view, lemma_get_view, model_get, parse_json, parsed_json, JsonModel, JsonValue};

verus! {

/// Whether `s` ends with `suffix`.
pub open spec fn ends_with(s: Seq<char>, suffix: Seq<char>) -> bool {
    suffix.len() <= s.len() && s.subrange(s.len() - suffix.len(), s.len() as int) == suffix
}

/// Whether `needle` occurs in `s`.
pub open spec fn contains_seq(s: Seq<char>, needle: Seq<char>) -> bool {
    exists|i: int| 0 <= i && i + needle.len() <= s.len() && #[trigger] s.subrange(i, i + needle.len()) == needle
}

/// The chat-completion endpoint of a provider base URL: `chat/completions`
/// is appended to a base that already ends in `/v1`, and
/// `v1/chat/completions` to any other, with one `/` between.
pub open spec fn completion_url_spec(base: Seq<char>) -> Seq<char> {
    if ends_with(base, "/v1"@) || ends_with(base, "/v1/"@) {
        if ends_with(base, "/"@) {
            base + "chat/completions"@
        } else {
            base + "/chat/completions"@
        }
    } else if ends_with(base, "/"@) {
        base + "v1/chat/completions"@
    } else {
        base + "/v1/chat/completions"@
    }
}

/// Whether `s` ends with `suffix`.
pub fn ends_with_chars(s: &[char], suffix: &[char]) -> (r: bool)
    ensures
        r == ends_with(s@, suffix@),
{
    if suffix.len() > s.len() {
        return false;
    }
    let off = s.len() - suffix.len();
    let mut i: usize = 0;
    while i < suffix.len()
        invariant
            off + suffix.len() == s.len(),
            i <= suffix.len(),
            forall|j: int| 0 <= j < i ==> s@[off + j] == suffix@[j],
        decreases suffix.len() - i,
    {
        if s[off + i] != suffix[i] {
            assert(s@.subrange(off as int, s.len() as int)[i as int] != suffix@[i as int]);
            return false;
        }
        i = i + 1;
    }
    assert(s@.subrange(off as int, s.len() as int) =~= suffix@);
    true
}

/// The chat-completion endpoint for a provider base URL.
pub fn chat_completions_url(base_url: &str) -> (r: String)
    ensures
        r@ == completion_url_spec(base_url@),
{
    let b = chars_of(base_url);
    let v1 = chars_of("/v1");
    let v1s = chars_of("/v1/");
    let slash = chars_of("/");
    let mut out = String::from_str(base_url);
    if ends_with_chars(b.as_slice(), v1.as_slice()) || ends_with_chars(b.as_slice(), v1s.as_slice()) {
        if ends_with_chars(b.as_slice(), slash.as_slice()) {
            out.append("chat/completions");
        } else {
            out.append("/chat/completions");
        }
    } else if ends_with_chars(b.as_slice(), slash.as_slice()) {
        out.append("v1/chat/completions");
    } else {
        out.append("/v1/chat/completions");
    }
    out
}

/// The reply shown for a completion: the content alone, or, when the
/// model also returned its reasoning, both under their headings.
pub open spec fn reply_text_spec(content: Seq<char>, reasoning: Seq<char>) -> Seq<char> {
    if reasoning.len() == 0 {
        content
    } else {
        "【思考过程】\n"@ + reasoning + "\n\n【最终回复】\n"@ + content
    }
}

pub fn reply_text(content: &str, reasoning: &str) -> (r: String)
    ensures
        r@ == reply_text_spec(content@, reasoning@),
{
    if reasoning.is_empty() {
        return String::from_str(content);
    }
    let mut out = String::from_str("【思考过程】\n");
    out.append(reasoning);
    out.append("\n\n【最终回复】\n");
    out.append(content);
    out
}

/// The error shown when the provider answers with a non-success status.
pub fn http_error_text(status: &str, body: &str) -> (r: String)
    ensures
        r@ == "HTTP "@ + status@ + ": "@ + body@,
{
    let mut out = String::from_str("HTTP ");
    out.append(status);
    out.append(": ");
    out.append(body);
    out
}

/// The error shown when the request could not be sent.
pub fn request_failed_text(root_cause: &str, url: &str) -> (r: String)
    ensures
        r@ == "请求失败: "@ + root_cause@ + "（"@ + url@ + "）"@,
{
    let mut out = String::from_str("请求失败: ");
    out.append(root_cause);
    out.append("（");
    out.append(url);
    out.append("）");
    out
}

/// How many characters of a response a log line keeps.
pub const LOG_TEXT_LIMIT: usize = 300;

/// A response text shortened for a log line: up to the limit it is kept
/// whole, beyond it the first characters are kept and `…` follows.
pub open spec fn truncate_for_log_spec(text: Seq<char>) -> Seq<char> {
    if text.len() <= 300 {
        text
    } else {
        text.subrange(0, 300).push('…')
    }
}

pub fn truncate_for_log(text: &str) -> (r: String)
    ensures
        r@ == truncate_for_log_spec(text@),
{
    let c = chars_of(text);
    if c.len() <= LOG_TEXT_LIMIT {
        return String::from_str(text);
    }
    let mut out = String::new();
    let mut i: usize = 0;
    while i < LOG_TEXT_LIMIT
        invariant
            i <= LOG_TEXT_LIMIT < c.len(),
            c@ == text@,
            out@ == c@.subrange(0, i as int),
        decreases LOG_TEXT_LIMIT - i,
    {
        push_char(&mut out, c[i]);
        i = i + 1;
        assert(out@ =~= c@.subrange(0, i as int));
    }
    push_char(&mut out, '…');
    out
}

/// The messages of an error chain without a message that repeats the one
/// kept just before it.
pub open spec fn dedup_adjacent(ms: Seq<Seq<char>>) -> Seq<Seq<char>>
    decreases ms.len(),
{
    if ms.len() == 0 {
        ms
    } else {
        let r = dedup_adjacent(ms.drop_last());
        if r.len() > 0 && r.last() == ms.last() {
            r
        } else {
            r.push(ms.last())
        }
    }
}

/// The pieces joined with `sep` between neighbours.
pub open spec fn join_seq(ps: Seq<Seq<char>>, sep: Seq<char>) -> Seq<char>
    decreases ps.len(),
{
    if ps.len() == 0 {
        Seq::<char>::empty()
    } else if ps.len() == 1 {
        ps[0]
    } else {
        join_seq(ps.drop_last(), sep) + sep + ps.last()
    }
}

/// The messages of an error and of its sources, outermost first, on one log
/// line: joined by ` <- `, a message that repeats the previous one left out.
pub fn error_chain_for_log(messages: &[String]) -> (r: String)
    ensures
        r@ == join_seq(dedup_adjacent(messages@.map_values(|m: String| m@)), " <- "@),
{
    let ghost ms = messages@.map_values(|m: String| m@);
    let mut parts: Vec<Vec<char>> = Vec::new();
    let mut i: usize = 0;
    assert(ms.subrange(0, 0) =~= Seq::<Seq<char>>::empty());
    while i < messages.len()
        invariant
            i <= messages.len(),
            ms == messages@.map_values(|m: String| m@),
            parts@.map_values(|p: Vec<char>| p@) == dedup_adjacent(ms.subrange(0, i as int)),
        decreases messages.len() - i,
    {
        let text = chars_of(messages[i].as_str());
        proof {
            let q = ms.subrange(0, i + 1);
            assert(q.drop_last() =~= ms.subrange(0, i as int));
            assert(q.last() == messages@[i as int]@);
        }
        let n = parts.len();
        let repeat = n > 0 && chars_eq(parts[n - 1].as_slice(), text.as_slice());
        if !repeat {
            parts.push(text);
        }
        i = i + 1;
        assert(parts@.map_values(|p: Vec<char>| p@) =~= dedup_adjacent(ms.subrange(0, i as int)));
    }
    assert(ms.subrange(0, messages.len() as int) =~= ms);
    let ghost ps = parts@.map_values(|p: Vec<char>| p@);
    let mut out = String::new();
    let mut k: usize = 0;
    assert(ps.subrange(0, 0) =~= Seq::<Seq<char>>::empty());
    while k < parts.len()
        invariant
            k <= parts.len(),
            ps == parts@.map_values(|p: Vec<char>| p@),
            out@ == join_seq(ps.subrange(0, k as int), " <- "@),
        decreases parts.len() - k,
    {
        let piece = string_of(parts[k].as_slice());
        proof {
            let q = ps.subrange(0, k + 1);
            assert(q.drop_last() =~= ps.subrange(0, k as int));
            assert(q.last() == parts@[k as int]@);
            if k == 0 {
                assert(q[0] == parts@[0]@);
            }
        }
        if k > 0 {
            out.append(" <- ");
        }
        out.append(piece.as_str());
        k = k + 1;
        assert(out@ =~= join_seq(ps.subrange(0, k as int), " <- "@));
    }
    assert(ps.subrange(0, parts.len() as int) =~= ps);
    out
}

/// The deepest cause of an error: the message of the last source, or the
/// error's own message when it has none.
pub fn root_cause_for_log(messages: &[String]) -> (r: String)
    requires
        messages@.len() > 0,
    ensures
        r@ == messages@.last()@,
{
    messages[messages.len() - 1].clone()
}

/// The text of a string member of JSON data, or nothing.
pub open spec fn str_member(v: Option<JsonModel>, key: Seq<char>) -> Seq<char> {
    match v {
        Some(x) => match model_get(x, key) {
            Some(JsonModel::Str(s)) => s,
            _ => Seq::empty(),
        },
        None => Seq::empty(),
    }
}

/// The `message` of the first choice of a completion response, where there
/// is one.
pub open spec fn first_choice_message(json: JsonModel) -> Option<JsonModel> {
    match model_get(json, "choices"@) {
        Some(JsonModel::Array(xs)) => if xs.len() > 0 { model_get(xs[0], "message"@) } else { None },
        _ => None,
    }
}

/// The reply shown for a successful response: with a JSON body, the first
/// choice's message content (and reasoning, where it has some); a body that
/// is no JSON as it is.
pub open spec fn completion_reply_spec(body: Seq<char>, parsed: Option<JsonModel>) -> Seq<char> {
    match parsed {
        Some(json) => {
            let message = first_choice_message(json);
            reply_text_spec(str_member(message, "content"@), str_member(message, "reasoning_content"@))
        },
        None => body,
    }
}

/// The text of a string member, or empty.
fn str_member_text(v: Option<&JsonValue>, key: &str) -> (r: String)
    ensures
        r@ == str_member(json_option_view(match v { Some(x) => Some(*x), None => None }), key@),
{
    match v {
        Some(x) => {
            proof {
                lemma_get_view(*x, key@);
            }
            match json_get(x, key) {
                Some(JsonValue::Str(s)) => s.clone(),
                _ => String::new(),
            }
        },
        None => String::new(),
    }
}

/// The reply shown for a successful response; see `completion_reply_spec`.
/// `parsed` is the body parsed as JSON, where it is JSON.
pub fn completion_reply(body: &str, parsed: Option<&JsonValue>) -> (r: String)
    ensures
        r@ == completion_reply_spec(body@, json_option_view(match parsed { Some(x) => Some(*x), None => None })),
{
    let json = match parsed {
        Some(j) => j,
        None => return String::from_str(body),
    };
    proof {
        reveal_strlit("choices");
        reveal_strlit("message");
        lemma_get_view(*json, "choices"@);
    }
    let message: Option<&JsonValue> = match json_get(json, "choices") {
        Some(JsonValue::Array(xs)) => {
            proof {
                lemma_array_view(*xs);
            }
            if xs.len() > 0 {
                proof {
                    lemma_get_view(xs@[0], "message"@);
                }
                json_get(&xs[0], "message")
            } else {
                None
            }
        },
        _ => None,
    };
    assert(json_option_view(match message { Some(x) => Some(*x), None => None })
        == first_choice_message(json_view(*json)));
    let content = str_member_text(message, "content");
    let reasoning = str_member_text(message, "reasoning_content");
    reply_text(content.as_str(), reasoning.as_str())
}

/// The reply shown for a successful response with this body: the body is
/// parsed as JSON (`parsed_json`), then read as `completion_reply_spec`
/// says.
pub fn reply_from_body(body: &str) -> (r: String)
    ensures
        r@ == completion_reply_spec(body@, parsed_json(body@)),
{
    let parsed = parse_json(body);
    completion_reply(body, parsed.as_ref())
}

} // verus!
