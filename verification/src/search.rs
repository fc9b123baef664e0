//! Searching and previewing: the pickers' case-insensitive filters and the
//! one-line previews of long texts.
use vstd::prelude::*;
use vstd::string::*;
use crate::call::contains_seq;
use crate::seqs::{keep, lemma_keep_keeps};
use crate::catalog::{DbFunction, PromptTemplate};
use crate::std_wrappers::push_char;
use crate::text::{chars_of, is_whitespace, is_ws, string_of, trim_seq, trimmed};

verus! {

/// What `str::to_lowercase` gives for a text (Unicode lowercase mapping).
pub uninterp spec fn lowercase(s: Seq<char>) -> Seq<char>;

/// Calls `str::to_lowercase`; its result is named `lowercase` of the
/// argument, the Unicode case mapping, which this library does not restate.
#[verifier::external_body]
fn to_lowercase(s: &str) -> (r: String)
    ensures
        r@ == lowercase(s@),
{
    s.to_lowercase()
}

/// Whether `needle` occurs in `hay`.
pub fn contains_chars(hay: &[char], needle: &[char]) -> (r: bool)
    ensures
        r == contains_seq(hay@, needle@),
{
    if needle.len() > hay.len() {
        proof {
            assert forall|i: int| 0 <= i && i + needle@.len() <= hay@.len() implies #[trigger] hay@.subrange(i, i + needle@.len()) != needle@ by {}
        }
        return false;
    }
    let mut i: usize = 0;
    let last = hay.len() - needle.len();
    while i <= last
        invariant
            needle.len() <= hay.len(),
            last == hay.len() - needle.len(),
            i <= last + 1,
            forall|k: int| 0 <= k < i ==> #[trigger] hay@.subrange(k, k + needle@.len()) != needle@,
        decreases hay.len() - i,
    {
        let mut j: usize = 0;
        let mut ok = true;
        while j < needle.len()
            invariant
                i + needle.len() <= hay.len(),
                j <= needle.len(),
                ok == forall|m: int| 0 <= m < j ==> hay@[i + m] == needle@[m],
            decreases needle.len() - j,
        {
            if hay[i + j] != needle[j] {
                ok = false;
            }
            j = j + 1;
        }
        if ok {
            assert(hay@.subrange(i as int, i + needle@.len()) =~= needle@);
            return true;
        }
        proof {
            let m = choose|m: int| 0 <= m < needle.len() && hay@[i + m] != needle@[m];
            assert(hay@.subrange(i as int, i + needle@.len())[m] != needle@[m]);
        }
        i = i + 1;
    }
    false
}

/// Whether a provider takes Anthropic-style tool definitions: its name
/// mentions `anthropic` in any letter case.
pub fn is_anthropic_provider(name: &str) -> (r: bool)
    ensures
        r == contains_seq(lowercase(name@), "anthropic"@),
{
    let lower = to_lowercase(name);
    let a = chars_of(lower.as_str());
    let b = chars_of("anthropic");
    contains_chars(a.as_slice(), b.as_slice())
}

/// The query for a search text: empty for a blank search, else the text
/// trimmed and lowercased.
pub open spec fn query_spec(search: Seq<char>) -> Seq<char> {
    if trim_seq(search).len() == 0 { Seq::empty() } else { lowercase(trim_seq(search)) }
}

/// The query a picker searches with: the search text trimmed and
/// lowercased; a blank search gives the empty query, which matches
/// everything.
pub fn search_query(search: &str) -> (r: String)
    ensures
        r@ == query_spec(search@),
        trim_seq(search@).len() == 0 ==> r@.len() == 0,
{
    let c = chars_of(search);
    let t = trimmed(c.as_slice());
    if t.len() == 0 {
        return String::new();
    }
    let s = string_of(t.as_slice());
    to_lowercase(s.as_str())
}

/// Whether a library prompt matches a picker query: any prompt matches the
/// empty query, else the query occurs in its lowercased name or content.
pub open spec fn prompt_matches_spec(query: Seq<char>, p: PromptTemplate) -> bool {
    query.len() == 0 || contains_seq(lowercase(p.name@), query) || contains_seq(lowercase(p.content@), query)
}

pub fn prompt_matches(query: &str, prompt: &PromptTemplate) -> (r: bool)
    ensures
        r == prompt_matches_spec(query@, *prompt),
{
    let q = chars_of(query);
    if q.len() == 0 {
        return true;
    }
    let name = to_lowercase(prompt.name.as_str());
    let n = chars_of(name.as_str());
    if contains_chars(n.as_slice(), q.as_slice()) {
        return true;
    }
    let content = to_lowercase(prompt.content.as_str());
    let c = chars_of(content.as_str());
    contains_chars(c.as_slice(), q.as_slice())
}

/// Whether a managed function matches a picker query: any function matches
/// the empty query, else the query occurs in its lowercased name or
/// identifier.
pub open spec fn function_matches_spec(query: Seq<char>, f: DbFunction) -> bool {
    query.len() == 0 || contains_seq(lowercase(f.name@), query) || contains_seq(lowercase(f.identifier@), query)
}

pub fn function_matches(query: &str, function: &DbFunction) -> (r: bool)
    ensures
        r == function_matches_spec(query@, *function),
{
    let q = chars_of(query);
    if q.len() == 0 {
        return true;
    }
    let name = to_lowercase(function.name.as_str());
    let n = chars_of(name.as_str());
    if contains_chars(n.as_slice(), q.as_slice()) {
        return true;
    }
    let ident = to_lowercase(function.identifier.as_str());
    let c = chars_of(ident.as_str());
    contains_chars(c.as_slice(), q.as_slice())
}

/// The words of `s`: its maximal runs of non-whitespace characters.
pub open spec fn words(s: Seq<char>) -> Seq<Seq<char>>
    decreases s.len(),
{
    if s.len() == 0 {
        Seq::<Seq<char>>::empty()
    } else {
        let r = words(s.drop_last());
        if is_ws(s.last()) {
            r
        } else if s.len() >= 2 && !is_ws(s[s.len() - 2]) && r.len() > 0 {
            r.update(r.len() - 1, r.last().push(s.last()))
        } else {
            r.push(seq![s.last()])
        }
    }
}

/// The words joined by single spaces (`split_whitespace` then `join(" ")`).
pub open spec fn flatten_spec(s: Seq<char>) -> Seq<char> {
    crate::call::join_seq(words(s), " "@)
}

/// A text shortened to at most `limit` characters, with `marker` after it
/// when something was cut.
pub open spec fn shorten_spec(s: Seq<char>, limit: nat, marker: Seq<char>) -> Seq<char> {
    if s.len() > limit { s.subrange(0, limit as int) + marker } else { s }
}

proof fn lemma_words_step(s: Seq<char>, i: int)
    requires
        0 < i <= s.len(),
    ensures
        words(s.subrange(0, i)) == ({
            let r = words(s.subrange(0, i - 1));
            if is_ws(s[i - 1]) {
                r
            } else if i >= 2 && !is_ws(s[i - 2]) && r.len() > 0 {
                r.update(r.len() - 1, r.last().push(s[i - 1]))
            } else {
                r.push(seq![s[i - 1]])
            }
        }),
{
    let q = s.subrange(0, i);
    assert(q.drop_last() =~= s.subrange(0, i - 1));
    assert(q.last() == s[i - 1]);
    if i >= 2 {
        assert(q[q.len() - 2] == s[i - 2]);
    }
}

/// The words of a text joined by single spaces.
pub fn flatten_whitespace(text: &str) -> (r: String)
    ensures
        r@ == flatten_spec(text@),
{
    let s = chars_of(text);
    let mut ws: Vec<Vec<char>> = Vec::new();
    let mut i: usize = 0;
    assert(s@.subrange(0, 0) =~= Seq::<char>::empty());
    while i < s.len()
        invariant
            i <= s.len(),
            ws@.map_values(|w: Vec<char>| w@) == words(s@.subrange(0, i as int)),
        decreases s.len() - i,
    {
        proof { lemma_words_step(s@, i + 1); }
        let c = s[i];
        if is_whitespace(c) {
        } else if i >= 1 && !is_whitespace(s[i - 1]) && ws.len() > 0 {
            let mut last = ws.pop().unwrap();
            last.push(c);
            ws.push(last);
        } else {
            let mut w: Vec<char> = Vec::new();
            w.push(c);
            ws.push(w);
        }
        i = i + 1;
        assert(ws@.map_values(|w: Vec<char>| w@) =~= words(s@.subrange(0, i as int)));
    }
    assert(s@.subrange(0, s.len() as int) =~= s@);
    let ghost ps = ws@.map_values(|w: Vec<char>| w@);
    let mut out = String::new();
    let mut k: usize = 0;
    assert(ps.subrange(0, 0) =~= Seq::<Seq<char>>::empty());
    while k < ws.len()
        invariant
            k <= ws.len(),
            ps == ws@.map_values(|w: Vec<char>| w@),
            out@ == crate::call::join_seq(ps.subrange(0, k as int), " "@),
        decreases ws.len() - k,
    {
        let piece = string_of(ws[k].as_slice());
        proof {
            let q = ps.subrange(0, k + 1);
            assert(q.drop_last() =~= ps.subrange(0, k as int));
            assert(q.last() == ws@[k as int]@);
            if k == 0 {
                assert(q[0] == ws@[0]@);
            }
        }
        if k > 0 {
            out.append(" ");
        }
        out.append(piece.as_str());
        k = k + 1;
        assert(out@ =~= crate::call::join_seq(ps.subrange(0, k as int), " "@));
    }
    assert(ps.subrange(0, ws.len() as int) =~= ps);
    out
}

/// A text shortened to at most `limit` characters, with `marker` after it
/// when something was cut.
pub fn shorten(text: &str, limit: usize, marker: &str) -> (r: String)
    ensures
        r@ == shorten_spec(text@, limit as nat, marker@),
{
    let c = chars_of(text);
    if c.len() <= limit {
        return String::from_str(text);
    }
    let mut out = String::new();
    let mut i: usize = 0;
    while i < limit
        invariant
            i <= limit < c.len(),
            c@ == text@,
            out@ == c@.subrange(0, i as int),
        decreases limit - i,
    {
        push_char(&mut out, c[i]);
        i = i + 1;
        assert(out@ =~= c@.subrange(0, i as int));
    }
    out.append(marker);
    out
}

/// The one-line preview of a prompt in the prompt picker: its words on one
/// line, at most 80 characters, `…` after a cut.
pub fn picker_preview(content: &str) -> (r: String)
    ensures
        r@ == shorten_spec(flatten_spec(content@), 80, "…"@),
{
    let flat = flatten_whitespace(content);
    shorten(flat.as_str(), 80, "…")
}

/// Whether `q` occurs in `s` starting at position `i`.
pub open spec fn occurs_at(s: Seq<char>, q: Seq<char>, i: int) -> bool {
    0 <= i && i + q.len() <= s.len() && forall|j: int| 0 <= j < q.len() ==> s[i + j] == q[j]
}

/// A prompt matches a query exactly when the query is empty or occurs, at
/// any position, in the prompt's lowercased name or content.
pub proof fn lemma_prompt_match_is_containment(q: Seq<char>, p: PromptTemplate)
    ensures
        prompt_matches_spec(q, p) <==> (q.len() == 0
            || (exists|i: int| occurs_at(lowercase(p.name@), q, i))
            || (exists|i: int| occurs_at(lowercase(p.content@), q, i))),
{
    lemma_contains_is_occurrence(lowercase(p.name@), q);
    lemma_contains_is_occurrence(lowercase(p.content@), q);
}

/// A managed function matches a query exactly when the query is empty or
/// occurs, at any position, in its lowercased name or identifier.
pub proof fn lemma_function_match_is_containment(q: Seq<char>, f: DbFunction)
    ensures
        function_matches_spec(q, f) <==> (q.len() == 0
            || (exists|i: int| occurs_at(lowercase(f.name@), q, i))
            || (exists|i: int| occurs_at(lowercase(f.identifier@), q, i))),
{
    lemma_contains_is_occurrence(lowercase(f.name@), q);
    lemma_contains_is_occurrence(lowercase(f.identifier@), q);
}

proof fn lemma_contains_is_occurrence(s: Seq<char>, q: Seq<char>)
    ensures
        contains_seq(s, q) <==> exists|i: int| occurs_at(s, q, i),
{
    if contains_seq(s, q) {
        let i = choose|i: int| 0 <= i && i + q.len() <= s.len() && #[trigger] s.subrange(i, i + q.len()) == q;
        assert forall|j: int| 0 <= j < q.len() implies s[i + j] == q[j] by {
            assert(s.subrange(i, i + q.len())[j] == s[i + j]);
        }
        assert(occurs_at(s, q, i));
    }
    if exists|i: int| occurs_at(s, q, i) {
        let i = choose|i: int| occurs_at(s, q, i);
        assert(s.subrange(i, i + q.len()) =~= q);
    }
}

/// The prompt picker keeps every available prompt whose lowercased name or
/// content holds the query at some position.
pub proof fn lemma_picker_keeps_containing_prompts(ps: Seq<PromptTemplate>, q: Seq<char>, k: int, i: int)
    requires
        0 <= k < ps.len(),
        occurs_at(lowercase(ps[k].name@), q, i) || occurs_at(lowercase(ps[k].content@), q, i),
    ensures
        keep(ps, |p: PromptTemplate| !prompt_matches_spec(q, p)).contains(ps[k]),
{
    lemma_prompt_match_is_containment(q, ps[k]);
    lemma_keep_keeps(ps, |p: PromptTemplate| !prompt_matches_spec(q, p), k);
}

} // verus!
