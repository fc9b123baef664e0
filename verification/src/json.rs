//! JSON values as the comparison view reads them: which leaves differ
//! between aligned values, and the pretty-printed lines with the differing
//! ones marked.

use vstd::prelude::*;
use crate::seqs::{first_pos, lemma_first_pos, lemma_first_pos_at};
use crate::std_wrappers::push_char;
use crate::text::{decimal, push_decimal, str_eq};

verus! {

/// A JSON value. Numbers are kept as their JSON text; an object keeps its
/// members in order, with distinct keys.
#[derive(Debug)]
pub enum JsonValue {
    Null,
    Bool(bool),
    Number(String),
    Str(String),
    Array(Vec<JsonValue>),
    Object(Vec<(String, JsonValue)>),
}

/// Whether two JSON values are equal: same kind, same scalar, and, for
/// containers, equal members in the same positions.
pub open spec fn json_eq(a: JsonValue, b: JsonValue) -> bool
    decreases a,
{
    match a {
        JsonValue::Null => b is Null,
        JsonValue::Bool(x) => b matches JsonValue::Bool(y) && x == y,
        JsonValue::Number(x) => b matches JsonValue::Number(y) && x@ == y@,
        JsonValue::Str(x) => b matches JsonValue::Str(y) && x@ == y@,
        JsonValue::Array(xs) => match b {
            JsonValue::Array(ys) => xs@.len() == ys@.len() && forall|i: int|
                #![trigger xs@[i]]
                0 <= i < xs@.len() ==> json_eq(xs@[i], ys@[i]),
            _ => false,
        },
        JsonValue::Object(ms) => match b {
            JsonValue::Object(ns) => ms@.len() == ns@.len() && forall|i: int|
                #![trigger ms@[i]]
                0 <= i < ms@.len() ==> ms@[i].0@ == ns@[i].0@ && json_eq(ms@[i].1, ns@[i].1),
            _ => false,
        },
    }
}

/// Compares two JSON values.
pub fn json_equal(a: &JsonValue, b: &JsonValue) -> (r: bool)
    ensures
        r == json_eq(*a, *b),
    decreases a,
{
    match a {
        JsonValue::Null => match b {
            JsonValue::Null => true,
            _ => false,
        },
        JsonValue::Bool(x) => match b {
            JsonValue::Bool(y) => *x == *y,
            _ => false,
        },
        JsonValue::Number(x) => match b {
            JsonValue::Number(y) => str_eq(x.as_str(), y.as_str()),
            _ => false,
        },
        JsonValue::Str(x) => match b {
            JsonValue::Str(y) => str_eq(x.as_str(), y.as_str()),
            _ => false,
        },
        JsonValue::Array(xs) => match b {
            JsonValue::Array(ys) => {
                if xs.len() != ys.len() {
                    return false;
                }
                let mut i: usize = 0;
                while i < xs.len()
                    invariant
                        xs@.len() == ys@.len(),
                        i <= xs@.len(),
                        *a == JsonValue::Array(*xs),
                        *b == JsonValue::Array(*ys),
                        forall|j: int| #![trigger xs@[j]] 0 <= j < i ==> json_eq(xs@[j], ys@[j]),
                    decreases xs.len() - i,
                {
                    proof {
                        vstd::std_specs::vec::axiom_vec_index_decreases(*xs, i as int);
                        assert(decreases_to!(*a => a->Array_0));
                    }
                    if !json_equal(&xs[i], &ys[i]) {
                        assert(!json_eq(xs@[i as int], ys@[i as int]));
                        return false;
                    }
                    i = i + 1;
                }
                true
            },
            _ => false,
        },
        JsonValue::Object(ms) => match b {
            JsonValue::Object(ns) => {
                if ms.len() != ns.len() {
                    return false;
                }
                let mut i: usize = 0;
                while i < ms.len()
                    invariant
                        ms@.len() == ns@.len(),
                        i <= ms@.len(),
                        *a == JsonValue::Object(*ms),
                        *b == JsonValue::Object(*ns),
                        forall|j: int| #![trigger ms@[j]] 0 <= j < i ==> ms@[j].0@ == ns@[j].0@ && json_eq(ms@[j].1, ns@[j].1),
                    decreases ms.len() - i,
                {
                    if !str_eq(ms[i].0.as_str(), ns[i].0.as_str()) {
                        assert(!(ms@[i as int].0@ == ns@[i as int].0@ && json_eq(ms@[i as int].1, ns@[i as int].1)));
                        return false;
                    }
                    proof {
                        vstd::std_specs::vec::axiom_vec_index_decreases(*ms, i as int);
                        assert(decreases_to!(*a => a->Object_0));
                        assert(decreases_to!(ms@[i as int] => ms@[i as int].1));
                    }
                    if !json_equal(&ms[i].1, &ns[i].1) {
                        assert(!json_eq(ms@[i as int].1, ns@[i as int].1));
                        return false;
                    }
                    assert(ms@[i as int].0@ == ns@[i as int].0@);
                    assert(json_eq(ms@[i as int].1, ns@[i as int].1));
                    i = i + 1;
                }
                true
            },
            _ => false,
        },
    }
}


/// One step down a JSON value: into an object member by key, or into an
/// array element by position.
pub enum Step {
    Key(Seq<char>),
    Index(nat),
}

/// A JSON pointer escape of one character: `~` becomes `~0`, `/` becomes `~1`.
pub open spec fn escape_char(c: char) -> Seq<char> {
    if c == '~' {
        seq!['~', '0']
    } else if c == '/' {
        seq!['~', '1']
    } else {
        seq![c]
    }
}

/// A key as it appears in a JSON pointer.
pub open spec fn pointer_escape(k: Seq<char>) -> Seq<char>
    decreases k.len(),
{
    if k.len() == 0 {
        Seq::<char>::empty()
    } else {
        pointer_escape(k.drop_last()) + escape_char(k.last())
    }
}

/// The text of one step in a JSON pointer.
pub open spec fn step_text(s: Step) -> Seq<char> {
    match s {
        Step::Key(k) => pointer_escape(k),
        Step::Index(i) => decimal(i),
    }
}

/// The JSON pointer of a path of steps (the root is the empty pointer).
pub open spec fn render(steps: Seq<Step>) -> Seq<char>
    decreases steps.len(),
{
    if steps.len() == 0 {
        Seq::<char>::empty()
    } else {
        "/"@ + step_text(steps[0]) + render(steps.drop_first())
    }
}

/// Whether every value equals the first one.
pub open spec fn all_equal(vals: Seq<JsonValue>) -> bool {
    forall|j: int| 0 < j < vals.len() ==> json_eq(#[trigger] vals[j], vals[0])
}

pub open spec fn all_objects(vals: Seq<JsonValue>) -> bool {
    forall|j: int| 0 <= j < vals.len() ==> (#[trigger] vals[j]) is Object
}

pub open spec fn all_arrays(vals: Seq<JsonValue>) -> bool {
    forall|j: int| 0 <= j < vals.len() ==> (#[trigger] vals[j]) is Array
}

/// Accepts the object members whose key is `k`.
pub open spec fn key_is(k: Seq<char>) -> spec_fn((String, JsonValue)) -> bool {
    |e: (String, JsonValue)| e.0@ == k
}

/// The member of `v` under key `k` (the first one), or `null` where there
/// is none.
pub open spec fn member(v: JsonValue, k: Seq<char>) -> JsonValue {
    match v {
        JsonValue::Object(ms) => match first_pos(ms@, key_is(k)) {
            Some(i) => ms@[i].1,
            None => JsonValue::Null,
        },
        _ => JsonValue::Null,
    }
}

/// Whether `v` is an object with key `k`.
pub open spec fn has_key(v: JsonValue, k: Seq<char>) -> bool {
    v matches JsonValue::Object(ms) && first_pos(ms@, key_is(k)) is Some
}

/// Whether one of the values is an object with key `k`.
pub open spec fn some_has_key(vals: Seq<JsonValue>, k: Seq<char>) -> bool {
    exists|j: int| 0 <= j < vals.len() && has_key(#[trigger] vals[j], k)
}

/// The element of `v` at position `i`, or `null` where there is none.
pub open spec fn element(v: JsonValue, i: nat) -> JsonValue {
    match v {
        JsonValue::Array(xs) => if i < xs@.len() { xs@[i as int] } else { JsonValue::Null },
        _ => JsonValue::Null,
    }
}

pub open spec fn array_len(v: JsonValue) -> nat {
    match v {
        JsonValue::Array(xs) => xs@.len(),
        _ => 0,
    }
}

/// The greatest array length among the values (0 where there is none).
pub open spec fn max_array_len(vals: Seq<JsonValue>) -> nat
    decreases vals.len(),
{
    if vals.len() == 0 {
        0
    } else {
        let m = max_array_len(vals.drop_last());
        let l = array_len(vals.last());
        if l > m { l } else { m }
    }
}

/// The values one step down, aligned with `vals`.
pub open spec fn children(vals: Seq<JsonValue>, s: Step) -> Seq<JsonValue> {
    Seq::new(vals.len(), |j: int| match s {
        Step::Key(k) => member(vals[j], k),
        Step::Index(i) => element(vals[j], i),
    })
}

/// Whether the aligned values differ at the end of `steps` and that node is
/// a smallest difference: values that are all equal differ nowhere; values
/// that are all objects (all arrays) differ only inside one of their keys
/// (positions); any other values differ at their own node.
pub open spec fn diverges_at(vals: Seq<JsonValue>, steps: Seq<Step>) -> bool
    decreases steps.len(),
{
    if all_equal(vals) {
        false
    } else if all_objects(vals) {
        steps.len() > 0 && match steps[0] {
            Step::Key(k) => some_has_key(vals, k) && diverges_at(children(vals, steps[0]), steps.drop_first()),
            Step::Index(_) => false,
        }
    } else if all_arrays(vals) {
        steps.len() > 0 && match steps[0] {
            Step::Index(i) => i < max_array_len(vals) && diverges_at(children(vals, steps[0]), steps.drop_first()),
            Step::Key(_) => false,
        }
    } else {
        steps.len() == 0
    }
}

/// The pointers, below `prefix`, of the smallest nodes where the values
/// differ.
pub open spec fn diff_below(vals: Seq<JsonValue>, prefix: Seq<char>) -> Set<Seq<char>> {
    Set::new(|p: Seq<char>| exists|steps: Seq<Step>| diverges_at(vals, steps) && p == prefix + render(steps))
}

/// The pointers of the smallest nodes where aligned values differ; fewer
/// than two values differ nowhere.
pub open spec fn diff_paths(vals: Seq<JsonValue>) -> Set<Seq<char>> {
    if vals.len() < 2 {
        Set::empty()
    } else {
        diff_below(vals, Seq::empty())
    }
}

/// The texts held in a list of strings, as a set.
pub open spec fn text_set(v: Seq<String>) -> Set<Seq<char>> {
    Set::new(|p: Seq<char>| exists|i: int| 0 <= i < v.len() && v[i]@ == p)
}

/// A key escaped for a JSON pointer.
pub fn json_pointer_escape(key: &str) -> (r: String)
    ensures
        r@ == pointer_escape(key@),
{
    let n = key.unicode_len();
    let mut out = String::new();
    let mut i: usize = 0;
    while i < n
        invariant
            n == key@.len(),
            i <= n,
            out@ == pointer_escape(key@.subrange(0, i as int)),
        decreases n - i,
    {
        let c = key.get_char(i);
        if c == '~' {
            push_char(&mut out, '~');
            push_char(&mut out, '0');
        } else if c == '/' {
            push_char(&mut out, '~');
            push_char(&mut out, '1');
        } else {
            push_char(&mut out, c);
        }
        proof {
            let t = key@.subrange(0, i as int + 1);
            assert(t.drop_last() =~= key@.subrange(0, i as int));
            assert(t.last() == c);
            assert(out@ =~= pointer_escape(t));
        }
        i = i + 1;
    }
    assert(key@.subrange(0, n as int) =~= key@);
    out
}


/// The values behind a list of references.
pub open spec fn derefs(v: Seq<&JsonValue>) -> Seq<JsonValue> {
    v.map_values(|r: &JsonValue| *r)
}

/// The differences found inside the first `t` keys of objects.
pub open spec fn keys_below(vals: Seq<JsonValue>, prefix: Seq<char>, keys: Seq<String>, t: int) -> Set<Seq<char>> {
    Set::new(|p: Seq<char>| exists|s: int| 0 <= s < t && #[trigger] diff_below(
        children(vals, Step::Key(keys[s]@)), prefix + "/"@ + pointer_escape(keys[s]@)).contains(p))
}

/// The differences found inside the first `t` positions of arrays.
pub open spec fn indexes_below(vals: Seq<JsonValue>, prefix: Seq<char>, t: nat) -> Set<Seq<char>> {
    Set::new(|p: Seq<char>| exists|i: nat| i < t && #[trigger] diff_below(
        children(vals, Step::Index(i)), prefix + "/"@ + decimal(i)).contains(p))
}

proof fn lemma_text_set_push(v: Seq<String>, s: String)
    ensures
        text_set(v.push(s)) == text_set(v).insert(s@),
{
    let w = v.push(s);
    assert forall|p: Seq<char>| text_set(w).contains(p) <==> text_set(v).insert(s@).contains(p) by {
        if text_set(v).contains(p) {
            let i = choose|i: int| 0 <= i < v.len() && v[i]@ == p;
            assert(w[i] == v[i]);
        }
        if p == s@ {
            assert(w[v.len() as int] == s);
        }
        if text_set(w).contains(p) {
            let i = choose|i: int| 0 <= i < w.len() && w[i]@ == p;
            if i < v.len() {
                assert(w[i] == v[i]);
            }
        }
    }
    assert(text_set(w) =~= text_set(v).insert(s@));
}

/// Values that are all equal differ nowhere.
proof fn lemma_equal_below(vals: Seq<JsonValue>, prefix: Seq<char>)
    requires
        all_equal(vals),
    ensures
        diff_below(vals, prefix) == Set::<Seq<char>>::empty(),
{
    assert(diff_below(vals, prefix) =~= Set::<Seq<char>>::empty());
}

/// Values whose first is no container differ, if at all, at their own node.
proof fn lemma_leaf_below(vals: Seq<JsonValue>, prefix: Seq<char>)
    requires
        vals.len() >= 1,
        !(vals[0] is Object),
        !(vals[0] is Array),
        !all_equal(vals),
    ensures
        diff_below(vals, prefix) == Set::<Seq<char>>::empty().insert(prefix),
{
    assert(!all_objects(vals));
    assert(!all_arrays(vals));
    let e = Seq::<Step>::empty();
    assert(diverges_at(vals, e));
    assert(prefix + render(e) =~= prefix);
    assert forall|p: Seq<char>| diff_below(vals, prefix).contains(p) implies p == prefix by {
        let steps = choose|steps: Seq<Step>| diverges_at(vals, steps) && p == prefix + render(steps);
        assert(steps.len() == 0);
        assert(steps =~= e);
    }
    assert(diff_below(vals, prefix) =~= Set::<Seq<char>>::empty().insert(prefix));
}

/// Objects that differ differ inside one of their keys.
proof fn lemma_object_below(vals: Seq<JsonValue>, prefix: Seq<char>, keys: Seq<String>)
    requires
        !all_equal(vals),
        all_objects(vals),
        forall|s: int| 0 <= s < keys.len() ==> some_has_key(vals, #[trigger] keys[s]@),
        forall|k: Seq<char>| some_has_key(vals, k) ==> exists|s: int| 0 <= s < keys.len() && (#[trigger] keys[s])@ == k,
    ensures
        keys_below(vals, prefix, keys, keys.len() as int) == diff_below(vals, prefix),
{
    assert forall|p: Seq<char>| keys_below(vals, prefix, keys, keys.len() as int).contains(p)
        implies diff_below(vals, prefix).contains(p) by {
        let s = choose|s: int| 0 <= s < keys.len() && #[trigger] diff_below(
            children(vals, Step::Key(keys[s]@)), prefix + "/"@ + pointer_escape(keys[s]@)).contains(p);
        let k = keys[s]@;
        let st = Step::Key(k);
        let rest = choose|rest: Seq<Step>| diverges_at(children(vals, st), rest)
            && p == prefix + "/"@ + pointer_escape(k) + render(rest);
        let steps = seq![st] + rest;
        assert(steps[0] == st);
        assert(steps.drop_first() =~= rest);
        assert(diverges_at(vals, steps));
        assert(render(steps) == "/"@ + pointer_escape(k) + render(rest));
        assert(p =~= prefix + render(steps));
    }
    assert forall|p: Seq<char>| diff_below(vals, prefix).contains(p)
        implies keys_below(vals, prefix, keys, keys.len() as int).contains(p) by {
        let steps = choose|steps: Seq<Step>| diverges_at(vals, steps) && p == prefix + render(steps);
        let k = steps[0]->Key_0;
        let rest = steps.drop_first();
        assert(some_has_key(vals, k));
        let s = choose|s: int| 0 <= s < keys.len() && (#[trigger] keys[s])@ == k;
        assert(p =~= prefix + "/"@ + pointer_escape(k) + render(rest));
        assert(steps[0] == Step::Key(keys[s]@));
        assert(diverges_at(children(vals, Step::Key(keys[s]@)), rest));
        assert(diff_below(children(vals, Step::Key(keys[s]@)), prefix + "/"@ + pointer_escape(keys[s]@)).contains(p));
    }
    assert(keys_below(vals, prefix, keys, keys.len() as int) =~= diff_below(vals, prefix));
}

/// Arrays that differ differ inside one of their positions.
proof fn lemma_array_below(vals: Seq<JsonValue>, prefix: Seq<char>)
    requires
        !all_equal(vals),
        !all_objects(vals),
        all_arrays(vals),
    ensures
        indexes_below(vals, prefix, max_array_len(vals)) == diff_below(vals, prefix),
{
    let m = max_array_len(vals);
    assert forall|p: Seq<char>| indexes_below(vals, prefix, m).contains(p)
        implies diff_below(vals, prefix).contains(p) by {
        let i = choose|i: nat| i < m && #[trigger] diff_below(
            children(vals, Step::Index(i)), prefix + "/"@ + decimal(i)).contains(p);
        let st = Step::Index(i);
        let rest = choose|rest: Seq<Step>| diverges_at(children(vals, st), rest)
            && p == prefix + "/"@ + decimal(i) + render(rest);
        let steps = seq![st] + rest;
        assert(steps[0] == st);
        assert(steps.drop_first() =~= rest);
        assert(diverges_at(vals, steps));
        assert(p =~= prefix + render(steps));
    }
    assert forall|p: Seq<char>| diff_below(vals, prefix).contains(p)
        implies indexes_below(vals, prefix, m).contains(p) by {
        let steps = choose|steps: Seq<Step>| diverges_at(vals, steps) && p == prefix + render(steps);
        let i = steps[0]->Index_0;
        let rest = steps.drop_first();
        assert(steps[0] == Step::Index(i));
        assert(p =~= prefix + "/"@ + decimal(i) + render(rest));
        assert(diverges_at(children(vals, Step::Index(i)), rest));
        assert(diff_below(children(vals, Step::Index(i)), prefix + "/"@ + decimal(i)).contains(p));
    }
    assert(indexes_below(vals, prefix, m) =~= diff_below(vals, prefix));
}


/// Whether all the values equal the first.
fn all_same_refs(vals: &[&JsonValue]) -> (r: bool)
    ensures
        r == all_equal(derefs(vals@)),
{
    if vals.len() == 0 {
        return true;
    }
    let mut j: usize = 1;
    while j < vals.len()
        invariant
            1 <= j <= vals@.len(),
            forall|i: int| 0 < i < j ==> json_eq(#[trigger] derefs(vals@)[i], derefs(vals@)[0]),
        decreases vals.len() - j,
    {
        if !json_equal(vals[j], vals[0]) {
            assert(!json_eq(derefs(vals@)[j as int], derefs(vals@)[0]));
            return false;
        }
        j = j + 1;
    }
    true
}

fn all_objects_refs(vals: &[&JsonValue]) -> (r: bool)
    ensures
        r == all_objects(derefs(vals@)),
{
    let mut j: usize = 0;
    while j < vals.len()
        invariant
            j <= vals@.len(),
            forall|i: int| 0 <= i < j ==> (#[trigger] derefs(vals@)[i]) is Object,
        decreases vals.len() - j,
    {
        match vals[j] {
            JsonValue::Object(_) => {},
            _ => {
                assert(!(derefs(vals@)[j as int] is Object));
                return false;
            },
        }
        j = j + 1;
    }
    true
}

fn all_arrays_refs(vals: &[&JsonValue]) -> (r: bool)
    ensures
        r == all_arrays(derefs(vals@)),
{
    let mut j: usize = 0;
    while j < vals.len()
        invariant
            j <= vals@.len(),
            forall|i: int| 0 <= i < j ==> (#[trigger] derefs(vals@)[i]) is Array,
        decreases vals.len() - j,
    {
        match vals[j] {
            JsonValue::Array(_) => {},
            _ => {
                assert(!(derefs(vals@)[j as int] is Array));
                return false;
            },
        }
        j = j + 1;
    }
    true
}

/// The member of `v` under key `k`, where `v` is an object that has it.
fn member_ref<'a>(v: &'a JsonValue, k: &str) -> (r: Option<&'a JsonValue>)
    ensures
        match r {
            Some(x) => has_key(*v, k@) && *x == member(*v, k@) && decreases_to!(*v => *x),
            None => !has_key(*v, k@) && member(*v, k@) is Null,
        },
{
    match v {
        JsonValue::Object(ms) => {
            let mut i: usize = 0;
            while i < ms.len()
                invariant
                    i <= ms@.len(),
                    *v == JsonValue::Object(*ms),
                    forall|j: int| 0 <= j < i ==> !key_is(k@)(#[trigger] ms@[j]),
                decreases ms.len() - i,
            {
                if str_eq(ms[i].0.as_str(), k) {
                    proof {
                        lemma_first_pos(ms@, key_is(k@));
                        if first_pos(ms@, key_is(k@)) != Some(i as int) {
                            let q = first_pos(ms@, key_is(k@))->Some_0;
                            assert(q < i ==> !key_is(k@)(ms@[q]));
                        }
                        vstd::std_specs::vec::axiom_vec_index_decreases(*ms, i as int);
                        assert(decreases_to!(*v => v->Object_0));
                        assert(decreases_to!(ms@[i as int] => ms@[i as int].1));
                    }
                    return Some(&ms[i].1);
                }
                i = i + 1;
            }
            proof {
                lemma_first_pos(ms@, key_is(k@));
            }
            None
        },
        _ => None,
    }
}

/// The element of `v` at position `i`, where `v` is an array that has one.
fn element_ref<'a>(v: &'a JsonValue, i: usize) -> (r: Option<&'a JsonValue>)
    ensures
        match r {
            Some(x) => i < array_len(*v) && *x == element(*v, i as nat) && decreases_to!(*v => *x),
            None => i >= array_len(*v) && element(*v, i as nat) is Null,
        },
{
    match v {
        JsonValue::Array(xs) => {
            if i < xs.len() {
                proof {
                    vstd::std_specs::vec::axiom_vec_index_decreases(*xs, i as int);
                    assert(decreases_to!(*v => v->Array_0));
                }
                Some(&xs[i])
            } else {
                None
            }
        },
        _ => None,
    }
}

/// The values one key down, aligned with `vals` (`null` where absent).
fn members_of<'a>(vals: &[&'a JsonValue], k: &str, null: &'a JsonValue) -> (r: Vec<&'a JsonValue>)
    requires
        *null is Null,
    ensures
        derefs(r@) == children(derefs(vals@), Step::Key(k@)),
{
    let mut out: Vec<&'a JsonValue> = Vec::new();
    let mut j: usize = 0;
    while j < vals.len()
        invariant
            *null is Null,
            j <= vals@.len(),
            out@.len() == j,
            forall|i: int| 0 <= i < j ==> *(#[trigger] out@[i]) == member(*vals@[i], k@),
        decreases vals.len() - j,
    {
        match member_ref(vals[j], k) {
            Some(x) => out.push(x),
            None => out.push(null),
        }
        j = j + 1;
    }
    assert(derefs(out@) =~= children(derefs(vals@), Step::Key(k@)));
    out
}

/// The values one position down, aligned with `vals` (`null` where absent).
fn elements_of<'a>(vals: &[&'a JsonValue], i: usize, null: &'a JsonValue) -> (r: Vec<&'a JsonValue>)
    requires
        *null is Null,
    ensures
        derefs(r@) == children(derefs(vals@), Step::Index(i as nat)),
{
    let mut out: Vec<&'a JsonValue> = Vec::new();
    let mut j: usize = 0;
    while j < vals.len()
        invariant
            *null is Null,
            j <= vals@.len(),
            out@.len() == j,
            forall|t: int| 0 <= t < j ==> *(#[trigger] out@[t]) == element(*vals@[t], i as nat),
        decreases vals.len() - j,
    {
        match element_ref(vals[j], i) {
            Some(x) => out.push(x),
            None => out.push(null),
        }
        j = j + 1;
    }
    assert(derefs(out@) =~= children(derefs(vals@), Step::Index(i as nat)));
    out
}

/// The keys of the objects among `vals`, each once, in the order first met.
fn object_keys(vals: &[&JsonValue]) -> (keys: Vec<String>)
    ensures
        forall|s: int| 0 <= s < keys@.len() ==> some_has_key(derefs(vals@), #[trigger] keys@[s]@),
        forall|k: Seq<char>| some_has_key(derefs(vals@), k) ==> exists|s: int|
            0 <= s < keys@.len() && (#[trigger] keys@[s])@ == k,
{
    let ghost vs = derefs(vals@);
    let mut keys: Vec<String> = Vec::new();
    let mut j: usize = 0;
    while j < vals.len()
        invariant
            vs == derefs(vals@),
            j <= vals@.len(),
            forall|s: int| 0 <= s < keys@.len() ==> some_has_key(vs, #[trigger] keys@[s]@),
            forall|k: Seq<char>, t: int| 0 <= t < j && has_key(vs[t], k) ==> exists|s: int|
                0 <= s < keys@.len() && (#[trigger] keys@[s])@ == k,
        decreases vals.len() - j,
    {
        match vals[j] {
            JsonValue::Object(ms) => {
                let mut i: usize = 0;
                while i < ms.len()
                    invariant
                        vs == derefs(vals@),
                        j < vals@.len(),
                        vs[j as int] == JsonValue::Object(*ms),
                        i <= ms@.len(),
                        forall|s: int| 0 <= s < keys@.len() ==> some_has_key(vs, #[trigger] keys@[s]@),
                        forall|k: Seq<char>, t: int| 0 <= t < j && has_key(vs[t], k) ==> exists|s: int|
                            0 <= s < keys@.len() && (#[trigger] keys@[s])@ == k,
                        forall|q: int| 0 <= q < i ==> exists|s: int|
                            0 <= s < keys@.len() && (#[trigger] keys@[s])@ == (#[trigger] ms@[q]).0@,
                    decreases ms.len() - i,
                {
                    let k = ms[i].0.as_str();
                    let mut seen = false;
                    let mut s: usize = 0;
                    while s < keys.len()
                        invariant
                            s <= keys@.len(),
                            seen ==> exists|t: int| 0 <= t < keys@.len() && (#[trigger] keys@[t])@ == k@,
                        decreases keys.len() - s,
                    {
                        if str_eq(keys[s].as_str(), k) {
                            seen = true;
                        }
                        s = s + 1;
                    }
                    proof {
                        lemma_first_pos(ms@, key_is(k@));
                        assert(key_is(k@)(ms@[i as int]));
                        assert(has_key(vs[j as int], k@));
                        assert(some_has_key(vs, k@));
                    }
                    if !seen {
                        let ghost old_keys = keys@;
                        keys.push(String::from_str(k));
                        proof {
                            assert(keys@[old_keys.len() as int]@ == k@);
                            assert forall|s: int| 0 <= s < keys@.len() implies some_has_key(vs, #[trigger] keys@[s]@) by {
                                if s < old_keys.len() {
                                    assert(keys@[s] == old_keys[s]);
                                }
                            }
                            assert forall|kk: Seq<char>, t: int| 0 <= t < j && has_key(vs[t], kk) implies exists|s: int|
                                0 <= s < keys@.len() && (#[trigger] keys@[s])@ == kk by {
                                let s = choose|s: int| 0 <= s < old_keys.len() && (#[trigger] old_keys[s])@ == kk;
                                assert(keys@[s] == old_keys[s]);
                            }
                            assert forall|q: int| 0 <= q < i implies exists|s: int|
                                0 <= s < keys@.len() && (#[trigger] keys@[s])@ == (#[trigger] ms@[q]).0@ by {
                                let s = choose|s: int| 0 <= s < old_keys.len() && (#[trigger] old_keys[s])@ == ms@[q].0@;
                                assert(keys@[s] == old_keys[s]);
                            }
                        }
                    }
                    i = i + 1;
                }
                proof {
                    assert forall|k: Seq<char>, t: int| 0 <= t < j + 1 && has_key(vs[t], k) implies exists|s: int|
                        0 <= s < keys@.len() && (#[trigger] keys@[s])@ == k by {
                        if t == j {
                            lemma_first_pos(ms@, key_is(k));
                            let q = first_pos(ms@, key_is(k))->Some_0;
                            assert(ms@[q].0@ == k);
                        }
                    }
                }
            },
            _ => {},
        }
        j = j + 1;
    }
    keys
}

/// The greatest array length among the values.
fn max_array_len_refs(vals: &[&JsonValue]) -> (r: usize)
    ensures
        r == max_array_len(derefs(vals@)),
{
    let mut m: usize = 0;
    let mut j: usize = 0;
    while j < vals.len()
        invariant
            j <= vals@.len(),
            m == max_array_len(derefs(vals@).subrange(0, j as int)),
        decreases vals.len() - j,
    {
        let l: usize = match vals[j] {
            JsonValue::Array(xs) => xs.len(),
            _ => 0,
        };
        proof {
            let t = derefs(vals@).subrange(0, j as int + 1);
            assert(t.drop_last() =~= derefs(vals@).subrange(0, j as int));
            assert(t.last() == derefs(vals@)[j as int]);
        }
        if l > m {
            m = l;
        }
        j = j + 1;
    }
    assert(derefs(vals@).subrange(0, vals@.len() as int) =~= derefs(vals@));
    m
}


/// Marks `path` where the values, the first of which is no container, are
/// not all equal.
fn mark_unless_equal(path: &str, vals: &[&JsonValue], out: &mut Vec<String>)
    requires
        vals@.len() >= 1,
        !(*vals@[0] is Object),
        !(*vals@[0] is Array),
    ensures
        text_set(final(out)@) == text_set(old(out)@).union(diff_below(derefs(vals@), path@)),
{
    let ghost vs = derefs(vals@);
    if all_same_refs(vals) {
        proof {
            lemma_equal_below(vs, path@);
            assert(text_set(out@).union(Set::empty()) =~= text_set(out@));
        }
        return;
    }
    proof {
        lemma_leaf_below(vs, path@);
    }
    let ghost before = out@;
    let text = String::from_str(path);
    out.push(text);
    proof {
        lemma_text_set_push(before, text);
        assert(text_set(before).insert(path@) =~= text_set(before).union(Set::empty().insert(path@)));
    }
}

/// Adds to `out` the pointers, below `path`, of the smallest nodes where
/// the aligned values differ.
fn diff_recurse(path: &str, vals: &[&JsonValue], out: &mut Vec<String>)
    requires
        vals@.len() >= 1,
    ensures
        text_set(final(out)@) == text_set(old(out)@).union(diff_below(derefs(vals@), path@)),
    decreases *vals@[0],
{
    let ghost vs = derefs(vals@);
    let first: &JsonValue = vals[0];
    if all_same_refs(vals) {
        proof {
            lemma_equal_below(vs, path@);
            assert(text_set(out@).union(Set::empty()) =~= text_set(out@));
        }
        return;
    }
    let null = JsonValue::Null;
    if all_objects_refs(vals) {
        let keys = object_keys(vals);
        let mut t: usize = 0;
        while t < keys.len()
            invariant
                vs == derefs(vals@),
                vals@.len() >= 1,
                first == vals@[0],
                null is Null,
                t <= keys@.len(),
                text_set(out@) == text_set(old(out)@).union(keys_below(vs, path@, keys@, t as int)),
            decreases keys.len() - t,
        {
            let k = keys[t].as_str();
            let esc = json_pointer_escape(k);
            let mut child_path = String::from_str(path);
            child_path.append("/");
            child_path.append(esc.as_str());
            let child = members_of(vals, k, &null);
            assert(derefs(child@).len() == child@.len());
            assert(children(vs, Step::Key(k@)).len() == vs.len());
            let ghost before = out@;
            match member_ref(first, k) {
                Some(x) => {
                    assert(*child@[0] == derefs(child@)[0]);
                    diff_recurse(child_path.as_str(), child.as_slice(), out);
                },
                None => {
                    assert(*child@[0] == derefs(child@)[0]);
                    mark_unless_equal(child_path.as_str(), child.as_slice(), out);
                },
            }
            proof {
                let below = diff_below(children(vs, Step::Key(keys@[t as int]@)), path@ + "/"@ + pointer_escape(keys@[t as int]@));
                assert(child_path@ == path@ + "/"@ + pointer_escape(keys@[t as int]@));
                assert(text_set(out@) == text_set(before).union(below));
                assert(keys_below(vs, path@, keys@, t as int + 1) =~= keys_below(vs, path@, keys@, t as int).union(below)) by {
                    assert forall|p: Seq<char>| #[trigger] keys_below(vs, path@, keys@, t as int + 1).contains(p)
                        implies keys_below(vs, path@, keys@, t as int).union(below).contains(p) by {
                        let s = choose|s: int| 0 <= s < t + 1 && #[trigger] diff_below(
                            children(vs, Step::Key(keys@[s]@)), path@ + "/"@ + pointer_escape(keys@[s]@)).contains(p);
                        if s < t {
                            assert(keys_below(vs, path@, keys@, t as int).contains(p));
                        }
                    }
                    assert forall|p: Seq<char>| #[trigger] below.contains(p)
                        implies keys_below(vs, path@, keys@, t as int + 1).contains(p) by {
                        assert(diff_below(children(vs, Step::Key(keys@[t as int]@)), path@ + "/"@ + pointer_escape(keys@[t as int]@)).contains(p));
                    }
                    assert forall|p: Seq<char>| #[trigger] keys_below(vs, path@, keys@, t as int).contains(p)
                        implies keys_below(vs, path@, keys@, t as int + 1).contains(p) by {
                        let s = choose|s: int| 0 <= s < t && #[trigger] diff_below(
                            children(vs, Step::Key(keys@[s]@)), path@ + "/"@ + pointer_escape(keys@[s]@)).contains(p);
                        assert(diff_below(children(vs, Step::Key(keys@[s]@)), path@ + "/"@ + pointer_escape(keys@[s]@)).contains(p));
                    }
                }
                assert(text_set(out@) =~= text_set(old(out)@).union(keys_below(vs, path@, keys@, t as int + 1)));
            }
            t = t + 1;
        }
        proof {
            lemma_object_below(vs, path@, keys@);
        }
        return;
    }
    if all_arrays_refs(vals) {
        let m = max_array_len_refs(vals);
        let mut i: usize = 0;
        while i < m
            invariant
                vs == derefs(vals@),
                vals@.len() >= 1,
                first == vals@[0],
                null is Null,
                m == max_array_len(vs),
                i <= m,
                text_set(out@) == text_set(old(out)@).union(indexes_below(vs, path@, i as nat)),
            decreases m - i,
        {
            let mut child_path = String::from_str(path);
            child_path.append("/");
            push_decimal(&mut child_path, i as u64);
            let child = elements_of(vals, i, &null);
            assert(derefs(child@).len() == child@.len());
            assert(children(vs, Step::Index(i as nat)).len() == vs.len());
            let ghost before = out@;
            match element_ref(first, i) {
                Some(x) => {
                    assert(*child@[0] == derefs(child@)[0]);
                    diff_recurse(child_path.as_str(), child.as_slice(), out);
                },
                None => {
                    assert(*child@[0] == derefs(child@)[0]);
                    mark_unless_equal(child_path.as_str(), child.as_slice(), out);
                },
            }
            proof {
                let below = diff_below(children(vs, Step::Index(i as nat)), path@ + "/"@ + decimal(i as nat));
                assert(text_set(out@) == text_set(before).union(below));
                assert(indexes_below(vs, path@, i as nat + 1) =~= indexes_below(vs, path@, i as nat).union(below)) by {
                    assert forall|p: Seq<char>| #[trigger] indexes_below(vs, path@, i as nat + 1).contains(p)
                        implies indexes_below(vs, path@, i as nat).union(below).contains(p) by {
                        let q = choose|q: nat| q < i + 1 && #[trigger] diff_below(
                            children(vs, Step::Index(q)), path@ + "/"@ + decimal(q)).contains(p);
                        if q < i {
                            assert(indexes_below(vs, path@, i as nat).contains(p));
                        }
                    }
                    assert forall|p: Seq<char>| #[trigger] below.contains(p)
                        implies indexes_below(vs, path@, i as nat + 1).contains(p) by {
                        assert(diff_below(children(vs, Step::Index(i as nat)), path@ + "/"@ + decimal(i as nat)).contains(p));
                    }
                    assert forall|p: Seq<char>| #[trigger] indexes_below(vs, path@, i as nat).contains(p)
                        implies indexes_below(vs, path@, i as nat + 1).contains(p) by {
                        let q = choose|q: nat| q < i && #[trigger] diff_below(
                            children(vs, Step::Index(q)), path@ + "/"@ + decimal(q)).contains(p);
                        assert(diff_below(children(vs, Step::Index(q)), path@ + "/"@ + decimal(q)).contains(p));
                    }
                }
                assert(text_set(out@) =~= text_set(old(out)@).union(indexes_below(vs, path@, i as nat + 1)));
            }
            i = i + 1;
        }
        proof {
            lemma_array_below(vs, path@);
        }
        return;
    }
    proof {
        assert(!all_objects(vs));
        assert(!all_arrays(vs));
        let e = Seq::<Step>::empty();
        assert(diverges_at(vs, e));
        assert(path@ + render(e) =~= path@);
        assert forall|p: Seq<char>| diff_below(vs, path@).contains(p) implies p == path@ by {
            let steps = choose|steps: Seq<Step>| diverges_at(vs, steps) && p == path@ + render(steps);
            assert(steps =~= e);
        }
        assert(diff_below(vs, path@) =~= Set::empty().insert(path@));
    }
    let ghost before = out@;
    let text = String::from_str(path);
    out.push(text);
    proof {
        lemma_text_set_push(before, text);
        assert(text_set(before).insert(path@) =~= text_set(before).union(Set::empty().insert(path@)));
    }
}

/// The JSON pointers of the smallest nodes at which the aligned values
/// (given by reference) differ; with fewer than two there are none.
pub fn json_diff_paths_of(values: &[&JsonValue]) -> (r: Vec<String>)
    ensures
        text_set(r@) == diff_paths(derefs(values@)),
{
    let mut out: Vec<String> = Vec::new();
    proof {
        assert(text_set(out@) =~= Set::<Seq<char>>::empty());
    }
    if values.len() < 2 {
        return out;
    }
    diff_recurse("", values, &mut out);
    proof {
        reveal_strlit("");
        assert(text_set(out@) =~= diff_paths(derefs(values@)));
    }
    out
}

/// The JSON pointers of the smallest nodes at which the aligned values
/// differ; with fewer than two values there are none.
pub fn json_diff_paths(values: &[JsonValue]) -> (r: Vec<String>)
    ensures
        text_set(r@) == diff_paths(values@),
{
    let mut refs: Vec<&JsonValue> = Vec::new();
    let mut j: usize = 0;
    while j < values.len()
        invariant
            j <= values@.len(),
            refs@.len() == j,
            forall|i: int| 0 <= i < j ==> *(#[trigger] refs@[i]) == values@[i],
        decreases values.len() - j,
    {
        refs.push(&values[j]);
        j = j + 1;
    }
    assert(derefs(refs@) =~= values@);
    json_diff_paths_of(refs.as_slice())
}


/// The hexadecimal digit of `d` (`0 <= d < 16`), in lower case.
pub open spec fn hex_digit(d: int) -> char {
    if d < 10 {
        ((d + 48) as u32) as char
    } else {
        ((d + 87) as u32) as char
    }
}

/// How a JSON string writes one character: `"` and `\` behind a backslash,
/// the control characters with a short escape where JSON has one and as
/// `\u00XX` otherwise, any other character as it is.
pub open spec fn json_char_escape(c: char) -> Seq<char> {
    let u = c as u32;
    if c == '"' {
        seq!['\\', '"']
    } else if c == '\\' {
        seq!['\\', '\\']
    } else if u == 0x08 {
        seq!['\\', 'b']
    } else if u == 0x09 {
        seq!['\\', 't']
    } else if u == 0x0A {
        seq!['\\', 'n']
    } else if u == 0x0C {
        seq!['\\', 'f']
    } else if u == 0x0D {
        seq!['\\', 'r']
    } else if u < 0x20 {
        seq!['\\', 'u', '0', '0', hex_digit((u / 16) as int), hex_digit((u % 16) as int)]
    } else {
        seq![c]
    }
}

/// The escaped characters of a JSON string, without the quotes.
pub open spec fn json_escaped(s: Seq<char>) -> Seq<char>
    decreases s.len(),
{
    if s.len() == 0 {
        Seq::<char>::empty()
    } else {
        json_escaped(s.drop_last()) + json_char_escape(s.last())
    }
}

/// `s` written as a JSON string.
pub open spec fn json_quoted(s: Seq<char>) -> Seq<char> {
    seq!['"'] + json_escaped(s) + seq!['"']
}

#[verifier::external_type_specification]
#[verifier::external_body]
pub struct ExSerdeJsonError(serde_json::Error);

/// Writes `s` as a JSON string with `serde_json::to_string`.
///
/// Trusted: serde_json writes a `str` between double quotes and escapes
/// each character through its `ESCAPE` table (ser.rs, `format_escaped_str`
/// and `write_char_escape`), which `json_char_escape` states; serializing a
/// `str` into its in-memory buffer has no failing path, so the result is
/// `Ok`.
#[verifier::external_body]
fn quote_json_string(s: &str) -> (r: Result<String, serde_json::Error>)
    ensures
        r is Ok,
        r->Ok_0@ == json_quoted(s@),
{
    serde_json::to_string(s)
}

/// Whether `v` is an object or array with members (printed over several
/// lines).
pub open spec fn is_open(v: JsonValue) -> bool {
    match v {
        JsonValue::Object(ms) => ms@.len() > 0,
        JsonValue::Array(xs) => xs@.len() > 0,
        _ => false,
    }
}

/// The one-line JSON text of a scalar or an empty container.
pub open spec fn scalar_text(v: JsonValue) -> Seq<char> {
    match v {
        JsonValue::Null => "null"@,
        JsonValue::Bool(b) => if b { "true"@ } else { "false"@ },
        JsonValue::Number(t) => t@,
        JsonValue::Str(s) => json_quoted(s@),
        JsonValue::Array(_) => "[]"@,
        JsonValue::Object(_) => "{}"@,
    }
}

/// The JSON text of a value printed on one line: a scalar or an empty
/// container.
fn json_scalar_repr(value: &JsonValue) -> (r: String)
    requires
        !is_open(*value),
    ensures
        r@ == scalar_text(*value),
{
    match value {
        JsonValue::Null => String::from_str("null"),
        JsonValue::Bool(b) => if *b { String::from_str("true") } else { String::from_str("false") },
        JsonValue::Number(t) => t.clone(),
        JsonValue::Str(s) => match quote_json_string(s.as_str()) {
            Ok(t) => t,
            Err(_) => String::from_str("null"),
        },
        JsonValue::Array(_) => String::from_str("[]"),
        JsonValue::Object(_) => String::from_str("{}"),
    }
}


/// `n` spaces.
pub open spec fn spaces(n: nat) -> Seq<char> {
    Seq::new(n, |i: int| ' ')
}

/// The separator after an entry: none after the last one.
pub open spec fn comma(last: bool) -> Seq<char> {
    if last { Seq::<char>::empty() } else { ","@ }
}

/// The lines of the member `key: v` of an object, at pointer `path`,
/// indented by `indent`; the first line is marked when `path` is one of
/// `diffs`. Every member but the last ends with a comma (a container
/// member on its closing line), as in standard pretty-printed JSON.
pub open spec fn member_lines(path: Seq<char>, key: Seq<char>, v: JsonValue, indent: nat, last: bool, diffs: Set<Seq<char>>) -> Seq<(Seq<char>, bool)>
    decreases v, 1nat, 0nat,
{
    let pad = spaces(indent);
    let marked = diffs.contains(path);
    match v {
        JsonValue::Object(ms) => if ms@.len() > 0 {
            seq![(pad + "\""@ + key + "\": {"@, marked)]
                + object_lines(path, v, indent + 2, diffs, ms@.len())
                + seq![(pad + "}"@ + comma(last), false)]
        } else {
            seq![(pad + "\""@ + key + "\": "@ + scalar_text(v) + comma(last), marked)]
        },
        JsonValue::Array(xs) => if xs@.len() > 0 {
            seq![(pad + "\""@ + key + "\": ["@, marked)]
                + array_lines(path, v, indent + 2, diffs, xs@.len())
                + seq![(pad + "]"@ + comma(last), false)]
        } else {
            seq![(pad + "\""@ + key + "\": "@ + scalar_text(v) + comma(last), marked)]
        },
        _ => seq![(pad + "\""@ + key + "\": "@ + scalar_text(v) + comma(last), marked)],
    }
}

/// The lines of the element `v` of an array, at pointer `path`, indented by
/// `indent`; the first line is marked when `path` is one of `diffs`.
pub open spec fn element_lines(path: Seq<char>, v: JsonValue, indent: nat, last: bool, diffs: Set<Seq<char>>) -> Seq<(Seq<char>, bool)>
    decreases v, 1nat, 0nat,
{
    let pad = spaces(indent);
    let marked = diffs.contains(path);
    match v {
        JsonValue::Object(ms) => if ms@.len() > 0 {
            seq![(pad + "{"@, marked)]
                + object_lines(path, v, indent + 2, diffs, ms@.len())
                + seq![(pad + "}"@ + comma(last), false)]
        } else {
            seq![(pad + scalar_text(v) + comma(last), marked)]
        },
        JsonValue::Array(xs) => if xs@.len() > 0 {
            seq![(pad + "["@, marked)]
                + array_lines(path, v, indent + 2, diffs, xs@.len())
                + seq![(pad + "]"@ + comma(last), false)]
        } else {
            seq![(pad + scalar_text(v) + comma(last), marked)]
        },
        _ => seq![(pad + scalar_text(v) + comma(last), marked)],
    }
}

/// The lines of the first `n` members of the object `owner` at pointer
/// `parent`.
pub open spec fn object_lines(parent: Seq<char>, owner: JsonValue, indent: nat, diffs: Set<Seq<char>>, n: nat) -> Seq<(Seq<char>, bool)>
    decreases owner, 0nat, n,
{
    match owner {
        JsonValue::Object(ms) => if n == 0 || n > ms@.len() {
            Seq::empty()
        } else {
            let e = ms@[n - 1];
            object_lines(parent, owner, indent, diffs, (n - 1) as nat)
                + member_lines(parent + "/"@ + pointer_escape(e.0@), e.0@, e.1, indent, n == ms@.len(), diffs)
        },
        _ => Seq::empty(),
    }
}

/// The lines of the first `n` elements of the array `owner` at pointer
/// `parent`.
pub open spec fn array_lines(parent: Seq<char>, owner: JsonValue, indent: nat, diffs: Set<Seq<char>>, n: nat) -> Seq<(Seq<char>, bool)>
    decreases owner, 0nat, n,
{
    match owner {
        JsonValue::Array(xs) => if n == 0 || n > xs@.len() {
            Seq::empty()
        } else {
            array_lines(parent, owner, indent, diffs, (n - 1) as nat)
                + element_lines(parent + "/"@ + decimal((n - 1) as nat), xs@[n - 1], indent, n == xs@.len(), diffs)
        },
        _ => Seq::empty(),
    }
}

/// The pretty-printed lines of `v` (two spaces per level), each with
/// whether it opens a node whose pointer is one of `diffs`.
pub open spec fn pretty_lines(v: JsonValue, diffs: Set<Seq<char>>) -> Seq<(Seq<char>, bool)> {
    match v {
        JsonValue::Object(ms) => if ms@.len() > 0 {
            seq![("{"@, false)] + object_lines(Seq::empty(), v, 2, diffs, ms@.len()) + seq![("}"@, false)]
        } else {
            seq![(scalar_text(v), false)]
        },
        JsonValue::Array(xs) => if xs@.len() > 0 {
            seq![("["@, false)] + array_lines(Seq::empty(), v, 2, diffs, xs@.len()) + seq![("]"@, false)]
        } else {
            seq![(scalar_text(v), false)]
        },
        _ => seq![(scalar_text(v), false)],
    }
}

/// The texts and marks of printed lines.
pub open spec fn line_views(v: Seq<(String, bool)>) -> Seq<(Seq<char>, bool)> {
    v.map_values(|l: (String, bool)| (l.0@, l.1))
}


/// Whether `p` is one of the texts of `set`.
fn contains_text(set: &[String], p: &str) -> (r: bool)
    ensures
        r == text_set(set@).contains(p@),
{
    let mut i: usize = 0;
    while i < set.len()
        invariant
            i <= set@.len(),
            forall|j: int| 0 <= j < i ==> (#[trigger] set@[j])@ != p@,
        decreases set.len() - i,
    {
        if str_eq(set[i].as_str(), p) {
            assert(set@[i as int]@ == p@);
            return true;
        }
        i = i + 1;
    }
    false
}

/// Adds one line.
fn push_line(lines: &mut Vec<(String, bool)>, text: String, marked: bool)
    ensures
        line_views(final(lines)@) == line_views(old(lines)@).push((text@, marked)),
{
    lines.push((text, marked));
    assert(line_views(lines@) =~= line_views(old(lines)@).push((text@, marked)));
}

/// `pad` with two more spaces.
fn deeper(pad: &str) -> (r: String)
    requires
        pad@ == spaces(pad@.len()),
    ensures
        r@ == spaces(pad@.len() + 2),
        r@.len() == pad@.len() + 2,
{
    let mut r = String::from_str(pad);
    r.append("  ");
    proof {
        reveal_strlit("  ");
    }
    assert(r@ =~= spaces(pad@.len() + 2));
    r
}

/// The texts `a`, `b` and `c` joined.
fn joined3(a: &str, b: &str, c: &str) -> (r: String)
    ensures
        r@ == a@ + b@ + c@,
{
    let mut r = String::from_str(a);
    r.append(b);
    r.append(c);
    r
}

/// Emits the lines of the members of the object `owner`.
fn emit_object_body(parent_path: &str, owner: &JsonValue, pad: &str, diffs: &[String], lines: &mut Vec<(String, bool)>)
    requires
        owner is Object,
        pad@ == spaces(pad@.len()),
    ensures
        line_views(final(lines)@) == line_views(old(lines)@)
            + object_lines(parent_path@, *owner, pad@.len(), text_set(diffs@), owner->Object_0@.len()),
    decreases *owner, 0nat,
{
    match owner {
        JsonValue::Object(ms) => {
            let mut i: usize = 0;
            while i < ms.len()
                invariant
                    *owner == JsonValue::Object(*ms),
                    pad@ == spaces(pad@.len()),
                    i <= ms@.len(),
                    line_views(lines@) == line_views(old(lines)@)
                        + object_lines(parent_path@, *owner, pad@.len(), text_set(diffs@), i as nat),
                decreases ms.len() - i,
            {
                let key = ms[i].0.as_str();
                let esc = json_pointer_escape(key);
                let child_path = joined3(parent_path, "/", esc.as_str());
                proof {
                    vstd::std_specs::vec::axiom_vec_index_decreases(*ms, i as int);
                    assert(decreases_to!(*owner => owner->Object_0));
                    assert(decreases_to!(ms@[i as int] => ms@[i as int].1));
                }
                let ghost before = line_views(lines@);
                emit_key_value(child_path.as_str(), key, &ms[i].1, pad, i + 1 == ms.len(), diffs, lines);
                assert(line_views(lines@) =~= line_views(old(lines)@)
                    + object_lines(parent_path@, *owner, pad@.len(), text_set(diffs@), i as nat + 1));
                i = i + 1;
            }
        },
        _ => {},
    }
}

/// Emits the lines of the elements of the array `owner`.
fn emit_array_body(parent_path: &str, owner: &JsonValue, pad: &str, diffs: &[String], lines: &mut Vec<(String, bool)>)
    requires
        owner is Array,
        pad@ == spaces(pad@.len()),
    ensures
        line_views(final(lines)@) == line_views(old(lines)@)
            + array_lines(parent_path@, *owner, pad@.len(), text_set(diffs@), owner->Array_0@.len()),
    decreases *owner, 0nat,
{
    match owner {
        JsonValue::Array(xs) => {
            let mut i: usize = 0;
            while i < xs.len()
                invariant
                    *owner == JsonValue::Array(*xs),
                    pad@ == spaces(pad@.len()),
                    i <= xs@.len(),
                    line_views(lines@) == line_views(old(lines)@)
                        + array_lines(parent_path@, *owner, pad@.len(), text_set(diffs@), i as nat),
                decreases xs.len() - i,
            {
                let mut child_path = String::from_str(parent_path);
                child_path.append("/");
                push_decimal(&mut child_path, i as u64);
                proof {
                    vstd::std_specs::vec::axiom_vec_index_decreases(*xs, i as int);
                    assert(decreases_to!(*owner => owner->Array_0));
                }
                emit_array_element(child_path.as_str(), &xs[i], pad, i + 1 == xs.len(), diffs, lines);
                assert(line_views(lines@) =~= line_views(old(lines)@)
                    + array_lines(parent_path@, *owner, pad@.len(), text_set(diffs@), i as nat + 1));
                i = i + 1;
            }
        },
        _ => {},
    }
}

/// Emits the lines of the object member `key: value` at `path`.
fn emit_key_value(path: &str, key: &str, value: &JsonValue, pad: &str, last: bool, diffs: &[String], lines: &mut Vec<(String, bool)>)
    requires
        pad@ == spaces(pad@.len()),
    ensures
        line_views(final(lines)@) == line_views(old(lines)@)
            + member_lines(path@, key@, *value, pad@.len(), last, text_set(diffs@)),
    decreases *value, 1nat,
{
    let marked = contains_text(diffs, path);
    let mut head = joined3(pad, "\"", key);
    let end = if last { "" } else { "," };
    proof {
        reveal_strlit("\"");
        reveal_strlit("\": {");
        reveal_strlit("\": [");
        reveal_strlit("\": ");
        reveal_strlit("}");
        reveal_strlit("]");
        reveal_strlit(",");
        reveal_strlit("");
    }
    match value {
        JsonValue::Object(ms) if ms.len() > 0 => {
            head.append("\": {");
            push_line(lines, head, marked);
            let inner = deeper(pad);
            emit_object_body(path, value, inner.as_str(), diffs, lines);
            let tail = joined3(pad, "}", end);
            push_line(lines, tail, false);
        },
        JsonValue::Array(xs) if xs.len() > 0 => {
            head.append("\": [");
            push_line(lines, head, marked);
            let inner = deeper(pad);
            emit_array_body(path, value, inner.as_str(), diffs, lines);
            let tail = joined3(pad, "]", end);
            push_line(lines, tail, false);
        },
        _ => {
            head.append("\": ");
            let repr = json_scalar_repr(value);
            head.append(repr.as_str());
            if !last {
                head.append(",");
            }
            push_line(lines, head, marked);
        },
    }
    assert(line_views(lines@) =~= line_views(old(lines)@)
        + member_lines(path@, key@, *value, pad@.len(), last, text_set(diffs@)));
}


/// Emits the lines of the array element `value` at `path`.
fn emit_array_element(path: &str, value: &JsonValue, pad: &str, last: bool, diffs: &[String], lines: &mut Vec<(String, bool)>)
    requires
        pad@ == spaces(pad@.len()),
    ensures
        line_views(final(lines)@) == line_views(old(lines)@)
            + element_lines(path@, *value, pad@.len(), last, text_set(diffs@)),
    decreases *value, 1nat,
{
    let marked = contains_text(diffs, path);
    proof {
        reveal_strlit("{");
        reveal_strlit("[");
        reveal_strlit("}");
        reveal_strlit("]");
        reveal_strlit(",");
        reveal_strlit("");
    }
    let end = if last { "" } else { "," };
    match value {
        JsonValue::Object(ms) if ms.len() > 0 => {
            push_line(lines, joined3(pad, "{", ""), marked);
            let inner = deeper(pad);
            emit_object_body(path, value, inner.as_str(), diffs, lines);
            push_line(lines, joined3(pad, "}", end), false);
        },
        JsonValue::Array(xs) if xs.len() > 0 => {
            push_line(lines, joined3(pad, "[", ""), marked);
            let inner = deeper(pad);
            emit_array_body(path, value, inner.as_str(), diffs, lines);
            push_line(lines, joined3(pad, "]", end), false);
        },
        _ => {
            let repr = json_scalar_repr(value);
            push_line(lines, joined3(pad, repr.as_str(), end), marked);
        },
    }
    assert(line_views(lines@) =~= line_views(old(lines)@)
        + element_lines(path@, *value, pad@.len(), last, text_set(diffs@)));
}

/// The pretty-printed lines of `value` (two spaces per level), each with
/// whether it opens a node whose JSON pointer is one of `diff_paths`.
pub fn pretty_json_lines(value: &JsonValue, diff_paths: &[String]) -> (r: Vec<(String, bool)>)
    ensures
        line_views(r@) == pretty_lines(*value, text_set(diff_paths@)),
{
    let mut lines: Vec<(String, bool)> = Vec::new();
    proof {
        reveal_strlit("{");
        reveal_strlit("[");
        reveal_strlit("}");
        reveal_strlit("]");
        reveal_strlit("  ");
        reveal_strlit("");
    }
    assert("  "@ =~= spaces(2));
    assert(""@ =~= Seq::<char>::empty());
    assert("  "@.len() == 2);
    match value {
        JsonValue::Object(ms) if ms.len() > 0 => {
            push_line(&mut lines, String::from_str("{"), false);
            emit_object_body("", value, "  ", diff_paths, &mut lines);
            push_line(&mut lines, String::from_str("}"), false);
        },
        JsonValue::Array(xs) if xs.len() > 0 => {
            push_line(&mut lines, String::from_str("["), false);
            emit_array_body("", value, "  ", diff_paths, &mut lines);
            push_line(&mut lines, String::from_str("]"), false);
        },
        _ => {
            push_line(&mut lines, json_scalar_repr(value), false);
        },
    }
    assert(line_views(lines@) =~= pretty_lines(*value, text_set(diff_paths@)));
    lines
}


/// Values that are all equal differ nowhere; fewer than two values differ
/// nowhere either.
pub proof fn lemma_equal_values_differ_nowhere(vals: Seq<JsonValue>)
    requires
        all_equal(vals) || vals.len() < 2,
    ensures
        diff_paths(vals) == Set::<Seq<char>>::empty(),
{
    if vals.len() >= 2 {
        lemma_equal_below(vals, Seq::empty());
    }
}

/// Only the smallest differing nodes are marked: no node below a marked
/// node is marked as well.
pub proof fn lemma_diff_nodes_are_minimal(vals: Seq<JsonValue>, a: Seq<Step>, b: Seq<Step>)
    requires
        diverges_at(vals, a),
        diverges_at(vals, a + b),
    ensures
        b.len() == 0,
    decreases a.len(),
{
    if a.len() == 0 {
        assert(a + b =~= b);
    } else {
        let ab = a + b;
        assert(ab[0] == a[0]);
        assert(ab.drop_first() =~= a.drop_first() + b);
        lemma_diff_nodes_are_minimal(children(vals, a[0]), a.drop_first(), b);
    }
}

/// Whether a member of plain data has key `k`.
pub open spec fn model_key_is(k: Seq<char>) -> spec_fn((Seq<char>, JsonModel)) -> bool {
    |e: (Seq<char>, JsonModel)| e.0 == k
}

/// The member of plain JSON data under a key (the first one), where it is an
/// object that has it.
pub open spec fn model_get(m: JsonModel, k: Seq<char>) -> Option<JsonModel> {
    match m {
        JsonModel::Object(ms) => match first_pos(ms, model_key_is(k)) {
            Some(i) => Some(ms[i].1),
            None => None,
        },
        _ => None,
    }
}

/// The plain data of an optional JSON value.
pub open spec fn json_option_view(o: Option<JsonValue>) -> Option<JsonModel> {
    match o {
        Some(v) => Some(json_view(v)),
        None => None,
    }
}

/// Looking a key up in a value and in its plain data agree.
pub proof fn lemma_get_view(v: JsonValue, k: Seq<char>)
    ensures
        model_get(json_view(v), k) == json_option_view(json_get_spec(v, k)),
{
    if let JsonValue::Object(ms) = v {
        lemma_object_view(ms);
        let mm = Seq::new(ms@.len(), |i: int| (ms@[i].0@, json_view(ms@[i].1)));
        assert(json_view(v) == JsonModel::Object(mm));
        lemma_first_pos(ms@, key_is(k));
        lemma_first_pos(mm, model_key_is(k));
        match first_pos(ms@, key_is(k)) {
            Some(i) => {
                assert forall|j: int| 0 <= j < i implies !model_key_is(k)(#[trigger] mm[j]) by {
                    assert(!key_is(k)(ms@[j]));
                }
                lemma_first_pos_at(mm, model_key_is(k), i);
            },
            None => {
                if let Some(q) = first_pos(mm, model_key_is(k)) {
                    assert(key_is(k)(ms@[q]));
                }
            },
        }
    }
}

/// The JSON data of a text, as `serde_json` parses it into a `Value`:
/// `None` where the text is no JSON.
pub uninterp spec fn parsed_json(text: Seq<char>) -> Option<JsonModel>;

/// `serde_json::Value`, carried through opaquely.
#[verifier::external_type_specification]
#[verifier::external_body]
pub struct ExSerdeJsonValue(serde_json::Value);

/// Parses a text as JSON with `serde_json::from_str::<serde_json::Value>`.
///
/// Trusted: the result is named `parsed_json` of the text; serde_json's
/// grammar is not restated here. The value is copied variant for variant
/// (numbers as the text serde_json writes for them, object members in the
/// order of serde_json's map).
#[verifier::external_body]
pub(crate) fn parse_json(text: &str) -> (r: Option<JsonValue>)
    ensures
        json_option_view(r) == parsed_json(text@),
{
    serde_json::from_str::<serde_json::Value>(text).ok().map(json_from_serde)
}

/// Copies a `serde_json::Value` into a `JsonValue`, variant for variant.
#[verifier::external_body]
fn json_from_serde(v: serde_json::Value) -> JsonValue {
    match v {
        serde_json::Value::Null => JsonValue::Null,
        serde_json::Value::Bool(b) => JsonValue::Bool(b),
        serde_json::Value::Number(n) => JsonValue::Number(n.to_string()),
        serde_json::Value::String(t) => JsonValue::Str(t),
        serde_json::Value::Array(xs) => JsonValue::Array(xs.into_iter().map(json_from_serde).collect()),
        serde_json::Value::Object(ms) => JsonValue::Object(ms.into_iter().map(|(k, x)| (k, json_from_serde(x))).collect()),
    }
}

/// The first line of an array element opens it, and is marked exactly when
/// the element's pointer is one of the differing ones, whatever the
/// element is (scalar, empty container or not).
pub proof fn lemma_element_opening_line(path: Seq<char>, v: JsonValue, indent: nat, last: bool, diffs: Set<Seq<char>>)
    ensures
        element_lines(path, v, indent, last, diffs).len() > 0,
        element_lines(path, v, indent, last, diffs)[0].1 == diffs.contains(path),
{
}

/// The first line of an object member opens it, and is marked exactly when
/// the member's pointer is one of the differing ones, whatever its value.
pub proof fn lemma_member_opening_line(path: Seq<char>, key: Seq<char>, v: JsonValue, indent: nat, last: bool, diffs: Set<Seq<char>>)
    ensures
        member_lines(path, key, v, indent, last, diffs).len() > 0,
        member_lines(path, key, v, indent, last, diffs)[0].1 == diffs.contains(path),
{
}

proof fn lemma_array_lines_hold_element(parent: Seq<char>, owner: JsonValue, indent: nat, diffs: Set<Seq<char>>, n: nat, k: nat)
    requires
        owner is Array,
        k < n <= owner->Array_0@.len(),
    ensures
        exists|j: int| 0 <= j < array_lines(parent, owner, indent, diffs, n).len()
            && #[trigger] array_lines(parent, owner, indent, diffs, n)[j]
                == element_lines(parent + "/"@ + decimal(k), owner->Array_0@[k as int], indent,
                    k + 1 == owner->Array_0@.len(), diffs)[0],
    decreases n,
{
    let xs = owner->Array_0;
    let before = array_lines(parent, owner, indent, diffs, (n - 1) as nat);
    let e = element_lines(parent + "/"@ + decimal((n - 1) as nat), xs@[n - 1], indent, n == xs@.len(), diffs);
    lemma_element_opening_line(parent + "/"@ + decimal((n - 1) as nat), xs@[n - 1], indent, n == xs@.len(), diffs);
    assert(array_lines(parent, owner, indent, diffs, n) == before + e);
    if k == n - 1 {
        assert((before + e)[before.len() as int] == e[0]);
    } else {
        lemma_array_lines_hold_element(parent, owner, indent, diffs, (n - 1) as nat, k);
        let j = choose|j: int| 0 <= j < before.len() && #[trigger] before[j]
            == element_lines(parent + "/"@ + decimal(k), xs@[k as int], indent, k + 1 == xs@.len(), diffs)[0];
        assert((before + e)[j] == before[j]);
    }
}

proof fn lemma_object_lines_hold_member(parent: Seq<char>, owner: JsonValue, indent: nat, diffs: Set<Seq<char>>, n: nat, k: nat)
    requires
        owner is Object,
        k < n <= owner->Object_0@.len(),
    ensures
        exists|j: int| 0 <= j < object_lines(parent, owner, indent, diffs, n).len()
            && #[trigger] object_lines(parent, owner, indent, diffs, n)[j]
                == member_lines(parent + "/"@ + pointer_escape(owner->Object_0@[k as int].0@),
                    owner->Object_0@[k as int].0@, owner->Object_0@[k as int].1, indent,
                    k + 1 == owner->Object_0@.len(), diffs)[0],
    decreases n,
{
    let ms = owner->Object_0;
    let m = ms@[n - 1];
    let before = object_lines(parent, owner, indent, diffs, (n - 1) as nat);
    let e = member_lines(parent + "/"@ + pointer_escape(m.0@), m.0@, m.1, indent, n == ms@.len(), diffs);
    lemma_member_opening_line(parent + "/"@ + pointer_escape(m.0@), m.0@, m.1, indent, n == ms@.len(), diffs);
    assert(object_lines(parent, owner, indent, diffs, n) == before + e);
    if k == n - 1 {
        assert((before + e)[before.len() as int] == e[0]);
    } else {
        lemma_object_lines_hold_member(parent, owner, indent, diffs, (n - 1) as nat, k);
        let mk = ms@[k as int];
        let j = choose|j: int| 0 <= j < before.len() && #[trigger] before[j]
            == member_lines(parent + "/"@ + pointer_escape(mk.0@), mk.0@, mk.1, indent, k + 1 == ms@.len(), diffs)[0];
        assert((before + e)[j] == before[j]);
    }
}

/// A differing element of an array is highlighted: when the pointer of
/// its `k`-th element is one of the differing ones, the printed array has
/// a marked line, the one that opens that element.
pub proof fn lemma_differing_element_is_marked(v: JsonValue, diffs: Set<Seq<char>>, k: nat)
    requires
        v is Array,
        k < v->Array_0@.len(),
        diffs.contains("/"@ + decimal(k)),
    ensures
        exists|j: int| 0 <= j < pretty_lines(v, diffs).len() && (#[trigger] pretty_lines(v, diffs)[j]).1,
{
    let xs = v->Array_0;
    let empty = Seq::<char>::empty();
    assert(empty + "/"@ + decimal(k) =~= "/"@ + decimal(k));
    lemma_array_lines_hold_element(empty, v, 2, diffs, xs@.len(), k);
    lemma_element_opening_line(empty + "/"@ + decimal(k), xs@[k as int], 2, k + 1 == xs@.len(), diffs);
    let a = array_lines(empty, v, 2, diffs, xs@.len());
    let j = choose|j: int| 0 <= j < a.len() && #[trigger] a[j]
        == element_lines(empty + "/"@ + decimal(k), xs@[k as int], 2, k + 1 == xs@.len(), diffs)[0];
    let all = seq![("["@, false)] + a + seq![("]"@, false)];
    assert(pretty_lines(v, diffs) == all);
    assert(all[j + 1] == a[j]);
}

/// A differing member of an object is highlighted: when the pointer of its
/// `k`-th member is one of the differing ones, the printed object has a
/// marked line, the one that opens that member.
pub proof fn lemma_differing_member_is_marked(v: JsonValue, diffs: Set<Seq<char>>, k: nat)
    requires
        v is Object,
        k < v->Object_0@.len(),
        diffs.contains("/"@ + pointer_escape(v->Object_0@[k as int].0@)),
    ensures
        exists|j: int| 0 <= j < pretty_lines(v, diffs).len() && (#[trigger] pretty_lines(v, diffs)[j]).1,
{
    let ms = v->Object_0;
    let mk = ms@[k as int];
    let empty = Seq::<char>::empty();
    assert(empty + "/"@ + pointer_escape(mk.0@) =~= "/"@ + pointer_escape(mk.0@));
    lemma_object_lines_hold_member(empty, v, 2, diffs, ms@.len(), k);
    lemma_member_opening_line(empty + "/"@ + pointer_escape(mk.0@), mk.0@, mk.1, 2, k + 1 == ms@.len(), diffs);
    let a = object_lines(empty, v, 2, diffs, ms@.len());
    let j = choose|j: int| 0 <= j < a.len() && #[trigger] a[j]
        == member_lines(empty + "/"@ + pointer_escape(mk.0@), mk.0@, mk.1, 2, k + 1 == ms@.len(), diffs)[0];
    let all = seq![("{"@, false)] + a + seq![("}"@, false)];
    assert(pretty_lines(v, diffs) == all);
    assert(all[j + 1] == a[j]);
}

} // verus!
verus! {

/// A JSON value as plain data.
#[verifier::ext_equal]
pub enum JsonModel {
    Null,
    Bool(bool),
    Number(Seq<char>),
    Str(Seq<char>),
    Array(Seq<JsonModel>),
    Object(Seq<(Seq<char>, JsonModel)>),
}

/// The plain data of a JSON value.
pub open spec fn json_view(v: JsonValue) -> JsonModel
    decreases v,
{
    match v {
        JsonValue::Null => JsonModel::Null,
        JsonValue::Bool(b) => JsonModel::Bool(b),
        JsonValue::Number(t) => JsonModel::Number(t@),
        JsonValue::Str(s) => JsonModel::Str(s@),
        JsonValue::Array(xs) => JsonModel::Array(Seq::new(xs@.len(), |i: int|
            if 0 <= i < xs@.len() { json_view(xs@[i]) } else { JsonModel::Null })),
        JsonValue::Object(ms) => JsonModel::Object(Seq::new(ms@.len(), |i: int|
            if 0 <= i < ms@.len() { (ms@[i].0@, json_view(ms@[i].1)) } else { (Seq::empty(), JsonModel::Null) })),
    }
}


/// The plain data of an array is that of its elements.
pub proof fn lemma_array_view(xs: Vec<JsonValue>)
    ensures
        json_view(JsonValue::Array(xs)) == JsonModel::Array(xs@.map_values(|v: JsonValue| json_view(v))),
{
    let a = json_view(JsonValue::Array(xs));
    assert(a is Array);
    assert(a->Array_0.len() == xs@.len());
    assert forall|i: int| 0 <= i < xs@.len() implies a->Array_0[i] == json_view(xs@[i]) by {}
    assert(a->Array_0 =~= xs@.map_values(|v: JsonValue| json_view(v)));
}

/// The plain data of an object is that of its members.
pub proof fn lemma_object_view(ms: Vec<(String, JsonValue)>)
    ensures
        json_view(JsonValue::Object(ms)) == JsonModel::Object(Seq::new(ms@.len(), |i: int| (ms@[i].0@, json_view(ms@[i].1)))),
{
    let a = json_view(JsonValue::Object(ms));
    assert(a is Object);
    assert(a->Object_0.len() == ms@.len());
    assert forall|i: int| 0 <= i < ms@.len() implies a->Object_0[i] == (ms@[i].0@, json_view(ms@[i].1)) by {}
    assert(a->Object_0 =~= Seq::new(ms@.len(), |i: int| (ms@[i].0@, json_view(ms@[i].1))));
}


/// A copy of a JSON value.
pub fn json_clone(v: &JsonValue) -> (r: JsonValue)
    ensures
        json_view(r) == json_view(*v),
    decreases *v,
{
    match v {
        JsonValue::Null => JsonValue::Null,
        JsonValue::Bool(b) => JsonValue::Bool(*b),
        JsonValue::Number(t) => JsonValue::Number(t.clone()),
        JsonValue::Str(s) => JsonValue::Str(s.clone()),
        JsonValue::Array(xs) => {
            let mut out: Vec<JsonValue> = Vec::new();
            let mut i: usize = 0;
            while i < xs.len()
                invariant
                    *v == JsonValue::Array(*xs),
                    i <= xs@.len(),
                    out@.map_values(|x: JsonValue| json_view(x)) == xs@.subrange(0, i as int).map_values(|x: JsonValue| json_view(x)),
                decreases xs.len() - i,
            {
                proof {
                    vstd::std_specs::vec::axiom_vec_index_decreases(*xs, i as int);
                    assert(decreases_to!(*v => v->Array_0));
                }
                let c = json_clone(&xs[i]);
                let ghost before = out@;
                out.push(c);
                proof {
                    assert(out@.map_values(|x: JsonValue| json_view(x)) =~= before.map_values(|x: JsonValue| json_view(x)).push(json_view(c)));
                    assert(xs@.subrange(0, i + 1).map_values(|x: JsonValue| json_view(x))
                        =~= xs@.subrange(0, i as int).map_values(|x: JsonValue| json_view(x)).push(json_view(xs@[i as int])));
                }
                i = i + 1;
            }
            assert(xs@.subrange(0, xs@.len() as int) =~= xs@);
            proof {
                lemma_array_view(out);
                lemma_array_view(*xs);
            }
            JsonValue::Array(out)
        },
        JsonValue::Object(ms) => {
            let mut out: Vec<(String, JsonValue)> = Vec::new();
            let mut i: usize = 0;
            while i < ms.len()
                invariant
                    *v == JsonValue::Object(*ms),
                    i <= ms@.len(),
                    out@.len() == i,
                    forall|j: int| 0 <= j < i ==> (#[trigger] out@[j]).0@ == ms@[j].0@ && json_view(out@[j].1) == json_view(ms@[j].1),
                decreases ms.len() - i,
            {
                proof {
                    vstd::std_specs::vec::axiom_vec_index_decreases(*ms, i as int);
                    assert(decreases_to!(*v => v->Object_0));
                    assert(decreases_to!(ms@[i as int] => ms@[i as int].1));
                }
                let c = json_clone(&ms[i].1);
                out.push((ms[i].0.clone(), c));
                i = i + 1;
            }
            proof {
                lemma_object_view(out);
                lemma_object_view(*ms);
                assert(Seq::new(out@.len(), |i: int| (out@[i].0@, json_view(out@[i].1)))
                    =~= Seq::new(ms@.len(), |i: int| (ms@[i].0@, json_view(ms@[i].1))));
            }
            JsonValue::Object(out)
        },
    }
}


/// The member of an object under a key, where `v` is an object that has it
/// (the first such member).
pub open spec fn json_get_spec(v: JsonValue, key: Seq<char>) -> Option<JsonValue> {
    if has_key(v, key) { Some(member(v, key)) } else { None }
}

/// The member of an object under a key (`serde_json::Value::get` with a
/// key): none for a value that is no object or lacks the key.
pub fn json_get<'a>(v: &'a JsonValue, key: &str) -> (r: Option<&'a JsonValue>)
    ensures
        match r {
            Some(x) => json_get_spec(*v, key@) == Some(*x),
            None => json_get_spec(*v, key@) is None,
        },
{
    member_ref(v, key)
}

}
