//! Keys that identify a detached history window by the records it shows.
//!
//! One record is keyed `rec:{id}`; several records `cmp:{id,id,...}` with the
//! ids in ascending order, so a group of records has one key whatever order it
//! was selected in.
use vstd::prelude::*;
use vstd::multiset::Multiset;
use crate::std_wrappers::push_char;
use crate::text::{lemma_first_index_at, 
    all_digits, is_digit, is_ws, lemma_decimal_digits, lemma_parse_decimal, lemma_split_join, trim_end_seq,
    trim_start_seq,
    chars_of, decimal, find_char, first_index_of, join_with, parse_u64, parse_u64_spec,
    push_decimal, split_chars, split_on, trim_seq, trimmed,
};

verus! {

/// `x` put into the ascending sequence `s` before the first element that is
/// not smaller.
pub open spec fn insert_sorted(s: Seq<u64>, x: u64) -> Seq<u64>
    decreases s.len(),
{
    if s.len() == 0 {
        seq![x]
    } else if x <= s[0] {
        seq![x] + s
    } else {
        seq![s[0]] + insert_sorted(s.drop_first(), x)
    }
}

/// The ids in ascending order (insertion sort).
pub open spec fn sort_ids(s: Seq<u64>) -> Seq<u64>
    decreases s.len(),
{
    if s.len() == 0 {
        s
    } else {
        insert_sorted(sort_ids(s.drop_last()), s.last())
    }
}

pub open spec fn is_sorted(s: Seq<u64>) -> bool {
    forall|i: int, j: int| 0 <= i <= j < s.len() ==> s[i] <= s[j]
}

/// The key text of an already ordered id list.
pub open spec fn key_text(ids: Seq<u64>) -> Seq<char> {
    if ids.len() == 1 {
        seq!['r', 'e', 'c', ':'] + decimal(ids[0] as nat)
    } else {
        seq!['c', 'm', 'p', ':'] + join_with(ids.map_values(|x: u64| decimal(x as nat)), ',')
    }
}

/// The key of the window that shows the records with these ids.
pub open spec fn window_key_spec(ids: Seq<u64>) -> Seq<char> {
    key_text(sort_ids(ids))
}

/// The ids that parse out of the pieces, in order; pieces that do not parse
/// (after trimming) are skipped.
pub open spec fn parse_pieces(ps: Seq<Seq<char>>) -> Seq<u64>
    decreases ps.len(),
{
    if ps.len() == 0 {
        Seq::<u64>::empty()
    } else {
        let r = parse_pieces(ps.drop_last());
        match parse_u64_spec(trim_seq(ps.last())) {
            Some(v) => r.push(v),
            None => r,
        }
    }
}

/// The record ids that a window key names: what follows the first `:`,
/// split at `,`, each piece trimmed and parsed; nothing without a `:`.
pub open spec fn key_ids_spec(key: Seq<char>) -> Seq<u64> {
    match first_index_of(key, ':') {
        Some(i) => parse_pieces(split_on(key.subrange(i + 1, key.len() as int), ',')),
        None => Seq::<u64>::empty(),
    }
}

proof fn lemma_insert_sorted_is_insert(s: Seq<u64>, x: u64, p: int)
    requires
        0 <= p <= s.len(),
        forall|j: int| 0 <= j < p ==> #[trigger] s[j] < x,
        p < s.len() ==> x <= s[p],
    ensures
        insert_sorted(s, x) == s.insert(p, x),
    decreases s.len(),
{
    if s.len() == 0 {
        assert(s.insert(p, x) =~= seq![x]);
    } else if x <= s[0] {
        assert(p == 0);
        assert(s.insert(0, x) =~= seq![x] + s);
    } else {
        assert(p > 0);
        let t = s.drop_first();
        assert forall|j: int| 0 <= j < p - 1 implies #[trigger] t[j] < x by {
            assert(t[j] == s[j + 1]);
        }
        lemma_insert_sorted_is_insert(t, x, p - 1);
        assert(seq![s[0]] + t.insert(p - 1, x) =~= s.insert(p, x));
    }
}

/// Insertion keeps a sequence sorted and adds exactly the new element.
pub proof fn lemma_insert_sorted(s: Seq<u64>, x: u64)
    requires
        is_sorted(s),
    ensures
        is_sorted(insert_sorted(s, x)),
        insert_sorted(s, x).to_multiset() == s.to_multiset().insert(x),
        insert_sorted(s, x).len() == s.len() + 1,
    decreases s.len(),
{
    broadcast use vstd::seq_lib::group_to_multiset_ensures;
    if s.len() == 0 {
        assert(seq![x] =~= Seq::<u64>::empty().push(x));
        assert(Seq::<u64>::empty().to_multiset() =~= Multiset::empty());
    } else if x <= s[0] {
        let r = seq![x] + s;
        assert forall|i: int, j: int| 0 <= i <= j < r.len() implies r[i] <= r[j] by {
            if i > 0 {
                assert(r[i] == s[i - 1]);
                assert(r[j] == s[j - 1]);
            } else if j > 0 {
                assert(r[j] == s[j - 1]);
            }
        }
        lemma_multiset_prepend(s, x);
    } else {
        let t = s.drop_first();
        assert(is_sorted(t)) by {
            assert forall|i: int, j: int| 0 <= i <= j < t.len() implies t[i] <= t[j] by {
                assert(t[i] == s[i + 1] && t[j] == s[j + 1]);
            }
        }
        lemma_insert_sorted(t, x);
        let it = insert_sorted(t, x);
        let r = seq![s[0]] + it;
        assert(it.to_multiset().contains(x)) by {
            assert(it.to_multiset() == t.to_multiset().insert(x));
        }
        assert forall|i: int, j: int| 0 <= i <= j < r.len() implies r[i] <= r[j] by {
            if i > 0 {
                assert(r[i] == it[i - 1]);
                assert(r[j] == it[j - 1]);
            } else if j > 0 {
                assert(r[j] == it[j - 1]);
                // every element of `it` is `x` or an element of `t`, all >= s[0]
                assert(it.to_multiset().count(it[j - 1]) > 0);
                let v = it[j - 1];
                assert(t.to_multiset().insert(x).count(v) > 0);
                if v != x {
                    assert(t.to_multiset().count(v) > 0);
                    assert(t.contains(v));
                    let k = choose|k: int| 0 <= k < t.len() && t[k] == v;
                    assert(s[k + 1] == v);
                }
            }
        }
        lemma_multiset_prepend(it, s[0]);
        lemma_multiset_prepend(t, s[0]);
        assert(seq![s[0]] + t =~= s);
    }
}

proof fn lemma_multiset_prepend(s: Seq<u64>, x: u64)
    ensures
        (seq![x] + s).to_multiset() == s.to_multiset().insert(x),
{
    broadcast use vstd::seq_lib::group_to_multiset_ensures;
    vstd::seq_lib::lemma_multiset_commutative(seq![x], s);
    assert(seq![x] =~= Seq::<u64>::empty().push(x));
    assert(Seq::<u64>::empty().to_multiset() =~= Multiset::empty());
    assert(seq![x].to_multiset() =~= Multiset::empty().insert(x));
    assert((seq![x] + s).to_multiset() =~= s.to_multiset().insert(x));
}

/// `sort_ids` gives an ascending permutation of its input.
pub proof fn lemma_sort_ids(s: Seq<u64>)
    ensures
        is_sorted(sort_ids(s)),
        sort_ids(s).to_multiset() == s.to_multiset(),
        sort_ids(s).len() == s.len(),
    decreases s.len(),
{
    broadcast use vstd::seq_lib::group_to_multiset_ensures;
    if s.len() == 0 {
    } else {
        lemma_sort_ids(s.drop_last());
        lemma_insert_sorted(sort_ids(s.drop_last()), s.last());
        assert(s.drop_last().push(s.last()) =~= s);
    }
}


/// `ids` in ascending order.
pub fn sorted_ids(ids: &[u64]) -> (r: Vec<u64>)
    ensures
        r@ == sort_ids(ids@),
{
    let mut v: Vec<u64> = Vec::new();
    let mut i: usize = 0;
    assert(ids@.subrange(0, 0) =~= Seq::<u64>::empty());
    while i < ids.len()
        invariant
            i <= ids.len(),
            v@ == sort_ids(ids@.subrange(0, i as int)),
        decreases ids.len() - i,
    {
        let x = ids[i];
        let mut p: usize = 0;
        while p < v.len() && v[p] < x
            invariant
                p <= v.len(),
                forall|j: int| 0 <= j < p ==> #[trigger] v@[j] < x,
            decreases v.len() - p,
        {
            p = p + 1;
        }
        proof {
            lemma_insert_sorted_is_insert(v@, x, p as int);
            let t = ids@.subrange(0, i + 1);
            assert(t.drop_last() =~= ids@.subrange(0, i as int));
            assert(t.last() == x);
        }
        v.insert(p, x);
        i = i + 1;
    }
    assert(ids@.subrange(0, ids.len() as int) =~= ids@);
    v
}

proof fn lemma_join_step(ids: Seq<u64>, i: int)
    requires
        0 < i < ids.len(),
    ensures
        join_with(ids.subrange(0, i + 1).map_values(|x: u64| decimal(x as nat)), ',')
            == join_with(ids.subrange(0, i).map_values(|x: u64| decimal(x as nat)), ',').push(',')
            + decimal(ids[i] as nat),
{
    let ps = ids.subrange(0, i + 1).map_values(|x: u64| decimal(x as nat));
    assert(ps.drop_last() =~= ids.subrange(0, i).map_values(|x: u64| decimal(x as nat)));
    assert(ps.last() == decimal(ids[i] as nat));
}

/// The key of the detached window that shows the records with these ids.
pub fn window_key_for_ids(ids: &[u64]) -> (r: String)
    ensures
        r@ == window_key_spec(ids@),
{
    let sorted = sorted_ids(ids);
    let mut out = String::new();
    if sorted.len() == 1 {
        push_char(&mut out, 'r');
        push_char(&mut out, 'e');
        push_char(&mut out, 'c');
        push_char(&mut out, ':');
        push_decimal(&mut out, sorted[0]);
        assert(out@ =~= key_text(sorted@));
        return out;
    }
    push_char(&mut out, 'c');
    push_char(&mut out, 'm');
    push_char(&mut out, 'p');
    push_char(&mut out, ':');
    let ghost head = out@;
    assert(head =~= seq!['c', 'm', 'p', ':']);
    let mut i: usize = 0;
    assert(sorted@.subrange(0, 0).map_values(|x: u64| decimal(x as nat)) =~= Seq::<Seq<char>>::empty());
    while i < sorted.len()
        invariant
            i <= sorted.len(),
            head =~= seq!['c', 'm', 'p', ':'],
            out@ == head + join_with(sorted@.subrange(0, i as int).map_values(|x: u64| decimal(x as nat)), ','),
        decreases sorted.len() - i,
    {
        if i > 0 {
            push_char(&mut out, ',');
            proof { lemma_join_step(sorted@, i as int); }
        } else {
            let ghost one = sorted@.subrange(0, 1).map_values(|x: u64| decimal(x as nat));
            assert(one.len() == 1);
            assert(one[0] == decimal(sorted@[0] as nat));
        }
        push_decimal(&mut out, sorted[i]);
        i = i + 1;
        assert(out@ =~= head + join_with(sorted@.subrange(0, i as int).map_values(|x: u64| decimal(x as nat)), ','));
    }
    assert(sorted@.subrange(0, sorted.len() as int) =~= sorted@);
    out
}

/// The record ids that a window key names.
pub fn window_key_ids(key: &str) -> (r: Vec<u64>)
    ensures
        r@ == key_ids_spec(key@),
{
    let chars = chars_of(key);
    let colon = find_char(chars.as_slice(), ':');
    let mut out: Vec<u64> = Vec::new();
    match colon {
        None => {
            assert(out@ =~= key_ids_spec(key@));
            out
        },
        Some(c) => {
            let mut rest: Vec<char> = Vec::new();
            let mut j: usize = c + 1;
            while j < chars.len()
                invariant
                    c < chars.len(),
                    c + 1 <= j <= chars.len(),
                    rest@ == chars@.subrange(c + 1, j as int),
                decreases chars.len() - j,
            {
                rest.push(chars[j]);
                j = j + 1;
                assert(rest@ =~= chars@.subrange(c + 1, j as int));
            }
            let pieces = split_chars(rest.as_slice(), ',');
            let ghost ps = split_on(rest@, ',');
            let mut k: usize = 0;
            assert(ps.subrange(0, 0) =~= Seq::<Seq<char>>::empty());
            while k < pieces.len()
                invariant
                    k <= pieces.len(),
                    pieces.len() == ps.len(),
                    forall|i: int| 0 <= i < pieces.len() ==> (#[trigger] pieces[i])@ == ps[i],
                    out@ == parse_pieces(ps.subrange(0, k as int)),
                decreases pieces.len() - k,
            {
                let t = trimmed(pieces[k].as_slice());
                let parsed = parse_u64(t.as_slice());
                proof {
                    let q = ps.subrange(0, k + 1);
                    assert(q.drop_last() =~= ps.subrange(0, k as int));
                    assert(q.last() == pieces[k as int]@);
                }
                match parsed {
                    Some(v) => { out.push(v); },
                    None => {},
                }
                k = k + 1;
            }
            assert(ps.subrange(0, ps.len() as int) =~= ps);
            out
        },
    }
}


proof fn lemma_digits_trim(d: Seq<char>)
    requires
        d.len() > 0,
        all_digits(d),
    ensures
        trim_seq(d) == d,
{
    assert(is_digit(d[0]));
    assert(!is_ws(d[0]));
    assert(trim_start_seq(d) == d);
    assert(is_digit(d[d.len() - 1]));
    assert(!is_ws(d.last()));
    assert(trim_end_seq(d) == d);
}

proof fn lemma_digits_no_comma(d: Seq<char>)
    requires
        all_digits(d),
    ensures
        !d.contains(','),
{
    if d.contains(',') {
        let k = choose|k: int| 0 <= k < d.len() && d[k] == ',';
        assert(is_digit(d[k]));
    }
}

proof fn lemma_parse_rendered(s: Seq<u64>)
    ensures
        parse_pieces(s.map_values(|x: u64| decimal(x as nat))) == s,
    decreases s.len(),
{
    let ps = s.map_values(|x: u64| decimal(x as nat));
    if s.len() > 0 {
        lemma_parse_rendered(s.drop_last());
        assert(ps.drop_last() =~= s.drop_last().map_values(|x: u64| decimal(x as nat)));
        assert(ps.last() == decimal(s.last() as nat));
        lemma_decimal_digits(s.last() as nat);
        lemma_digits_trim(decimal(s.last() as nat));
        lemma_parse_decimal(s.last());
        assert(s.drop_last().push(s.last()) =~= s);
    } else {
        assert(ps =~= Seq::<Seq<char>>::empty());
    }
}

/// Reading the ids back out of a key gives exactly the ids it was made of.
pub proof fn lemma_key_text_roundtrip(s: Seq<u64>)
    ensures
        key_ids_spec(key_text(s)) == s,
{
    let k = key_text(s);
    let head: Seq<char> = if s.len() == 1 { seq!['r', 'e', 'c', ':'] } else { seq!['c', 'm', 'p', ':'] };
    let body: Seq<char> = if s.len() == 1 {
        decimal(s[0] as nat)
    } else {
        join_with(s.map_values(|x: u64| decimal(x as nat)), ',')
    };
    assert(k == head + body);
    lemma_first_index_at(k, ':', 3);
    assert(k.subrange(4, k.len() as int) =~= body);
    if s.len() == 1 {
        let d = decimal(s[0] as nat);
        lemma_decimal_digits(s[0] as nat);
        lemma_digits_no_comma(d);
        lemma_split_join(seq![d], ',');
        assert(join_with(seq![d], ',') == d);
        assert(seq![d].drop_last() =~= Seq::<Seq<char>>::empty());
        lemma_digits_trim(d);
        lemma_parse_decimal(s[0]);
        assert(parse_pieces(Seq::<Seq<char>>::empty()) == Seq::<u64>::empty());
        assert(seq![d].last() == d);
        assert(parse_pieces(seq![d]) =~= seq![s[0]]);
        assert(seq![s[0]] =~= s);
    } else if s.len() == 0 {
        let ps = s.map_values(|x: u64| decimal(x as nat));
        assert(ps =~= Seq::<Seq<char>>::empty());
        assert(body =~= Seq::<char>::empty());
        let one = split_on(body, ',');
        assert(one =~= seq![Seq::<char>::empty()]);
        assert(one.drop_last() =~= Seq::<Seq<char>>::empty());
        assert(trim_seq(Seq::<char>::empty()) =~= Seq::<char>::empty());
        assert(parse_u64_spec(Seq::<char>::empty()) is None);
        assert(parse_pieces(Seq::<Seq<char>>::empty()) == Seq::<u64>::empty());
        assert(one.last() == Seq::<char>::empty());
        assert(parse_pieces(one) =~= s);
    } else {
        let ps = s.map_values(|x: u64| decimal(x as nat));
        assert forall|i: int| 0 <= i < ps.len() implies !(#[trigger] ps[i]).contains(',') by {
            lemma_decimal_digits(s[i] as nat);
            lemma_digits_no_comma(ps[i]);
        }
        lemma_split_join(ps, ',');
        lemma_parse_rendered(s);
    }
}

/// Reading the ids back out of the key of a group of records gives the
/// group's ids in ascending order.
pub proof fn lemma_window_key_roundtrip(ids: Seq<u64>)
    ensures
        key_ids_spec(window_key_spec(ids)) == sort_ids(ids),
{
    lemma_key_text_roundtrip(sort_ids(ids));
}


proof fn lemma_sorted_unique(a: Seq<u64>, b: Seq<u64>)
    requires
        is_sorted(a),
        is_sorted(b),
        a.to_multiset() == b.to_multiset(),
    ensures
        a == b,
    decreases a.len(),
{
    broadcast use vstd::seq_lib::group_to_multiset_ensures;
    assert(a.len() == a.to_multiset().len());
    assert(b.len() == b.to_multiset().len());
    if a.len() == 0 {
        assert(a =~= b);
    } else {
        assert(a.to_multiset().count(a[0]) > 0);
        assert(b.contains(a[0]));
        assert(b.to_multiset().count(b[0]) > 0);
        assert(a.contains(b[0]));
        let ka = choose|k: int| 0 <= k < a.len() && a[k] == b[0];
        let kb = choose|k: int| 0 <= k < b.len() && b[k] == a[0];
        assert(a[0] <= a[ka]);
        assert(b[0] <= b[kb]);
        assert(a[0] == b[0]);
        let ta = a.drop_first();
        let tb = b.drop_first();
        lemma_multiset_prepend(ta, a[0]);
        lemma_multiset_prepend(tb, b[0]);
        assert(seq![a[0]] + ta =~= a);
        assert(seq![b[0]] + tb =~= b);
        assert(ta.to_multiset() =~= tb.to_multiset()) by {
            assert forall|v: u64| ta.to_multiset().count(v) == tb.to_multiset().count(v) by {
                assert(ta.to_multiset().insert(a[0]).count(v) == tb.to_multiset().insert(a[0]).count(v));
            }
        }
        assert(is_sorted(ta)) by {
            assert forall|i: int, j: int| 0 <= i <= j < ta.len() implies ta[i] <= ta[j] by {
                assert(ta[i] == a[i + 1] && ta[j] == a[j + 1]);
            }
        }
        assert(is_sorted(tb)) by {
            assert forall|i: int, j: int| 0 <= i <= j < tb.len() implies tb[i] <= tb[j] by {
                assert(tb[i] == b[i + 1] && tb[j] == b[j + 1]);
            }
        }
        lemma_sorted_unique(ta, tb);
        assert(a =~= b);
    }
}

/// The key of a group of records depends only on which records are in the
/// group, not on the order in which they were selected.
pub proof fn lemma_window_key_order_independent(a: Seq<u64>, b: Seq<u64>)
    requires
        a.to_multiset() == b.to_multiset(),
    ensures
        window_key_spec(a) == window_key_spec(b),
{
    lemma_sort_ids(a);
    lemma_sort_ids(b);
    lemma_sorted_unique(sort_ids(a), sort_ids(b));
}

} // verus!
