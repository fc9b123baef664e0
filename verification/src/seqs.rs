//! Sequence helpers used to state the list operations of the library.
use vstd::prelude::*;

verus! {

/// The index of the first element that `hit` accepts, if any.
pub open spec fn first_pos<T>(s: Seq<T>, hit: spec_fn(T) -> bool) -> Option<int>
    decreases s.len(),
{
    if s.len() == 0 {
        None
    } else if hit(s[0]) {
        Some(0)
    } else {
        match first_pos(s.drop_first(), hit) {
            Some(i) => Some(i + 1),
            None => None,
        }
    }
}

/// The elements that `drop` rejects, in order.
pub open spec fn keep<T>(s: Seq<T>, drop: spec_fn(T) -> bool) -> Seq<T>
    decreases s.len(),
{
    if s.len() == 0 {
        Seq::<T>::empty()
    } else {
        let r = keep(s.drop_last(), drop);
        if drop(s.last()) {
            r
        } else {
            r.push(s.last())
        }
    }
}

/// `s` with the elements at `i` and `j` exchanged.
pub open spec fn swapped<T>(s: Seq<T>, i: int, j: int) -> Seq<T> {
    s.update(i, s[j]).update(j, s[i])
}

pub proof fn lemma_first_pos<T>(s: Seq<T>, hit: spec_fn(T) -> bool)
    ensures
        first_pos(s, hit) matches Some(i) ==> {
            &&& 0 <= i < s.len()
            &&& hit(s[i])
            &&& forall|j: int| 0 <= j < i ==> !hit(#[trigger] s[j])
        },
        first_pos(s, hit) is None ==> forall|j: int| 0 <= j < s.len() ==> !hit(#[trigger] s[j]),
    decreases s.len(),
{
    if s.len() > 0 {
        lemma_first_pos(s.drop_first(), hit);
        if !hit(s[0]) {
            assert forall|j: int| 0 < j < s.len() implies s[j] == s.drop_first()[j - 1] by {}
        }
    }
}

/// The first position is the one index that holds an accepted element and
/// has none before it.
pub proof fn lemma_first_pos_at<T>(s: Seq<T>, hit: spec_fn(T) -> bool, i: int)
    requires
        0 <= i < s.len(),
        hit(s[i]),
        forall|j: int| 0 <= j < i ==> !hit(#[trigger] s[j]),
    ensures
        first_pos(s, hit) == Some(i),
    decreases i,
{
    if i > 0 {
        let t = s.drop_first();
        assert forall|j: int| 0 <= j < i - 1 implies !hit(#[trigger] t[j]) by {
            assert(t[j] == s[j + 1]);
        }
        lemma_first_pos_at(t, hit, i - 1);
    }
}

/// Nothing is dropped from a sequence that holds nothing to drop.
pub proof fn lemma_keep_all<T>(s: Seq<T>, drop: spec_fn(T) -> bool)
    requires
        forall|j: int| 0 <= j < s.len() ==> !drop(#[trigger] s[j]),
    ensures
        keep(s, drop) == s,
    decreases s.len(),
{
    if s.len() > 0 {
        lemma_keep_all(s.drop_last(), drop);
        assert(!drop(s[s.len() - 1]));
        assert(s.drop_last().push(s.last()) =~= s);
    }
}

/// Every element kept is one of the input's, and is not dropped.
pub proof fn lemma_keep_subset<T>(s: Seq<T>, drop: spec_fn(T) -> bool)
    ensures
        forall|j: int| 0 <= j < keep(s, drop).len() ==> {
            &&& !drop(#[trigger] keep(s, drop)[j])
            &&& s.contains(keep(s, drop)[j])
        },
        keep(s, drop).len() <= s.len(),
    decreases s.len(),
{
    if s.len() > 0 {
        lemma_keep_subset(s.drop_last(), drop);
        let r = keep(s.drop_last(), drop);
        assert forall|j: int| 0 <= j < keep(s, drop).len() implies {
            &&& !drop(#[trigger] keep(s, drop)[j])
            &&& s.contains(keep(s, drop)[j])
        } by {
            if j < r.len() {
                assert(s.drop_last().contains(r[j]));
                let k = choose|k: int| 0 <= k < s.drop_last().len() && s.drop_last()[k] == r[j];
                assert(s[k] == r[j]);
            } else {
                assert(s[s.len() - 1] == s.last());
            }
        }
    }
}

/// An element that is not dropped is kept.
pub proof fn lemma_keep_keeps<T>(s: Seq<T>, drop: spec_fn(T) -> bool, k: int)
    requires
        0 <= k < s.len(),
        !drop(s[k]),
    ensures
        keep(s, drop).contains(s[k]),
    decreases s.len(),
{
    let r = keep(s.drop_last(), drop);
    if k == s.len() - 1 {
        assert(keep(s, drop) == r.push(s.last()));
        assert(keep(s, drop)[r.len() as int] == s[k]);
    } else {
        assert(s.drop_last()[k] == s[k]);
        lemma_keep_keeps(s.drop_last(), drop, k);
        let j = choose|j: int| 0 <= j < r.len() && r[j] == s[k];
        if !drop(s.last()) {
            assert(keep(s, drop)[j] == r[j]);
        }
    }
}

} // verus!
