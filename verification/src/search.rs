use vstd::prelude::*;

verus! {

/// The index of the first element of `s` that satisfies `pred`, if any.
pub open spec fn first_index<T>(s: Seq<T>, pred: spec_fn(T) -> bool) -> Option<int>
    decreases s.len(),
{
    if s.len() == 0 {
        None
    } else {
        match first_index(s.drop_last(), pred) {
            Some(i) => Some(i),
            None => if pred(s.last()) {
                Some(s.len() - 1)
            } else {
                None
            },
        }
    }
}

/// The index of the last element of `s` that satisfies `pred`, if any.
pub open spec fn last_index<T>(s: Seq<T>, pred: spec_fn(T) -> bool) -> Option<int>
    decreases s.len(),
{
    if s.len() == 0 {
        None
    } else if pred(s.last()) {
        Some(s.len() - 1)
    } else {
        last_index(s.drop_last(), pred)
    }
}

/// `first_index` finds the first match, or reports that there is none.
pub proof fn lemma_first_index<T>(s: Seq<T>, pred: spec_fn(T) -> bool)
    ensures
        match first_index(s, pred) {
            Some(i) => 0 <= i < s.len() && pred(s[i]) && forall|j: int| 0 <= j < i ==> !pred(#[trigger] s[j]),
            None => forall|j: int| 0 <= j < s.len() ==> !pred(#[trigger] s[j]),
        },
    decreases s.len(),
{
    if s.len() > 0 {
        lemma_first_index(s.drop_last(), pred);
        assert forall|j: int| 0 <= j < s.len() - 1 implies s.drop_last()[j] == s[j] by {}
    }
}

/// `first_index` is determined by the position of the first match.
pub proof fn lemma_first_index_at<T>(s: Seq<T>, pred: spec_fn(T) -> bool, i: int)
    requires
        0 <= i < s.len(),
        pred(s[i]),
        forall|j: int| 0 <= j < i ==> !pred(#[trigger] s[j]),
    ensures
        first_index(s, pred) == Some(i),
{
    lemma_first_index(s, pred);
    match first_index(s, pred) {
        Some(k) => {
            if k < i {
                assert(!pred(s[k]));
            } else if k > i {
                assert(!pred(s[i]));
            }
        },
        None => {
            assert(!pred(s[i]));
        },
    }
}

/// `first_index` is `None` exactly when nothing matches.
pub proof fn lemma_first_index_none<T>(s: Seq<T>, pred: spec_fn(T) -> bool)
    requires
        forall|j: int| 0 <= j < s.len() ==> !pred(#[trigger] s[j]),
    ensures
        first_index(s, pred) is None,
{
    lemma_first_index(s, pred);
    if first_index(s, pred) is Some {
        let i = first_index(s, pred)->0;
        assert(pred(s[i]));
    }
}

/// `last_index` finds the last match, or reports that there is none.
pub proof fn lemma_last_index<T>(s: Seq<T>, pred: spec_fn(T) -> bool)
    ensures
        match last_index(s, pred) {
            Some(i) => 0 <= i < s.len() && pred(s[i]) && forall|j: int| i < j < s.len() ==> !pred(#[trigger] s[j]),
            None => forall|j: int| 0 <= j < s.len() ==> !pred(#[trigger] s[j]),
        },
    decreases s.len(),
{
    if s.len() > 0 {
        lemma_last_index(s.drop_last(), pred);
        assert forall|j: int| 0 <= j < s.len() - 1 implies s.drop_last()[j] == s[j] by {}
    }
}

/// `last_index` is determined by the position of the last match.
pub proof fn lemma_last_index_at<T>(s: Seq<T>, pred: spec_fn(T) -> bool, i: int)
    requires
        0 <= i < s.len(),
        pred(s[i]),
        forall|j: int| i < j < s.len() ==> !pred(#[trigger] s[j]),
    ensures
        last_index(s, pred) == Some(i),
{
    lemma_last_index(s, pred);
    match last_index(s, pred) {
        Some(k) => {
            if k < i {
                assert(!pred(s[i]));
            } else if k > i {
                assert(!pred(s[k]));
            }
        },
        None => {
            assert(!pred(s[i]));
        },
    }
}

/// `last_index` is `None` exactly when nothing matches.
pub proof fn lemma_last_index_none<T>(s: Seq<T>, pred: spec_fn(T) -> bool)
    requires
        forall|j: int| 0 <= j < s.len() ==> !pred(#[trigger] s[j]),
    ensures
        last_index(s, pred) is None,
{
    lemma_last_index(s, pred);
    if last_index(s, pred) is Some {
        let i = last_index(s, pred)->0;
        assert(pred(s[i]));
    }
}

} // verus!
