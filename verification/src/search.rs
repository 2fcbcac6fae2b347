//! First positions: the first element of a sequence with a property, the
//! first occurrence of a byte, and facts about them.

use vstd::prelude::*;

verus! {

/// Index of the first element of `s` for which `f` holds.
pub open spec fn first_where<A>(s: Seq<A>, f: spec_fn(A) -> bool) -> Option<int>
    decreases s.len(),
{
    if s.len() == 0 {
        None
    } else {
        match first_where(s.drop_last(), f) {
            Some(i) => Some(i),
            None => if f(s.last()) {
                Some(s.len() - 1)
            } else {
                None
            },
        }
    }
}

/// An optional index as a `usize`.
pub open spec fn index_opt(o: Option<int>) -> Option<usize> {
    match o {
        Some(i) => Some(i as usize),
        None => None,
    }
}

/// What the first match is: an index where `f` holds with none before it,
/// or no index at all.
pub proof fn lemma_first_where<A>(s: Seq<A>, f: spec_fn(A) -> bool)
    ensures
        match first_where(s, f) {
            Some(i) => 0 <= i < s.len() && f(s[i]) && forall|j: int| 0 <= j < i ==> !f(#[trigger] s[j]),
            None => forall|j: int| 0 <= j < s.len() ==> !f(#[trigger] s[j]),
        },
    decreases s.len(),
{
    if s.len() > 0 {
        let t = s.drop_last();
        lemma_first_where(t, f);
        assert forall|j: int| 0 <= j < s.len() - 1 implies #[trigger] t[j] == s[j] by {}
        match first_where(t, f) {
            Some(i) => {
                assert forall|j: int| 0 <= j < i implies !f(#[trigger] s[j]) by {
                    assert(t[j] == s[j]);
                }
                assert(t[i] == s[i]);
            },
            None => {
                assert forall|j: int| 0 <= j < s.len() - 1 implies !f(#[trigger] s[j]) by {
                    assert(t[j] == s[j]);
                }
            },
        }
    }
}

/// The first match is determined by any index where `f` holds with none before it.
pub proof fn lemma_first_where_at<A>(s: Seq<A>, f: spec_fn(A) -> bool, i: int)
    requires
        0 <= i < s.len(),
        f(s[i]),
        forall|j: int| 0 <= j < i ==> !f(#[trigger] s[j]),
    ensures
        first_where(s, f) == Some(i),
{
    lemma_first_where(s, f);
    match first_where(s, f) {
        Some(k) => {
            if k < i {
                assert(!f(s[k]));
            } else if k > i {
                assert(!f(s[i]));
            }
        },
        None => {
            assert(!f(s[i]));
        },
    }
}

/// No match when `f` holds nowhere.
pub proof fn lemma_first_where_none<A>(s: Seq<A>, f: spec_fn(A) -> bool)
    requires
        forall|j: int| 0 <= j < s.len() ==> !f(#[trigger] s[j]),
    ensures
        first_where(s, f) is None,
{
    lemma_first_where(s, f);
    if let Some(k) = first_where(s, f) {
        assert(!f(s[k]));
    }
}

/// Index of the first `b` in `s` at or after `from`, or the length of `s`.
pub open spec fn find_byte(s: Seq<u8>, b: u8, from: int) -> int
    decreases s.len() - from,
{
    if from < 0 || from >= s.len() {
        s.len() as int
    } else if s[from] == b {
        from
    } else {
        find_byte(s, b, from + 1)
    }
}

/// Index of the first `b` in `s[lo..hi]`, counted from `lo`, or `hi - lo`.
pub fn find_byte_range(s: &Vec<u8>, lo: usize, hi: usize, b: u8) -> (r: usize)
    requires
        lo <= hi <= s.len(),
    ensures
        r as int == find_byte(s@.subrange(lo as int, hi as int), b, 0),
        r <= hi - lo,
{
    let ghost sub = s@.subrange(lo as int, hi as int);
    let mut i: usize = lo;
    while i < hi
        invariant
            lo <= i <= hi <= s.len(),
            sub == s@.subrange(lo as int, hi as int),
            find_byte(sub, b, i - lo) == find_byte(sub, b, 0),
        decreases hi - i,
    {
        if s[i] == b {
            return i - lo;
        }
        i = i + 1;
    }
    i - lo
}

pub proof fn lemma_find_byte_bounds(s: Seq<u8>, b: u8, from: int)
    requires
        0 <= from <= s.len(),
    ensures
        from <= find_byte(s, b, from) <= s.len(),
        find_byte(s, b, from) < s.len() ==> s[find_byte(s, b, from)] == b,
    decreases s.len() - from,
{
    if from < s.len() && s[from] != b {
        lemma_find_byte_bounds(s, b, from + 1);
    }
}

} // verus!
