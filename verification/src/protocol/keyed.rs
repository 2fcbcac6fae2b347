//! Collections of records identified by a string key: uniqueness checks,
//! lookups, and reordering by a list of keys.

use vstd::prelude::*;
use super::field::FieldValue;

verus! {

/// A record identified by a string key.
pub trait Keyed: FieldValue {
    /// The key of a record, read from its model.
    spec fn view_key(v: <Self as DeepView>::V) -> Seq<char>;

    fn key(&self) -> (r: &String)
        ensures
            r@ == Self::view_key(self.deep_view()),
    ;
}

impl Keyed for String {
    open spec fn view_key(v: Seq<char>) -> Seq<char> {
        v
    }

    fn key(&self) -> (r: &String) {
        self
    }
}

impl Keyed for (String, String) {
    open spec fn view_key(v: (Seq<char>, Seq<char>)) -> Seq<char> {
        v.0
    }

    fn key(&self) -> (r: &String) {
        &self.0
    }
}

/// Whether two strings hold the same characters.
pub fn same_text(a: &String, b: &String) -> (r: bool)
    ensures
        r == (a@ == b@),
{
    a.eq(b)
}

/// The keys of a sequence of record models, in order.
pub open spec fn keys_of<T: Keyed>(s: Seq<T::V>) -> Seq<Seq<char>> {
    s.map_values(|v: T::V| T::view_key(v))
}

/// No two records share a key.
pub open spec fn unique_keys<T: Keyed>(s: Seq<T::V>) -> bool {
    forall|i: int, j: int|
        0 <= i < s.len() && 0 <= j < s.len() && i != j ==> T::view_key(#[trigger] s[i]) != T::view_key(
            #[trigger] s[j],
        )
}

/// Some record has key `k`.
pub open spec fn has_key<T: Keyed>(s: Seq<T::V>, k: Seq<char>) -> bool {
    exists|i: int| 0 <= i < s.len() && T::view_key(#[trigger] s[i]) == k
}

/// Predicate: the key is not in `r`.
pub open spec fn not_in(r: Seq<Seq<char>>) -> spec_fn(Seq<char>) -> bool {
    |x: Seq<char>| !r.contains(x)
}

/// Predicate: no record of `s` has the key.
pub open spec fn key_absent<T: Keyed>(s: Seq<T::V>) -> spec_fn(Seq<char>) -> bool {
    |x: Seq<char>| !has_key::<T>(s, x)
}

/// Keys are unique exactly when the key sequence has no repeats.
pub proof fn lemma_unique_keys_no_duplicates<T: Keyed>(s: Seq<T::V>)
    ensures
        unique_keys::<T>(s) <==> keys_of::<T>(s).no_duplicates(),
{
    let k = keys_of::<T>(s);
    if unique_keys::<T>(s) {
        assert forall|i: int, j: int| 0 <= i < k.len() && 0 <= j < k.len() && i != j implies k[i] != k[j] by {
            assert(T::view_key(s[i]) != T::view_key(s[j]));
        }
    }
    if k.no_duplicates() {
        assert forall|i: int, j: int| 0 <= i < s.len() && 0 <= j < s.len() && i != j implies T::view_key(#[trigger] s[i]) != T::view_key(#[trigger] s[j]) by {
            assert(k[i] != k[j]);
        }
    }
}

/// `has_key` is membership in the key sequence.
pub proof fn lemma_has_key_contains<T: Keyed>(s: Seq<T::V>, x: Seq<char>)
    ensures
        has_key::<T>(s, x) <==> keys_of::<T>(s).contains(x),
{
    let k = keys_of::<T>(s);
    if has_key::<T>(s, x) {
        let i = choose|i: int| 0 <= i < s.len() && T::view_key(#[trigger] s[i]) == x;
        assert(k[i] == x);
    }
    if k.contains(x) {
        let i = choose|i: int| 0 <= i < k.len() && k[i] == x;
        assert(T::view_key(s[i]) == x);
    }
}

/// Filtering keeps a sequence free of repeats.
pub proof fn lemma_filter_no_duplicates<A>(s: Seq<A>, p: spec_fn(A) -> bool)
    requires
        s.no_duplicates(),
    ensures
        s.filter(p).no_duplicates(),
    decreases s.len(),
{
    reveal(Seq::filter);
    if s.len() > 0 {
        let rest = s.drop_last();
        assert(rest.no_duplicates()) by {
            assert forall|i: int, j: int| 0 <= i < rest.len() && 0 <= j < rest.len() && i != j implies rest[i] != rest[j] by {
                assert(rest[i] == s[i] && rest[j] == s[j]);
            }
        }
        lemma_filter_no_duplicates(rest, p);
        let fr = rest.filter(p);
        if p(s.last()) {
            if fr.contains(s.last()) {
                rest.lemma_filter_contains_rev(p, s.last());
                let w = choose|w: int| 0 <= w < rest.len() && rest[w] == s.last();
                assert(s[w] == s[s.len() - 1]);
            }
            let f = fr.push(s.last());
            assert forall|i: int, j: int| 0 <= i < f.len() && 0 <= j < f.len() && i != j implies f[i] != f[j] by {
                if i < fr.len() && j < fr.len() {
                    assert(f[i] == fr[i] && f[j] == fr[j]);
                } else if i < fr.len() {
                    assert(fr.contains(f[i]));
                } else {
                    assert(fr.contains(f[j]));
                }
            }
        }
    }
}

/// Filtering records keeps their keys unique.
pub proof fn lemma_filter_unique_keys<T: Keyed>(s: Seq<T::V>, p: spec_fn(T::V) -> bool)
    requires
        unique_keys::<T>(s),
    ensures
        unique_keys::<T>(s.filter(p)),
    decreases s.len(),
{
    reveal(Seq::filter);
    if s.len() > 0 {
        let rest = s.drop_last();
        assert(unique_keys::<T>(rest)) by {
            assert forall|i: int, j: int| 0 <= i < rest.len() && 0 <= j < rest.len() && i != j implies T::view_key(#[trigger] rest[i]) != T::view_key(#[trigger] rest[j]) by {
                assert(rest[i] == s[i] && rest[j] == s[j]);
            }
        }
        lemma_filter_unique_keys::<T>(rest, p);
        let fr = rest.filter(p);
        if p(s.last()) {
            let f = fr.push(s.last());
            assert forall|i: int, j: int| 0 <= i < f.len() && 0 <= j < f.len() && i != j implies T::view_key(#[trigger] f[i]) != T::view_key(#[trigger] f[j]) by {
                if i < fr.len() && j < fr.len() {
                    assert(f[i] == fr[i] && f[j] == fr[j]);
                } else {
                    let x = if i < fr.len() { i } else { j };
                    assert(fr.contains(fr[x]));
                    rest.lemma_filter_contains_rev(p, fr[x]);
                    let w = choose|w: int| 0 <= w < rest.len() && rest[w] == fr[x];
                    assert(rest[w] == s[w]);
                    assert(T::view_key(s[w]) != T::view_key(s[s.len() - 1]));
                }
            }
        }
    }
}

/// A filter that keeps every element is the identity.
pub proof fn lemma_filter_keeps_all<A>(s: Seq<A>, p: spec_fn(A) -> bool)
    requires
        forall|i: int| 0 <= i < s.len() ==> p(#[trigger] s[i]),
    ensures
        s.filter(p) == s,
    decreases s.len(),
{
    reveal(Seq::filter);
    if s.len() > 0 {
        let rest = s.drop_last();
        assert forall|i: int| 0 <= i < rest.len() implies p(#[trigger] rest[i]) by {
            assert(rest[i] == s[i]);
        }
        lemma_filter_keeps_all(rest, p);
        assert(s.filter(p) =~= rest.push(s.last()));
        assert(rest.push(s.last()) =~= s);
    }
}

/// Membership in a filtered sequence: the element is in the sequence and passes.
pub proof fn lemma_filter_contains_iff<A>(s: Seq<A>, p: spec_fn(A) -> bool, x: A)
    ensures
        s.filter(p).contains(x) <==> (s.contains(x) && p(x)),
{
    broadcast use vstd::seq_lib::group_filter_ensures;
    if s.filter(p).contains(x) {
        s.lemma_filter_contains_rev(p, x);
        let i = choose|i: int| 0 <= i < s.filter(p).len() && s.filter(p)[i] == x;
        s.lemma_filter_pred(p, i);
    }
    if s.contains(x) && p(x) {
        let i = choose|i: int| 0 <= i < s.len() && s[i] == x;
        s.lemma_filter_contains(p, i);
    }
}

/// Two repeat-free sequences whose elements together are exactly those of a
/// third repeat-free sequence, with none in common, add up to its length.
pub proof fn lemma_partition_len<A>(x: Seq<A>, y: Seq<A>, k: Seq<A>)
    requires
        x.no_duplicates(),
        y.no_duplicates(),
        k.no_duplicates(),
        forall|e: A| k.contains(e) <==> (x.contains(e) || y.contains(e)),
        forall|e: A| !(x.contains(e) && y.contains(e)),
    ensures
        x.len() + y.len() == k.len(),
{
    x.unique_seq_to_set();
    y.unique_seq_to_set();
    k.unique_seq_to_set();
    assert(k.to_set() =~= x.to_set().union(y.to_set()));
    assert(x.to_set().disjoint(y.to_set()));
    vstd::set_lib::lemma_set_disjoint_lens(x.to_set(), y.to_set());
}

/// Removing a repeat-free subset of the keys leaves exactly the rest.
pub proof fn lemma_filter_removed_len(k: Seq<Seq<char>>, r: Seq<Seq<char>>)
    requires
        k.no_duplicates(),
        r.no_duplicates(),
        forall|i: int| 0 <= i < r.len() ==> k.contains(#[trigger] r[i]),
    ensures
        k.filter(not_in(r)).len() == k.len() - r.len(),
{
    broadcast use vstd::seq_lib::group_filter_ensures;
    let f = k.filter(not_in(r));
    lemma_filter_no_duplicates(k, not_in(r));
    f.unique_seq_to_set();
    r.unique_seq_to_set();
    k.unique_seq_to_set();
    assert forall|x: Seq<char>| k.to_set().contains(x) <==> f.to_set().union(r.to_set()).contains(x) by {
        if k.contains(x) && !r.contains(x) {
            let i = choose|i: int| 0 <= i < k.len() && k[i] == x;
            k.lemma_filter_contains(not_in(r), i);
        }
        if f.contains(x) {
            k.lemma_filter_contains_rev(not_in(r), x);
        }
        if r.contains(x) {
            let i = choose|i: int| 0 <= i < r.len() && r[i] == x;
            assert(k.contains(r[i]));
        }
    }
    assert(k.to_set() =~= f.to_set().union(r.to_set()));
    assert forall|x: Seq<char>| !(f.to_set().contains(x) && r.to_set().contains(x)) by {
        if f.contains(x) {
            let i = choose|i: int| 0 <= i < f.len() && f[i] == x;
            k.lemma_filter_pred(not_in(r), i);
        }
    }
    assert(f.to_set().disjoint(r.to_set()));
    vstd::set_lib::lemma_set_disjoint_lens(f.to_set(), r.to_set());
}

/// The first record with key `k` (meaningful when one exists).
pub open spec fn find_by_key<T: Keyed>(s: Seq<T::V>, k: Seq<char>) -> T::V {
    s[choose|i: int| first_with_key::<T>(s, k, i)]
}

/// `i` is the first index whose record has key `k`.
pub open spec fn first_with_key<T: Keyed>(s: Seq<T::V>, k: Seq<char>, i: int) -> bool {
    &&& 0 <= i < s.len()
    &&& T::view_key(s[i]) == k
    &&& forall|j: int| 0 <= j < i ==> T::view_key(#[trigger] s[j]) != k
}

/// The first index with a key determines the record found by that key.
pub proof fn lemma_find_first<T: Keyed>(s: Seq<T::V>, k: Seq<char>, i: int)
    requires
        first_with_key::<T>(s, k, i),
    ensures
        find_by_key::<T>(s, k) == s[i],
        has_key::<T>(s, k),
{
    let c = choose|c: int| first_with_key::<T>(s, k, c);
    if c < i {
        assert(T::view_key(s[c]) != k);
    } else if i < c {
        assert(T::view_key(s[i]) != k);
    }
}

/// When a key occurs, the record found by it carries that key.
pub proof fn lemma_find_has_key<T: Keyed>(s: Seq<T::V>, k: Seq<char>)
    requires
        has_key::<T>(s, k),
    ensures
        T::view_key(find_by_key::<T>(s, k)) == k,
        exists|i: int| first_with_key::<T>(s, k, i) && find_by_key::<T>(s, k) == s[i],
    decreases s.len(),
{
    let r = s.drop_last();
    if has_key::<T>(r, k) {
        lemma_find_has_key::<T>(r, k);
        let i = choose|i: int| first_with_key::<T>(r, k, i) && find_by_key::<T>(r, k) == r[i];
        assert(first_with_key::<T>(s, k, i)) by {
            assert forall|j: int| 0 <= j < i implies T::view_key(#[trigger] s[j]) != k by {
                assert(s[j] == r[j]);
            }
        }
        lemma_find_first::<T>(s, k, i);
    } else {
        let w = choose|w: int| 0 <= w < s.len() && T::view_key(#[trigger] s[w]) == k;
        if w < s.len() - 1 {
            assert(r[w] == s[w]);
        }
        let i = s.len() - 1;
        assert(first_with_key::<T>(s, k, i)) by {
            assert forall|j: int| 0 <= j < i implies T::view_key(#[trigger] s[j]) != k by {
                assert(s[j] == r[j]);
            }
        }
        lemma_find_first::<T>(s, k, i);
    }
}

/// With unique keys, the record found by key is the one at its index.
pub proof fn lemma_find_by_key<T: Keyed>(s: Seq<T::V>, i: int)
    requires
        unique_keys::<T>(s),
        0 <= i < s.len(),
    ensures
        find_by_key::<T>(s, T::view_key(s[i])) == s[i],
        has_key::<T>(s, T::view_key(s[i])),
{
    let k = T::view_key(s[i]);
    assert forall|j: int| 0 <= j < i implies T::view_key(#[trigger] s[j]) != k by {
        assert(T::view_key(s[j]) != T::view_key(s[i]));
    }
    lemma_find_first::<T>(s, k, i);
}

/// A sequence without repeated elements that is contained in another is no longer.
pub proof fn lemma_unique_contained_len<A>(s: Seq<A>, t: Seq<A>)
    requires
        s.no_duplicates(),
        forall|i: int| 0 <= i < s.len() ==> t.contains(#[trigger] s[i]),
    ensures
        s.len() <= t.len(),
{
    s.unique_seq_to_set();
    t.lemma_cardinality_of_set();
    vstd::seq_lib::seq_to_set_is_finite(t);
    assert(s.to_set().subset_of(t.to_set()));
    vstd::set_lib::lemma_len_subset(s.to_set(), t.to_set());
}

/// The first index of a record with the given key.
pub fn position_of_key<T: Keyed>(items: &Vec<T>, key: &String) -> (r: Option<usize>)
    ensures
        match r {
            Some(i) => first_with_key::<T>(items.deep_view(), key@, i as int)
                && find_by_key::<T>(items.deep_view(), key@) == items.deep_view()[i as int],
            None => !has_key::<T>(items.deep_view(), key@),
        },
{
    let mut i: usize = 0;
    while i < items.len()
        invariant
            i <= items.len(),
            forall|j: int| 0 <= j < i ==> T::view_key(#[trigger] items.deep_view()[j]) != key@,
        decreases items.len() - i,
    {
        if same_text(items[i].key(), key) {
            proof {
                lemma_find_first::<T>(items.deep_view(), key@, i as int);
            }
            return Some(i);
        }
        i += 1;
    }
    None
}

/// Whether some record has the given key.
pub fn contains_key<T: Keyed>(items: &Vec<T>, key: &String) -> (r: bool)
    ensures
        r == has_key::<T>(items.deep_view(), key@),
{
    position_of_key(items, key).is_some()
}

/// Collects the keys of `items` in order.
pub fn collect_keys<T: Keyed>(items: &Vec<T>) -> (r: Vec<String>)
    ensures
        r.deep_view() == keys_of::<T>(items.deep_view()),
{
    let mut out: Vec<String> = Vec::new();
    let mut i: usize = 0;
    while i < items.len()
        invariant
            i <= items.len(),
            out.deep_view() == keys_of::<T>(items.deep_view().take(i as int)),
        decreases items.len() - i,
    {
        let ghost before = out.deep_view();
        out.push(items[i].key().clone());
        proof {
            assert(out.deep_view() =~= before.push(T::view_key(items.deep_view()[i as int])));
            assert(keys_of::<T>(items.deep_view().take(i + 1)) =~= keys_of::<T>(items.deep_view().take(i as int)).push(T::view_key(items.deep_view()[i as int])));
        }
        i += 1;
    }
    assert(items.deep_view().take(items.len() as int) =~= items.deep_view());
    out
}

/// `Err("duplicate {description}")` when two records share a key.
pub fn validate_unique<T: Keyed>(items: &Vec<T>, description: &str) -> (r: Result<(), String>)
    ensures
        r is Ok <==> unique_keys::<T>(items.deep_view()),
        r matches Err(e) ==> e@ == "duplicate "@ + description@,
{
    let n = items.len();
    let mut i: usize = 0;
    while i < n
        invariant
            n == items.len(),
            i <= n,
            forall|a: int, b: int|
                0 <= a < i && 0 <= b < n && a != b ==> T::view_key(#[trigger] items.deep_view()[a])
                    != T::view_key(#[trigger] items.deep_view()[b]),
        decreases n - i,
    {
        let mut j: usize = 0;
        while j < n
            invariant
                n == items.len(),
                i < n,
                j <= n,
                forall|a: int, b: int|
                    0 <= a < i && 0 <= b < n && a != b ==> T::view_key(#[trigger] items.deep_view()[a])
                        != T::view_key(#[trigger] items.deep_view()[b]),
                forall|b: int|
                    0 <= b < j && b != i ==> T::view_key(items.deep_view()[i as int]) != T::view_key(
                        #[trigger] items.deep_view()[b],
                    ),
            decreases n - j,
        {
            if j != i && same_text(items[i].key(), items[j].key()) {
                assert(T::view_key(items.deep_view()[i as int]) == T::view_key(items.deep_view()[j as int]));
                return Err(duplicate_message(description));
            }
            j += 1;
        }
        i += 1;
    }
    Ok(())
}

fn duplicate_message(description: &str) -> (r: String)
    ensures
        r@ == "duplicate "@ + description@,
{
    let mut message = String::from_str("duplicate ");
    message.append(description);
    message
}

/// An order list is valid for a collection of `expected_len` records when it
/// has that length, names only members (`members_ok`), and repeats no key.
pub open spec fn spec_order_valid(order: Seq<Seq<char>>, expected_len: int, members_ok: bool) -> bool {
    order.len() == expected_len && members_ok && order.no_duplicates()
}

/// The message an invalid order is refused with.
pub open spec fn order_error(order: Seq<Seq<char>>, expected_len: int, members_ok: bool) -> Seq<char> {
    if order.len() != expected_len || !members_ok {
        "order is not a permutation of the resulting collection"@
    } else {
        "duplicate order ID"@
    }
}

/// Rejects an order that is not a permutation of the resulting collection.
pub fn validate_order(order: &Vec<String>, expected_len: usize, members_ok: bool) -> (r: Result<(), String>)
    ensures
        r is Ok <==> spec_order_valid(order.deep_view(), expected_len as int, members_ok),
        r matches Err(e) ==> e@ == order_error(order.deep_view(), expected_len as int, members_ok),
{
    if order.len() != expected_len || !members_ok {
        return Err(String::from_str("order is not a permutation of the resulting collection"));
    }
    let r = validate_unique(order, "order ID");
    proof {
        reveal_strlit("duplicate ");
        reveal_strlit("order ID");
        reveal_strlit("duplicate order ID");
        assert("duplicate "@ + "order ID"@ =~= "duplicate order ID"@);
        if r is Ok {
            assert(order.deep_view().no_duplicates());
        } else {
            if order.deep_view().no_duplicates() {
                assert(unique_keys::<String>(order.deep_view()));
            }
        }
    }
    r
}

/// The records named by `order`, each looked up by key in `items`.
pub open spec fn spec_reordered<T: Keyed>(items: Seq<T::V>, order: Seq<Seq<char>>) -> Seq<T::V> {
    order.map_values(|k: Seq<char>| find_by_key::<T>(items, k))
}

/// Rearranges the records so their keys follow `order`.
pub fn reorder_entities<T: Keyed>(target: &mut Vec<T>, order: &Vec<String>)
    requires
        unique_keys::<T>(old(target).deep_view()),
        order.deep_view().no_duplicates(),
        order.len() == old(target).len(),
        forall|i: int| 0 <= i < order.len() ==> has_key::<T>(old(target).deep_view(), #[trigger] order.deep_view()[i]),
    ensures
        final(target).deep_view() == spec_reordered::<T>(old(target).deep_view(), order.deep_view()),
        unique_keys::<T>(final(target).deep_view()),
        keys_of::<T>(final(target).deep_view()) == order.deep_view(),
{
    let ghost orig = target.deep_view();
    let ghost ord = order.deep_view();
    let mut src: Vec<T> = Vec::new();
    std::mem::swap(&mut src, target);
    let mut out: Vec<T> = Vec::new();
    let n = order.len();
    let mut d: usize = 0;
    let ghost mut idx: Seq<int> = Seq::new(n as nat, |k: int| k);
    assert(src.deep_view() == orig);
    proof {
        assert forall|k: int| 0 <= k < n && !ord.take(0).contains(T::view_key(#[trigger] orig[k])) implies idx.contains(k) by {
            assert(idx[k] == k);
        }
    }
    while d < n
        invariant
            n == ord.len(),
            n == orig.len(),
            ord == order.deep_view(),
            ord.no_duplicates(),
            unique_keys::<T>(orig),
            forall|i: int| 0 <= i < n ==> has_key::<T>(orig, #[trigger] ord[i]),
            d <= n,
            out.len() == d,
            forall|j: int| 0 <= j < d ==> #[trigger] out.deep_view()[j] == find_by_key::<T>(orig, ord[j]),
            idx.len() == src.len(),
            idx.no_duplicates(),
            forall|j: int| 0 <= j < idx.len() ==> 0 <= #[trigger] idx[j] < n && src.deep_view()[j] == orig[idx[j]],
            forall|j: int| 0 <= j < src.deep_view().len() ==> !ord.take(d as int).contains(T::view_key(#[trigger] src.deep_view()[j])),
            forall|k: int| 0 <= k < n && !ord.take(d as int).contains(T::view_key(#[trigger] orig[k])) ==> idx.contains(k),
        decreases n - d,
    {
        let key = &order[d];
        assert(has_key::<T>(orig, ord[d as int]));
        let ghost kk = choose|k: int| 0 <= k < orig.len() && T::view_key(#[trigger] orig[k]) == ord[d as int];
        assert(!ord.take(d as int).contains(ord[d as int])) by {
            if ord.take(d as int).contains(ord[d as int]) {
                let w = choose|w: int| 0 <= w < d && #[trigger] ord.take(d as int)[w] == ord[d as int];
                assert(ord[w] == ord[d as int]);
            }
        }
        assert(T::view_key(orig[kk]) == ord[d as int]);
        assert(idx.contains(kk));
        let pos = position_of_key(&src, key);
        let p = match pos {
            Some(p) => p,
            None => {
                proof {
                    let j = choose|j: int| 0 <= j < idx.len() && idx[j] == kk;
                    assert(src.deep_view()[j] == orig[kk]);
                    assert(T::view_key(src.deep_view()[j]) == key@);
                }
                return;
            },
        };
        let ghost src_before = src.deep_view();
        let ghost idx_before = idx;
        let ghost kp = idx[p as int];
        proof {
            lemma_find_by_key::<T>(orig, kp);
            assert(T::view_key(orig[kp]) == ord[d as int]);
        }
        let item = src.remove(p);
        assert(item.deep_view() == src_before[p as int]);
        let ghost out_before = out.deep_view();
        out.push(item);
        proof {
            assert(out.deep_view() =~= out_before.push(src_before[p as int]));
            assert(src_before[p as int] == orig[kp]);
            assert(out.deep_view()[d as int] == find_by_key::<T>(orig, ord[d as int]));
            idx = idx.remove(p as int);
            assert(src.deep_view() =~= src_before.remove(p as int));
            assert(ord.take(d + 1) =~= ord.take(d as int).push(ord[d as int]));
            assert forall|a: int, b: int| 0 <= a < idx.len() && 0 <= b < idx.len() && a != b implies idx[a] != idx[b] by {
                let aa = if a < p { a } else { a + 1 };
                let bb = if b < p { b } else { b + 1 };
                assert(idx[a] == idx_before[aa]);
                assert(idx[b] == idx_before[bb]);
            }
            assert forall|j: int| 0 <= j < idx.len() implies 0 <= #[trigger] idx[j] < n && src.deep_view()[j] == orig[idx[j]] by {
                let jj = if j < p { j } else { j + 1 };
                assert(idx[j] == idx_before[jj]);
                assert(src.deep_view()[j] == src_before[jj]);
            }
            assert forall|j: int| 0 <= j < src.deep_view().len() implies !ord.take(d + 1).contains(T::view_key(#[trigger] src.deep_view()[j])) by {
                let jj = if j < p { j } else { j + 1 };
                assert(src.deep_view()[j] == src_before[jj]);
                assert(!ord.take(d as int).contains(T::view_key(src_before[jj])));
                let kj = idx_before[jj];
                assert(src_before[jj] == orig[kj]);
                if T::view_key(src_before[jj]) == ord[d as int] {
                    assert(T::view_key(orig[kj]) == T::view_key(orig[kp]));
                    assert(kj == kp);
                    assert(idx_before[jj] == idx_before[p as int]);
                    assert(false);
                }
                if ord.take(d + 1).contains(T::view_key(src_before[jj])) {
                    let w = choose|w: int| 0 <= w < d + 1 && #[trigger] ord.take(d + 1)[w] == T::view_key(src_before[jj]);
                    if w < d {
                        assert(ord.take(d as int)[w] == T::view_key(src_before[jj]));
                    }
                }
            }
            assert forall|k: int| 0 <= k < n && !ord.take(d + 1).contains(T::view_key(#[trigger] orig[k])) implies idx.contains(k) by {
                if ord.take(d as int).contains(T::view_key(orig[k])) {
                    let w = choose|w: int| 0 <= w < d && #[trigger] ord.take(d as int)[w] == T::view_key(orig[k]);
                    assert(ord.take(d + 1)[w] == T::view_key(orig[k]));
                }
                assert(idx_before.contains(k));
                let j0 = choose|j: int| 0 <= j < idx_before.len() && idx_before[j] == k;
                if j0 == p {
                    assert(k == kp);
                    assert(ord.take(d + 1)[d as int] == T::view_key(orig[k]));
                }
                let jn = if j0 < p { j0 } else { j0 - 1 };
                assert(idx[jn] == k);
            }
        }
        d += 1;
    }
    std::mem::swap(&mut out, target);
    proof {
        let fin = target.deep_view();
        assert(fin =~= spec_reordered::<T>(orig, ord));
        assert forall|j: int| 0 <= j < n implies T::view_key(#[trigger] fin[j]) == ord[j] by {
            lemma_find_has_key::<T>(orig, ord[j]);
        }
        assert(keys_of::<T>(fin) =~= ord);
        assert forall|i: int, j: int| 0 <= i < n && 0 <= j < n && i != j implies T::view_key(#[trigger] fin[i]) != T::view_key(#[trigger] fin[j]) by {
            assert(T::view_key(fin[i]) == ord[i]);
            assert(T::view_key(fin[j]) == ord[j]);
        }
    }
}

} // verus!
