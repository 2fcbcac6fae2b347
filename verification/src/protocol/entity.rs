//! Collections of keyed records and their deltas: added records, per-record
//! updates, removed keys and an optional complete key order.

use vstd::prelude::*;
use super::field::FieldValue;
use super::keyed::{
    collect_keys, contains_key, find_by_key, first_with_key, has_key, key_absent, keys_of,
    lemma_filter_contains_iff, lemma_filter_keeps_all, lemma_filter_no_duplicates, lemma_filter_removed_len, lemma_find_by_key, lemma_find_has_key,
    lemma_has_key_contains, lemma_unique_keys_no_duplicates, not_in, order_error, position_of_key,
    reorder_entities, spec_order_valid, unique_keys, validate_order, validate_unique, Keyed,
};

verus! {

/// A keyed record kept in a snapshot collection.
pub trait Entity: Keyed {
    /// Internal consistency of one record (for example, unique token keys).
    spec fn record_wf(v: <Self as DeepView>::V) -> bool;

    /// The message an inconsistent record is refused with.
    spec fn record_error() -> Seq<char>;

    /// Checks the record's internal consistency.
    fn check_record(&self) -> (r: Result<(), String>)
        ensures
            r is Ok <==> Self::record_wf(self.deep_view()),
            r matches Err(e) ==> e@ == Self::record_error(),
    ;
}

/// A sparse update to one record, addressed by the record's key.
pub trait EntityUpdate<T: Entity>: Sized {
    spec fn update_key(&self) -> Seq<char>;

    /// The update can be applied to the record.
    spec fn applicable_to(&self, v: <T as DeepView>::V) -> bool;

    /// The record after the update.
    spec fn applied_to(&self, v: <T as DeepView>::V) -> <T as DeepView>::V;

    /// The update is the one computed from `base` to `next`.
    spec fn is_diff_of(&self, base: <T as DeepView>::V, next: <T as DeepView>::V) -> bool;

    fn update_id(&self) -> (r: &String)
        ensures
            r@ == self.update_key(),
    ;

    /// The message the update is refused with against the record.
    spec fn check_error(&self, v: <T as DeepView>::V) -> Seq<char>;

    /// Checks nested deltas against the record.
    fn check(&self, target: &T) -> (r: Result<(), String>)
        ensures
            r is Ok <==> self.applicable_to(target.deep_view()),
            r matches Err(e) ==> e@ == self.check_error(target.deep_view()),
    ;

    fn apply_update(&self, target: &mut T)
        requires
            self.applicable_to(old(target).deep_view()),
            T::record_wf(old(target).deep_view()),
        ensures
            final(target).deep_view() == self.applied_to(old(target).deep_view()),
    ;

    /// `None` for equal records, otherwise the update from `base` to `next`.
    fn compute(base: &T, next: &T) -> (r: Option<Self>)
        ensures
            base.deep_view() == next.deep_view() ==> r is None,
            base.deep_view() != next.deep_view() ==> (r matches Some(d) && d.update_key() == T::view_key(
                next.deep_view(),
            ) && d.is_diff_of(base.deep_view(), next.deep_view())),
    ;

    fn duplicate(&self) -> (r: Self)
        ensures
            r.update_key() == self.update_key(),
            forall|v: <T as DeepView>::V| r.applicable_to(v) == self.applicable_to(v) && r.applied_to(v) == self.applied_to(v),
    ;

    /// Updates keep the key and the record's consistency.
    proof fn lemma_update(&self, v: <T as DeepView>::V)
        requires
            self.applicable_to(v),
            T::record_wf(v),
        ensures
            T::view_key(self.applied_to(v)) == T::view_key(v),
            T::record_wf(self.applied_to(v)),
    ;

    /// The computed update applies to `base` and yields `next`.
    proof fn lemma_diff_roundtrip(&self, base: <T as DeepView>::V, next: <T as DeepView>::V)
        requires
            self.is_diff_of(base, next),
            T::record_wf(base),
            T::record_wf(next),
            T::view_key(base) == T::view_key(next),
        ensures
            self.applicable_to(base),
            self.applied_to(base) == next,
    ;
}

/// Changes to a keyed collection.
#[derive(Debug, Clone, PartialEq, Eq)]
pub struct EntityCollectionDelta<T, D> {
    pub added: Vec<T>,
    pub updated: Vec<D>,
    pub removed: Vec<String>,
    pub order: Option<Vec<String>>,
}

/// Some update in `ds` addresses key `k`.
pub open spec fn has_update<T: Entity, D: EntityUpdate<T>>(ds: Seq<D>, k: Seq<char>) -> bool {
    exists|i: int| 0 <= i < ds.len() && (#[trigger] ds[i]).update_key() == k
}

/// The first update in `ds` addressing key `k`.
pub open spec fn find_update<T: Entity, D: EntityUpdate<T>>(ds: Seq<D>, k: Seq<char>) -> D {
    ds[choose|i: int| 0 <= i < ds.len() && (#[trigger] ds[i]).update_key() == k && forall|j: int| 0 <= j < i ==> (#[trigger] ds[j]).update_key() != k]
}

/// No two updates address the same key.
pub open spec fn unique_updates<T: Entity, D: EntityUpdate<T>>(ds: Seq<D>) -> bool {
    forall|i: int, j: int| 0 <= i < ds.len() && 0 <= j < ds.len() && i != j ==> (#[trigger] ds[i]).update_key() != (#[trigger] ds[j]).update_key()
}

/// Every record is internally consistent.
pub open spec fn all_records_wf<T: Entity>(s: Seq<T::V>) -> bool {
    forall|i: int| 0 <= i < s.len() ==> T::record_wf(#[trigger] s[i])
}

/// Keys and consistency of a collection that deltas are applied to.
pub open spec fn collection_wf<T: Entity>(s: Seq<T::V>) -> bool {
    unique_keys::<T>(s) && all_records_wf::<T>(s)
}

impl<T: Entity, D: EntityUpdate<T>> EntityCollectionDelta<T, D> {
    pub open spec fn added_view(&self) -> Seq<T::V> {
        self.added.deep_view()
    }

    pub open spec fn removed_view(&self) -> Seq<Seq<char>> {
        self.removed.deep_view()
    }

    pub open spec fn order_view(&self) -> Option<Seq<Seq<char>>> {
        self.order.deep_view()
    }

    pub open spec fn spec_is_empty(&self) -> bool {
        self.added@.len() == 0 && self.updated@.len() == 0 && self.removed@.len() == 0 && self.order is None
    }

    /// The delta can be applied to `target`: keys are unique within each
    /// part, additions are new, removals and updates name existing records
    /// (updates not removed ones), and an order is a permutation of the result.
    pub open spec fn valid_for(&self, target: Seq<T::V>) -> bool {
        let removed = self.removed_view();
        let added = self.added_view();
        self.spec_is_empty() || {
            &&& unique_keys::<T>(added)
            &&& unique_updates::<T, D>(self.updated@)
            &&& removed.no_duplicates()
            &&& forall|i: int| 0 <= i < added.len() ==> !has_key::<T>(target, T::view_key(#[trigger] added[i]))
            &&& forall|i: int| 0 <= i < removed.len() ==> has_key::<T>(target, #[trigger] removed[i])
            &&& forall|i: int| 0 <= i < self.updated@.len() ==> has_key::<T>(target, (#[trigger] self.updated@[i]).update_key())
                && !removed.contains(self.updated@[i].update_key())
            &&& match self.order_view() {
                Some(o) => spec_order_valid(
                    o,
                    target.len() - removed.len() + added.len(),
                    forall|i: int| 0 <= i < o.len() ==> has_key::<T>(added, #[trigger] o[i])
                        || (has_key::<T>(target, o[i]) && !removed.contains(o[i])),
                ),
                None => true,
            }
        }
    }

    /// The message the delta is refused with against `target`, by the first
    /// check it fails: unique added, updated and removed keys, new additions,
    /// existing removals, updates of existing and kept records, then the order.
    pub open spec fn delta_error(&self, target: Seq<T::V>) -> Seq<char> {
        let removed = self.removed_view();
        let added = self.added_view();
        if !unique_keys::<T>(added) {
            "duplicate added entity ID"@
        } else if !unique_updates::<T, D>(self.updated@) {
            "duplicate updated entity ID"@
        } else if !removed.no_duplicates() {
            "duplicate removed entity ID"@
        } else if !(forall|i: int| 0 <= i < added.len() ==> !has_key::<T>(target, T::view_key(#[trigger] added[i]))) {
            "entity addition reuses an existing ID"@
        } else if !(forall|i: int| 0 <= i < removed.len() ==> has_key::<T>(target, #[trigger] removed[i])) {
            "entity removal refers to an unknown ID"@
        } else if !(forall|i: int| 0 <= i < self.updated@.len() ==> has_key::<T>(target, (#[trigger] self.updated@[i]).update_key())
            && !removed.contains(self.updated@[i].update_key())) {
            "entity update refers to an unknown or removed ID"@
        } else {
            match self.order_view() {
                Some(o) => order_error(
                    o,
                    target.len() - removed.len() + added.len(),
                    forall|i: int| 0 <= i < o.len() ==> has_key::<T>(added, #[trigger] o[i])
                        || (has_key::<T>(target, o[i]) && !removed.contains(o[i])),
                ),
                None => Seq::empty(),
            }
        }
    }

    /// Every update applies to the record it names.
    pub open spec fn updates_applicable(&self, target: Seq<T::V>) -> bool {
        forall|i: int| 0 <= i < self.updated@.len() ==> (#[trigger] self.updated@[i]).applicable_to(
            find_by_key::<T>(target, self.updated@[i].update_key()),
        )
    }

    /// Keys of the resulting collection.
    pub open spec fn result_keys(&self, target: Seq<T::V>) -> Seq<Seq<char>> {
        match self.order_view() {
            Some(o) => o,
            None => keys_of::<T>(target).filter(not_in(self.removed_view())) + keys_of::<T>(self.added_view()),
        }
    }

    /// The record a key holds afterwards: the added record, or the existing
    /// record with its update (if any) applied.
    pub open spec fn result_record(&self, target: Seq<T::V>, k: Seq<char>) -> T::V {
        if has_key::<T>(self.added_view(), k) {
            find_by_key::<T>(self.added_view(), k)
        } else if has_update::<T, D>(self.updated@, k) {
            find_update::<T, D>(self.updated@, k).applied_to(find_by_key::<T>(target, k))
        } else {
            find_by_key::<T>(target, k)
        }
    }

    /// The collection after applying a valid delta.
    pub open spec fn applied(&self, target: Seq<T::V>) -> Seq<T::V> {
        self.result_keys(target).map_values(|k: Seq<char>| self.result_record(target, k))
    }

    pub fn is_empty(&self) -> (r: bool)
        ensures
            r == self.spec_is_empty(),
    {
        self.added.len() == 0 && self.updated.len() == 0 && self.removed.len() == 0 && self.order.is_none()
    }
}

impl<T, D> Default for EntityCollectionDelta<T, D> {
    fn default() -> (r: Self)
        ensures
            r.added@.len() == 0 && r.updated@.len() == 0 && r.removed@.len() == 0 && r.order is None,
    {
        EntityCollectionDelta { added: Vec::new(), updated: Vec::new(), removed: Vec::new(), order: None }
    }
}

/// With unique update keys, the update found by a key is the one at its index.
pub proof fn lemma_find_update_at<T: Entity, D: EntityUpdate<T>>(ds: Seq<D>, i: int)
    requires
        unique_updates::<T, D>(ds),
        0 <= i < ds.len(),
    ensures
        has_update::<T, D>(ds, ds[i].update_key()),
        find_update::<T, D>(ds, ds[i].update_key()) == ds[i],
{
    let k = ds[i].update_key();
    assert forall|j: int| 0 <= j < i implies (#[trigger] ds[j]).update_key() != k by {
        assert(ds[j].update_key() != ds[i].update_key());
    }
    let c = choose|c: int| 0 <= c < ds.len() && (#[trigger] ds[c]).update_key() == k && forall|j: int| 0 <= j < c ==> (#[trigger] ds[j]).update_key() != k;
    if c != i {
        assert(ds[c].update_key() == ds[i].update_key());
    }
}

/// Lookups of other keys do not change when a unique update list grows by one.
pub proof fn lemma_find_update_prefix<T: Entity, D: EntityUpdate<T>>(ds: Seq<D>, u: int, k: Seq<char>)
    requires
        unique_updates::<T, D>(ds),
        0 <= u < ds.len(),
        k != ds[u].update_key(),
    ensures
        has_update::<T, D>(ds.take(u + 1), k) == has_update::<T, D>(ds.take(u), k),
        has_update::<T, D>(ds.take(u), k) ==> find_update::<T, D>(ds.take(u + 1), k) == find_update::<T, D>(ds.take(u), k),
{
    let a = ds.take(u);
    let b = ds.take(u + 1);
    assert(unique_updates::<T, D>(a)) by {
        assert forall|p: int, q: int| 0 <= p < a.len() && 0 <= q < a.len() && p != q implies (#[trigger] a[p]).update_key() != (#[trigger] a[q]).update_key() by {
            assert(a[p] == ds[p] && a[q] == ds[q]);
        }
    }
    assert(unique_updates::<T, D>(b)) by {
        assert forall|p: int, q: int| 0 <= p < b.len() && 0 <= q < b.len() && p != q implies (#[trigger] b[p]).update_key() != (#[trigger] b[q]).update_key() by {
            assert(b[p] == ds[p] && b[q] == ds[q]);
        }
    }
    if has_update::<T, D>(b, k) {
        let w = choose|w: int| 0 <= w < b.len() && (#[trigger] b[w]).update_key() == k;
        assert(w != u);
        assert(a[w] == b[w]);
    }
    if has_update::<T, D>(a, k) {
        let w = choose|w: int| 0 <= w < a.len() && (#[trigger] a[w]).update_key() == k;
        assert(a[w] == b[w]);
        lemma_find_update_at::<T, D>(a, w);
        lemma_find_update_at::<T, D>(b, w);
    }
}

/// First position of an update with the given key.
pub fn position_of_update<T: Entity, D: EntityUpdate<T>>(ds: &Vec<D>, key: &String) -> (r: Option<usize>)
    ensures
        match r {
            Some(i) => i < ds@.len() && ds@[i as int].update_key() == key@,
            None => !has_update::<T, D>(ds@, key@),
        },
{
    let mut i: usize = 0;
    while i < ds.len()
        invariant
            i <= ds.len(),
            forall|j: int| 0 <= j < i ==> (#[trigger] ds@[j]).update_key() != key@,
        decreases ds.len() - i,
    {
        if super::keyed::same_text(ds[i].update_id(), key) {
            return Some(i);
        }
        i += 1;
    }
    None
}

/// Checks a collection delta against the current records.
pub fn validate_entity_delta<T: Entity, D: EntityUpdate<T>>(
    target: &Vec<T>,
    delta: &EntityCollectionDelta<T, D>,
) -> (r: Result<(), String>)
    ensures
        r is Ok <==> delta.valid_for(target.deep_view()),
        r matches Err(e) ==> e@ == delta.delta_error(target.deep_view()),
{
    if delta.is_empty() {
        return Ok(());
    }
    proof {
        reveal_strlit("duplicate ");
        reveal_strlit("added entity ID");
        reveal_strlit("duplicate added entity ID");
        reveal_strlit("removed entity ID");
        reveal_strlit("duplicate removed entity ID");
        assert("duplicate "@ + "added entity ID"@ =~= "duplicate added entity ID"@);
        assert("duplicate "@ + "removed entity ID"@ =~= "duplicate removed entity ID"@);
    }
    let ghost t = target.deep_view();
    let ghost added = delta.added_view();
    let ghost removed = delta.removed_view();
    let ghost ds = delta.updated@;
    validate_unique(&delta.added, "added entity ID")?;
    // updated keys are unique
    let mut i: usize = 0;
    while i < delta.updated.len()
        invariant
            ds == delta.updated@,
            added == delta.added_view(),
            unique_keys::<T>(added),
            i <= ds.len(),
            forall|a: int, b: int| 0 <= a < i && 0 <= b < ds.len() && a != b ==> (#[trigger] ds[a]).update_key() != (#[trigger] ds[b]).update_key(),
        decreases ds.len() - i,
    {
        let mut j: usize = 0;
        while j < delta.updated.len()
            invariant
                ds == delta.updated@,
                added == delta.added_view(),
                unique_keys::<T>(added),
                i < ds.len(),
                j <= ds.len(),
                forall|a: int, b: int| 0 <= a < i && 0 <= b < ds.len() && a != b ==> (#[trigger] ds[a]).update_key() != (#[trigger] ds[b]).update_key(),
                forall|b: int| 0 <= b < j && b != i ==> ds[i as int].update_key() != (#[trigger] ds[b]).update_key(),
            decreases ds.len() - j,
        {
            if j != i && super::keyed::same_text(delta.updated[i].update_id(), delta.updated[j].update_id()) {
                assert(ds[i as int].update_key() == ds[j as int].update_key());
                return Err(String::from_str("duplicate updated entity ID"));
            }
            j += 1;
        }
        i += 1;
    }
    assert(unique_updates::<T, D>(ds));
    let ru = validate_unique(&delta.removed, "removed entity ID");
    if ru.is_err() {
        proof {
            if removed.no_duplicates() {
                assert(unique_keys::<String>(removed));
            }
        }
        return ru;
    }
    assert(removed.no_duplicates());
    let mut a: usize = 0;
    while a < delta.added.len()
        invariant
            a <= delta.added.len(),
            added == delta.added_view(),
            t == target.deep_view(),
            ds == delta.updated@,
            removed == delta.removed_view(),
            unique_keys::<T>(added),
            unique_updates::<T, D>(ds),
            removed.no_duplicates(),
            forall|q: int| 0 <= q < a ==> !has_key::<T>(t, T::view_key(#[trigger] added[q])),
        decreases delta.added.len() - a,
    {
        if contains_key(target, delta.added[a].key()) {
            assert(added[a as int] == delta.added@[a as int].deep_view());
            assert(has_key::<T>(t, T::view_key(added[a as int])));
            return Err(String::from_str("entity addition reuses an existing ID"));
        }
        a += 1;
    }
    let mut r: usize = 0;
    while r < delta.removed.len()
        invariant
            r <= delta.removed.len(),
            removed == delta.removed_view(),
            t == target.deep_view(),
            added == delta.added_view(),
            ds == delta.updated@,
            unique_keys::<T>(added),
            unique_updates::<T, D>(ds),
            removed.no_duplicates(),
            forall|q: int| 0 <= q < added.len() ==> !has_key::<T>(t, T::view_key(#[trigger] added[q])),
            forall|q: int| 0 <= q < r ==> has_key::<T>(t, #[trigger] removed[q]),
        decreases delta.removed.len() - r,
    {
        if !contains_key(target, &delta.removed[r]) {
            assert(removed[r as int] == delta.removed@[r as int]@);
            return Err(String::from_str("entity removal refers to an unknown ID"));
        }
        r += 1;
    }
    let mut u: usize = 0;
    while u < delta.updated.len()
        invariant
            u <= delta.updated.len(),
            ds == delta.updated@,
            removed == delta.removed_view(),
            t == target.deep_view(),
            added == delta.added_view(),
            unique_keys::<T>(added),
            unique_updates::<T, D>(ds),
            removed.no_duplicates(),
            forall|q: int| 0 <= q < added.len() ==> !has_key::<T>(t, T::view_key(#[trigger] added[q])),
            forall|q: int| 0 <= q < removed.len() ==> has_key::<T>(t, #[trigger] removed[q]),
            forall|q: int| 0 <= q < u ==> has_key::<T>(t, (#[trigger] ds[q]).update_key()) && !removed.contains(ds[q].update_key()),
        decreases delta.updated.len() - u,
    {
        let key = delta.updated[u].update_id();
        let present = contains_key(target, key);
        let is_removed = contains_key(&delta.removed, key);
        proof {
            lemma_has_key_contains::<String>(removed, key@);
            assert(keys_of::<String>(removed) =~= removed);
        }
        if !present || is_removed {
            return Err(String::from_str("entity update refers to an unknown or removed ID"));
        }
        u += 1;
    }
    if let Some(order) = &delta.order {
        let ghost o = order.deep_view();
        proof {
            assert forall|q: int| 0 <= q < removed.len() implies keys_of::<T>(t).contains(#[trigger] removed[q]) by {
                lemma_has_key_contains::<T>(t, removed[q]);
            }
            super::keyed::lemma_unique_contained_len(removed, keys_of::<T>(t));
            assert(keys_of::<String>(removed) =~= removed);
        }
        let mut members_ok = true;
        let mut m: usize = 0;
        while m < order.len()
            invariant
                m <= order.len(),
                o == order.deep_view(),
                added == delta.added_view(),
                removed == delta.removed_view(),
                keys_of::<String>(removed) == removed,
                t == target.deep_view(),
                members_ok == forall|q: int| 0 <= q < m ==> has_key::<T>(added, #[trigger] o[q])
                    || (has_key::<T>(t, o[q]) && !removed.contains(o[q])),
            decreases order.len() - m,
        {
            let key = &order[m];
            let member = contains_key(&delta.added, key) || (contains_key(target, key) && !contains_key(&delta.removed, key));
            proof {
                lemma_has_key_contains::<String>(removed, key@);
                assert(o[m as int] == key@);
                if !member {
                    assert(!(has_key::<T>(added, o[m as int]) || (has_key::<T>(t, o[m as int]) && !removed.contains(o[m as int]))));
                }
            }
            members_ok = members_ok && member;
            m += 1;
        }
        let kept = target.len() - delta.removed.len();
        match kept.checked_add(delta.added.len()) {
            Some(expected_len) => {
                validate_order(order, expected_len, members_ok)?;
            },
            None => {
                return Err(String::from_str("order is not a permutation of the resulting collection"));
            },
        }
    }
    Ok(())
}

/// The record for key `k` after the first `u` updates have been applied.
pub open spec fn staged_record<T: Entity, D: EntityUpdate<T>>(target: Seq<T::V>, ds: Seq<D>, k: Seq<char>) -> T::V {
    if has_update::<T, D>(ds, k) {
        find_update::<T, D>(ds, k).applied_to(find_by_key::<T>(target, k))
    } else {
        find_by_key::<T>(target, k)
    }
}

/// Applies a delta that `validate_entity_delta` accepted: removals, then
/// updates, then additions, then the explicit order if any.
pub fn apply_entity_delta<T: Entity, D: EntityUpdate<T>>(target: &mut Vec<T>, delta: &EntityCollectionDelta<T, D>)
    requires
        delta.valid_for(old(target).deep_view()),
        delta.updates_applicable(old(target).deep_view()),
        collection_wf::<T>(old(target).deep_view()),
        all_records_wf::<T>(delta.added_view()),
    ensures
        final(target).deep_view() == delta.applied(old(target).deep_view()),
        collection_wf::<T>(final(target).deep_view()),
{
    let ghost t = target.deep_view();
    let ghost rem = delta.removed_view();
    let ghost added = delta.added_view();
    let ghost ds = delta.updated@;
    let ghost tkeys = keys_of::<T>(t);
    if delta.is_empty() {
        proof {
            broadcast use vstd::seq_lib::group_filter_ensures;
            assert(rem.len() == 0 && added.len() == 0 && ds.len() == 0);
            super::keyed::lemma_filter_keeps_all(tkeys, not_in(rem));
            let a = delta.applied(t);
            assert forall|q: int| 0 <= q < t.len() implies #[trigger] a[q] == t[q] by {
                assert(a[q] == delta.result_record(t, tkeys[q]));
                lemma_find_by_key::<T>(t, q);
                assert(!has_key::<T>(added, tkeys[q]));
                assert(!has_update::<T, D>(ds, tkeys[q]));
            }
            assert(a =~= t);
        }
        return;
    }
    proof {
        assert(keys_of::<String>(rem) =~= rem);
    }
    // removals
    let mut kept: Vec<T> = Vec::new();
    let mut i: usize = 0;
    while i < target.len()
        invariant
            i <= target.len(),
            t == target.deep_view(),
            rem == delta.removed_view(),
            keys_of::<String>(rem) == rem,
            unique_keys::<T>(t),
            keys_of::<T>(kept.deep_view()) == keys_of::<T>(t.take(i as int)).filter(not_in(rem)),
            forall|q: int| 0 <= q < kept.deep_view().len() ==> has_key::<T>(t, T::view_key(#[trigger] kept.deep_view()[q]))
                && kept.deep_view()[q] == find_by_key::<T>(t, T::view_key(kept.deep_view()[q])),
        decreases target.len() - i,
    {
        let ghost before = kept.deep_view();
        let removed = contains_key(&delta.removed, target[i].key());
        proof {
            lemma_has_key_contains::<String>(rem, T::view_key(t[i as int]));
            reveal_with_fuel(Seq::<Seq<char>>::filter, 1);
            assert(keys_of::<T>(t.take(i + 1)).drop_last() =~= keys_of::<T>(t.take(i as int)));
            assert(keys_of::<T>(t.take(i + 1)).last() == T::view_key(t[i as int]));
            lemma_find_by_key::<T>(t, i as int);
        }
        if !removed {
            kept.push(target[i].duplicate());
            proof {
                assert(kept.deep_view() =~= before.push(t[i as int]));
                assert(keys_of::<T>(kept.deep_view()) =~= keys_of::<T>(before).push(T::view_key(t[i as int])));
            }
        }
        i += 1;
    }
    let ghost xkeys = tkeys.filter(not_in(rem));
    proof {
        assert(t.take(t.len() as int) =~= t);
        lemma_unique_keys_no_duplicates::<T>(t);
        lemma_filter_no_duplicates(tkeys, not_in(rem));
        lemma_unique_keys_no_duplicates::<T>(kept.deep_view());
    }
    // updates
    let mut u: usize = 0;
    while u < delta.updated.len()
        invariant
            u <= delta.updated.len(),
            t == old(target).deep_view(),
            ds == delta.updated@,
            rem == delta.removed_view(),
            tkeys == keys_of::<T>(t),
            xkeys == tkeys.filter(not_in(rem)),
            delta.valid_for(t),
            !delta.spec_is_empty(),
            delta.updates_applicable(t),
            collection_wf::<T>(t),
            unique_keys::<T>(kept.deep_view()),
            keys_of::<T>(kept.deep_view()) == xkeys,
            forall|q: int| 0 <= q < kept.deep_view().len() ==> has_key::<T>(t, T::view_key(#[trigger] kept.deep_view()[q]))
                && kept.deep_view()[q] == staged_record::<T, D>(t, ds.take(u as int), T::view_key(kept.deep_view()[q])),
        decreases delta.updated.len() - u,
    {
        let ghost before = kept.deep_view();
        let ghost k = ds[u as int].update_key();
        let key = delta.updated[u].update_id();
        let pos = position_of_key(&kept, key);
        proof {
            // the updated key exists and is kept
            assert(has_key::<T>(t, k) && !rem.contains(k));
            let w = choose|w: int| 0 <= w < t.len() && T::view_key(#[trigger] t[w]) == k;
            assert(tkeys[w] == k);
            tkeys.lemma_filter_contains(not_in(rem), w);
            let z = choose|z: int| 0 <= z < xkeys.len() && xkeys[z] == k;
            assert(T::view_key(before[z]) == k);
        }
        let p = match pos {
            Some(p) => p,
            None => {
                proof {
                    assert(false);
                }
                return;
            },
        };
        let ghost old_rec = before[p as int];
        proof {
            assert(T::view_key(old_rec) == k);
            // no earlier update touched this record
            if has_update::<T, D>(ds.take(u as int), k) {
                let w = choose|w: int| 0 <= w < u && (#[trigger] ds.take(u as int)[w]).update_key() == k;
                assert(ds.take(u as int)[w] == ds[w]);
                assert(ds[w].update_key() == ds[u as int].update_key());
            }
            assert(old_rec == find_by_key::<T>(t, k));
            assert(ds[u as int].applicable_to(find_by_key::<T>(t, k)));
            lemma_find_has_key::<T>(t, k);
            let c = choose|c: int| first_with_key::<T>(t, k, c) && find_by_key::<T>(t, k) == t[c];
            assert(T::record_wf(t[c]));
            ds[u as int].lemma_update(old_rec);
        }
        let mut item = kept.remove(p);
        delta.updated[u].apply_update(&mut item);
        kept.insert(p, item);
        proof {
            let kv = kept.deep_view();
            assert(kv =~= before.update(p as int, ds[u as int].applied_to(old_rec)));
            assert(keys_of::<T>(kv) =~= keys_of::<T>(before));
            assert forall|a: int, b: int| 0 <= a < u + 1 && 0 <= b < u + 1 && a != b implies (#[trigger] ds.take(u + 1)[a]).update_key() != (#[trigger] ds.take(u + 1)[b]).update_key() by {
                assert(ds.take(u + 1)[a] == ds[a] && ds.take(u + 1)[b] == ds[b]);
            }
            lemma_find_update_at::<T, D>(ds.take(u + 1), u as int);
            assert(ds.take(u + 1)[u as int] == ds[u as int]);
            assert forall|q: int| 0 <= q < kv.len() implies has_key::<T>(t, T::view_key(#[trigger] kv[q]))
                && kv[q] == staged_record::<T, D>(t, ds.take(u + 1), T::view_key(kv[q])) by {
                if q == p {
                } else {
                    assert(kv[q] == before[q]);
                    assert(T::view_key(before[q]) != T::view_key(before[p as int]));
                    lemma_find_update_prefix::<T, D>(ds, u as int, T::view_key(kv[q]));
                }
            }
            assert forall|a: int, b: int| 0 <= a < kv.len() && 0 <= b < kv.len() && a != b implies T::view_key(#[trigger] kv[a]) != T::view_key(#[trigger] kv[b]) by {
                assert(keys_of::<T>(kv)[a] == keys_of::<T>(before)[a]);
                assert(keys_of::<T>(kv)[b] == keys_of::<T>(before)[b]);
                assert(T::view_key(before[a]) != T::view_key(before[b]));
            }
        }
        u += 1;
    }
    proof {
        assert(ds.take(ds.len() as int) =~= ds);
    }
    // additions
    let ghost updated_part = kept.deep_view();
    let mut a: usize = 0;
    while a < delta.added.len()
        invariant
            a <= delta.added.len(),
            added == delta.added_view(),
            kept.deep_view() == updated_part + added.take(a as int),
        decreases delta.added.len() - a,
    {
        let ghost before = kept.deep_view();
        kept.push(delta.added[a].duplicate());
        proof {
            assert(kept.deep_view() =~= before.push(added[a as int]));
            assert(added.take(a + 1) =~= added.take(a as int).push(added[a as int]));
        }
        a += 1;
    }
    let ghost natural = xkeys + keys_of::<T>(added);
    proof {
        assert(added.take(added.len() as int) =~= added);
        let kv = kept.deep_view();
        assert(keys_of::<T>(kv) =~= natural);
        // every record is the result record of its key, and keys are unique
        assert forall|q: int| 0 <= q < kv.len() implies #[trigger] kv[q] == delta.result_record(t, T::view_key(kv[q]))
            && T::record_wf(kv[q]) by {
            if q < updated_part.len() {
                let k = T::view_key(kv[q]);
                assert(kv[q] == updated_part[q]);
                if has_key::<T>(added, k) {
                    let w = choose|w: int| 0 <= w < added.len() && T::view_key(#[trigger] added[w]) == k;
                    assert(!has_key::<T>(t, T::view_key(added[w])));
                }
                lemma_find_has_key::<T>(t, k);
                let c = choose|c: int| first_with_key::<T>(t, k, c) && find_by_key::<T>(t, k) == t[c];
                assert(T::record_wf(t[c]));
                if has_update::<T, D>(ds, k) {
                    let w = choose|w: int| 0 <= w < ds.len() && (#[trigger] ds[w]).update_key() == k;
                    lemma_find_update_at::<T, D>(ds, w);
                    find_update::<T, D>(ds, k).lemma_update(find_by_key::<T>(t, k));
                }
            } else {
                let w = q - updated_part.len();
                assert(kv[q] == added[w]);
                lemma_find_by_key::<T>(added, w);
            }
        }
        assert forall|p: int, q: int| 0 <= p < kv.len() && 0 <= q < kv.len() && p != q implies T::view_key(#[trigger] kv[p]) != T::view_key(#[trigger] kv[q]) by {
            let np = updated_part.len();
            if p < np && q < np {
                assert(kv[p] == updated_part[p] && kv[q] == updated_part[q]);
            } else if p >= np && q >= np {
                assert(kv[p] == added[p - np] && kv[q] == added[q - np]);
            } else {
                let (x, y) = if p < np { (p, q) } else { (q, p) };
                assert(kv[x] == updated_part[x]);
                assert(kv[y] == added[y - np]);
                assert(!has_key::<T>(t, T::view_key(added[y - np])));
                assert(has_key::<T>(t, T::view_key(updated_part[x])));
            }
        }
    }
    if let Some(order) = &delta.order {
        let ghost o = order.deep_view();
        let ghost kb = kept.deep_view();
        proof {
            assert forall|w: int| 0 <= w < rem.len() implies tkeys.contains(#[trigger] rem[w]) by {
                lemma_has_key_contains::<T>(t, rem[w]);
            }
            lemma_filter_removed_len(tkeys, rem);
            assert forall|w: int| 0 <= w < o.len() implies has_key::<T>(kb, #[trigger] o[w]) by {
                let x = o[w];
                lemma_has_key_contains::<T>(kb, x);
                lemma_has_key_contains::<T>(added, x);
                if has_key::<T>(added, x) {
                    let y = choose|y: int| 0 <= y < keys_of::<T>(added).len() && keys_of::<T>(added)[y] == x;
                    assert(natural[xkeys.len() + y] == x);
                } else {
                    assert(has_key::<T>(t, x) && !rem.contains(x));
                    lemma_has_key_contains::<T>(t, x);
                    let z = choose|z: int| 0 <= z < tkeys.len() && tkeys[z] == x;
                    tkeys.lemma_filter_contains(not_in(rem), z);
                    let y = choose|y: int| 0 <= y < xkeys.len() && xkeys[y] == x;
                    assert(natural[y] == x);
                }
            }
        }
        reorder_entities(&mut kept, order);
        proof {
            let kv = kept.deep_view();
            assert forall|q: int| 0 <= q < kv.len() implies #[trigger] kv[q] == delta.result_record(t, o[q]) && T::record_wf(kv[q]) by {
                assert(T::view_key(kv[q]) == o[q]);
                lemma_find_has_key::<T>(kb, o[q]);
                let i = choose|i: int| first_with_key::<T>(kb, o[q], i) && find_by_key::<T>(kb, o[q]) == kb[i];
                assert(kb[i] == delta.result_record(t, T::view_key(kb[i])));
            }
            assert(kv =~= delta.applied(t));
        }
    } else {
        proof {
            let kv = kept.deep_view();
            assert forall|q: int| 0 <= q < kv.len() implies #[trigger] kv[q] == delta.result_record(t, natural[q]) by {
                assert(keys_of::<T>(kv)[q] == natural[q]);
            }
            assert(kv =~= delta.applied(t));
        }
    }
    std::mem::swap(&mut kept, target);
}

/// Predicate: the record's key is absent from `s`.
pub open spec fn record_absent<T: Entity>(s: Seq<T::V>) -> spec_fn(T::V) -> bool {
    |v: T::V| !has_key::<T>(s, T::view_key(v))
}

/// Predicate: `base` has a record with the same key that differs.
pub open spec fn record_changed<T: Entity>(base: Seq<T::V>) -> spec_fn(T::V) -> bool {
    |v: T::V| has_key::<T>(base, T::view_key(v)) && find_by_key::<T>(base, T::view_key(v)) != v
}

/// Keys of `base` missing from `next`, in base order.
pub open spec fn spec_entity_removals<T: Entity>(base: Seq<T::V>, next: Seq<T::V>) -> Seq<Seq<char>> {
    keys_of::<T>(base).filter(key_absent::<T>(next))
}

/// Records of `next` whose key is new, in next order.
pub open spec fn spec_entity_additions<T: Entity>(base: Seq<T::V>, next: Seq<T::V>) -> Seq<T::V> {
    next.filter(record_absent::<T>(base))
}

/// Records of `next` that exist in `base` with different contents, in next order.
pub open spec fn spec_entity_changes<T: Entity>(base: Seq<T::V>, next: Seq<T::V>) -> Seq<T::V> {
    next.filter(record_changed::<T>(base))
}

/// The key order after removals and additions without an explicit order.
pub open spec fn spec_entity_natural_keys<T: Entity>(base: Seq<T::V>, next: Seq<T::V>) -> Seq<Seq<char>> {
    keys_of::<T>(base).filter(not_in(spec_entity_removals::<T>(base, next))) + keys_of::<T>(
        spec_entity_additions::<T>(base, next),
    )
}

/// The explicit order a diff carries: none when the natural order matches.
pub open spec fn spec_entity_order<T: Entity>(base: Seq<T::V>, next: Seq<T::V>) -> Option<Seq<Seq<char>>> {
    if spec_entity_natural_keys::<T>(base, next) == keys_of::<T>(next) {
        None
    } else {
        Some(keys_of::<T>(next))
    }
}

impl<T: Entity, D: EntityUpdate<T>> EntityCollectionDelta<T, D> {
    /// This delta is the one `diff_entities` computes from `base` to `next`.
    pub open spec fn is_diff_of(&self, base: Seq<T::V>, next: Seq<T::V>) -> bool {
        let changes = spec_entity_changes::<T>(base, next);
        &&& self.added_view() == spec_entity_additions::<T>(base, next)
        &&& self.removed_view() == spec_entity_removals::<T>(base, next)
        &&& self.order_view() == spec_entity_order::<T>(base, next)
        &&& self.updated@.len() == changes.len()
        &&& forall|j: int| 0 <= j < changes.len() ==> (#[trigger] self.updated@[j]).update_key() == T::view_key(changes[j])
            && self.updated@[j].is_diff_of(find_by_key::<T>(base, T::view_key(changes[j])), changes[j])
    }
}

/// Additions, per-record updates, removals and (when needed) the order that
/// turn `base` into `next`.
pub fn diff_entities<T: Entity, D: EntityUpdate<T>>(base: &Vec<T>, next: &Vec<T>) -> (r: EntityCollectionDelta<T, D>)
    ensures
        r.is_diff_of(base.deep_view(), next.deep_view()),
{
    let ghost b = base.deep_view();
    let ghost n = next.deep_view();
    let mut removed: Vec<String> = Vec::new();
    let mut i: usize = 0;
    while i < base.len()
        invariant
            i <= base.len(),
            b == base.deep_view(),
            n == next.deep_view(),
            removed.deep_view() == keys_of::<T>(b.take(i as int)).filter(key_absent::<T>(n)),
        decreases base.len() - i,
    {
        let ghost before = removed.deep_view();
        proof {
            reveal_with_fuel(Seq::<Seq<char>>::filter, 1);
            assert(keys_of::<T>(b.take(i + 1)).drop_last() =~= keys_of::<T>(b.take(i as int)));
            assert(keys_of::<T>(b.take(i + 1)).last() == T::view_key(b[i as int]));
        }
        if !contains_key(next, base[i].key()) {
            removed.push(base[i].key().clone());
            assert(removed.deep_view() =~= before.push(T::view_key(b[i as int])));
        }
        i += 1;
    }
    assert(b.take(b.len() as int) =~= b);
    let mut added: Vec<T> = Vec::new();
    let mut updated: Vec<D> = Vec::new();
    let ghost mut changes: Seq<T::V> = Seq::empty();
    let mut j: usize = 0;
    while j < next.len()
        invariant
            j <= next.len(),
            b == base.deep_view(),
            n == next.deep_view(),
            added.deep_view() == n.take(j as int).filter(record_absent::<T>(b)),
            changes == n.take(j as int).filter(record_changed::<T>(b)),
            updated@.len() == changes.len(),
            forall|q: int| 0 <= q < changes.len() ==> (#[trigger] updated@[q]).update_key() == T::view_key(changes[q])
                && updated@[q].is_diff_of(find_by_key::<T>(b, T::view_key(changes[q])), changes[q]),
        decreases next.len() - j,
    {
        let ghost before_added = added.deep_view();
        let ghost before_updated = updated@;
        proof {
            reveal(Seq::filter);
            assert(n.take(j + 1).drop_last() =~= n.take(j as int));
            assert(n.take(j + 1).last() == n[j as int]);
        }
        match position_of_key(base, next[j].key()) {
            Some(p) => {
                match D::compute(&base[p], &next[j]) {
                    Some(d) => {
                        updated.push(d);
                        proof {
                            changes = changes.push(n[j as int]);
                            assert(updated@ =~= before_updated.push(updated@[j as int - j as int + before_updated.len()]));
                        }
                    },
                    None => {},
                }
            },
            None => {
                added.push(next[j].duplicate());
                proof {
                    assert(added.deep_view() =~= before_added.push(n[j as int]));
                }
            },
        }
        proof {
            assert forall|q: int| 0 <= q < changes.len() implies (#[trigger] updated@[q]).update_key() == T::view_key(changes[q])
                && updated@[q].is_diff_of(find_by_key::<T>(b, T::view_key(changes[q])), changes[q]) by {
                if q < before_updated.len() {
                    assert(updated@[q] == before_updated[q]);
                }
            }
        }
        j += 1;
    }
    assert(n.take(n.len() as int) =~= n);
    let ghost rem = removed.deep_view();
    let ghost av = added.deep_view();
    let mut natural: Vec<String> = Vec::new();
    let mut k: usize = 0;
    while k < base.len()
        invariant
            k <= base.len(),
            b == base.deep_view(),
            rem == removed.deep_view(),
            natural.deep_view() == keys_of::<T>(b.take(k as int)).filter(not_in(rem)),
        decreases base.len() - k,
    {
        let ghost before = natural.deep_view();
        proof {
            reveal_with_fuel(Seq::<Seq<char>>::filter, 1);
            assert(keys_of::<T>(b.take(k + 1)).drop_last() =~= keys_of::<T>(b.take(k as int)));
            assert(keys_of::<T>(b.take(k + 1)).last() == T::view_key(b[k as int]));
            lemma_has_key_contains::<String>(rem, T::view_key(b[k as int]));
            assert(keys_of::<String>(rem) =~= rem);
        }
        if !contains_key(&removed, base[k].key()) {
            natural.push(base[k].key().clone());
            assert(natural.deep_view() =~= before.push(T::view_key(b[k as int])));
        }
        k += 1;
    }
    assert(b.take(b.len() as int) =~= b);
    let added_keys = collect_keys(&added);
    let mut m: usize = 0;
    let ghost kept = natural.deep_view();
    while m < added_keys.len()
        invariant
            m <= added_keys.len(),
            natural.deep_view() == kept + added_keys.deep_view().take(m as int),
        decreases added_keys.len() - m,
    {
        let ghost before = natural.deep_view();
        natural.push(added_keys[m].clone());
        proof {
            assert(natural.deep_view() =~= before.push(added_keys.deep_view()[m as int]));
            assert(added_keys.deep_view().take(m + 1) =~= added_keys.deep_view().take(m as int).push(added_keys.deep_view()[m as int]));
        }
        m += 1;
    }
    assert(added_keys.deep_view().take(added_keys.len() as int) =~= added_keys.deep_view());
    let next_keys = collect_keys(next);
    let order = if natural.same(&next_keys) { None } else { Some(next_keys) };
    EntityCollectionDelta { added, updated, removed, order }
}

/// Diff/apply round trip for keyed collections: for two collections with
/// unique keys and consistent records, the computed delta is valid against
/// `base`, every update applies, and applying it to `base` yields exactly
/// `next`; when the collections differ the delta is not empty.
pub proof fn lemma_entity_diff_roundtrip<T: Entity, D: EntityUpdate<T>>(
    base: Seq<T::V>,
    next: Seq<T::V>,
    d: EntityCollectionDelta<T, D>,
)
    requires
        collection_wf::<T>(base),
        collection_wf::<T>(next),
        d.is_diff_of(base, next),
    ensures
        d.valid_for(base),
        d.updates_applicable(base),
        all_records_wf::<T>(d.added_view()),
        d.applied(base) == next,
        base != next ==> !d.spec_is_empty(),
{
    broadcast use vstd::seq_lib::group_filter_ensures;
    let kb = keys_of::<T>(base);
    let kn = keys_of::<T>(next);
    let r = spec_entity_removals::<T>(base, next);
    let a = spec_entity_additions::<T>(base, next);
    let c = spec_entity_changes::<T>(base, next);
    let ka = keys_of::<T>(a);
    let x = kb.filter(not_in(r));
    let ds = d.updated@;
    lemma_unique_keys_no_duplicates::<T>(base);
    lemma_unique_keys_no_duplicates::<T>(next);
    super::keyed::lemma_filter_unique_keys::<T>(next, record_absent::<T>(base));
    super::keyed::lemma_filter_unique_keys::<T>(next, record_changed::<T>(base));
    lemma_unique_keys_no_duplicates::<T>(a);
    lemma_filter_no_duplicates(kb, key_absent::<T>(next));
    lemma_filter_no_duplicates(kb, not_in(r));
    // membership facts
    assert forall|v: T::V| a.contains(v) <==> (next.contains(v) && !has_key::<T>(base, T::view_key(v))) by {
        super::keyed::lemma_filter_contains_iff(next, record_absent::<T>(base), v);
    }
    assert forall|v: T::V| c.contains(v) <==> (next.contains(v) && has_key::<T>(base, T::view_key(v))
        && find_by_key::<T>(base, T::view_key(v)) != v) by {
        super::keyed::lemma_filter_contains_iff(next, record_changed::<T>(base), v);
    }
    assert forall|k: Seq<char>| r.contains(k) <==> (has_key::<T>(base, k) && !has_key::<T>(next, k)) by {
        super::keyed::lemma_filter_contains_iff(kb, key_absent::<T>(next), k);
        lemma_has_key_contains::<T>(base, k);
    }
    assert forall|k: Seq<char>| x.contains(k) <==> (has_key::<T>(base, k) && has_key::<T>(next, k)) by {
        super::keyed::lemma_filter_contains_iff(kb, not_in(r), k);
        lemma_has_key_contains::<T>(base, k);
    }
    assert forall|k: Seq<char>| kn.contains(k) <==> has_key::<T>(next, k) by {
        lemma_has_key_contains::<T>(next, k);
    }
    assert forall|k: Seq<char>| ka.contains(k) <==> (has_key::<T>(next, k) && !has_key::<T>(base, k)) by {
        lemma_has_key_contains::<T>(a, k);
        if has_key::<T>(a, k) {
            let i = choose|i: int| 0 <= i < a.len() && T::view_key(#[trigger] a[i]) == k;
            assert(a.contains(a[i]));
            let w = choose|w: int| 0 <= w < next.len() && next[w] == a[i];
            assert(T::view_key(next[w]) == k);
        }
        if has_key::<T>(next, k) && !has_key::<T>(base, k) {
            let i = choose|i: int| 0 <= i < next.len() && T::view_key(#[trigger] next[i]) == k;
            assert(next.contains(next[i]));
            assert(a.contains(next[i]));
            let w = choose|w: int| 0 <= w < a.len() && a[w] == next[i];
            assert(T::view_key(a[w]) == k);
        }
    }
    // counting
    super::keyed::lemma_partition_len(x, ka, kn);
    assert forall|i: int| 0 <= i < r.len() implies kb.contains(#[trigger] r[i]) by {
        assert(r.contains(r[i]));
        lemma_has_key_contains::<T>(base, r[i]);
    }
    lemma_filter_removed_len(kb, r);
    // updates address distinct changed records
    assert forall|j: int| 0 <= j < c.len() implies next.contains(#[trigger] c[j]) && has_key::<T>(base, T::view_key(c[j])) by {
        assert(c.contains(c[j]));
    }
    super::keyed::lemma_filter_unique_keys::<T>(next, record_changed::<T>(base));
    assert(unique_updates::<T, D>(ds)) by {
        assert forall|i: int, j: int| 0 <= i < ds.len() && 0 <= j < ds.len() && i != j implies (#[trigger] ds[i]).update_key() != (#[trigger] ds[j]).update_key() by {
            assert(T::view_key(c[i]) != T::view_key(c[j]));
        }
    }
    // every update round-trips its record
    assert forall|j: int| 0 <= j < ds.len() implies (#[trigger] ds[j]).applicable_to(find_by_key::<T>(base, ds[j].update_key()))
        && ds[j].applied_to(find_by_key::<T>(base, ds[j].update_key())) == c[j] by {
        let k = T::view_key(c[j]);
        assert(next.contains(c[j]));
        let w = choose|w: int| 0 <= w < next.len() && next[w] == c[j];
        assert(T::record_wf(next[w]));
        lemma_find_has_key::<T>(base, k);
        let i = choose|i: int| first_with_key::<T>(base, k, i) && find_by_key::<T>(base, k) == base[i];
        assert(T::record_wf(base[i]));
        ds[j].lemma_diff_roundtrip(find_by_key::<T>(base, k), c[j]);
    }
    assert(d.updates_applicable(base));
    assert forall|i: int| 0 <= i < a.len() implies T::record_wf(#[trigger] a[i]) by {
        assert(a.contains(a[i]));
        let w = choose|w: int| 0 <= w < next.len() && next[w] == a[i];
        assert(T::record_wf(next[w]));
    }
    // validity
    if !d.spec_is_empty() {
        assert forall|i: int| 0 <= i < a.len() implies !has_key::<T>(base, T::view_key(#[trigger] a[i])) by {
            assert(a.contains(a[i]));
        }
        assert forall|i: int| 0 <= i < r.len() implies has_key::<T>(base, #[trigger] r[i]) by {
            assert(r.contains(r[i]));
        }
        assert forall|i: int| 0 <= i < ds.len() implies has_key::<T>(base, (#[trigger] ds[i]).update_key())
            && !r.contains(ds[i].update_key()) by {
            assert(next.contains(c[i]));
            let w = choose|w: int| 0 <= w < next.len() && next[w] == c[i];
            assert(has_key::<T>(next, T::view_key(next[w])));
        }
        assert forall|i: int| 0 <= i < kn.len() implies has_key::<T>(a, #[trigger] kn[i])
            || (has_key::<T>(base, kn[i]) && !r.contains(kn[i])) by {
            assert(kn.contains(kn[i]));
            lemma_has_key_contains::<T>(a, kn[i]);
        }
    }
    assert(d.valid_for(base));
    // the applied collection is `next`
    assert(d.result_keys(base) == kn);
    let ap = d.applied(base);
    assert forall|q: int| 0 <= q < next.len() implies #[trigger] ap[q] == next[q] by {
        let k = T::view_key(next[q]);
        assert(kn[q] == k);
        lemma_find_by_key::<T>(next, q);
        if has_key::<T>(a, k) {
            lemma_find_has_key::<T>(a, k);
            let i = choose|i: int| first_with_key::<T>(a, k, i) && find_by_key::<T>(a, k) == a[i];
            assert(a.contains(a[i]));
            let w = choose|w: int| 0 <= w < next.len() && next[w] == a[i];
            assert(w == q);
        } else {
            assert(ka.contains(k) == false) by {
                lemma_has_key_contains::<T>(a, k);
            }
            assert(has_key::<T>(base, k));
            if has_update::<T, D>(ds, k) {
                let j = choose|j: int| 0 <= j < ds.len() && (#[trigger] ds[j]).update_key() == k;
                lemma_find_update_at::<T, D>(ds, j);
                assert(next.contains(c[j]));
                let w = choose|w: int| 0 <= w < next.len() && next[w] == c[j];
                assert(T::view_key(next[w]) == k);
                assert(w == q);
            } else {
                if find_by_key::<T>(base, k) != next[q] {
                    assert(next.contains(next[q]));
                    assert(c.contains(next[q]));
                    let j = choose|j: int| 0 <= j < c.len() && c[j] == next[q];
                    assert(ds[j].update_key() == k);
                }
            }
        }
    }
    assert(ap =~= next);
    if base != next && d.spec_is_empty() {
        assert(r.len() == 0 && a.len() == 0 && c.len() == 0);
        super::keyed::lemma_filter_keeps_all(kb, not_in(r));
        assert(ka =~= Seq::<Seq<char>>::empty());
        assert(x + ka =~= x);
        assert(kb == kn);
        assert forall|q: int| 0 <= q < next.len() implies next[q] == base[q] by {
            let k = T::view_key(next[q]);
            assert(next.contains(next[q]));
            assert(!a.contains(next[q]));
            assert(!c.contains(next[q]));
            assert(kb[q] == kn[q]);
            lemma_find_by_key::<T>(base, q);
        }
        assert(base =~= next);
    }
}

/// A filter that keeps no element is empty.
pub proof fn lemma_filter_keeps_none<A>(s: Seq<A>, p: spec_fn(A) -> bool)
    requires
        forall|i: int| 0 <= i < s.len() ==> !p(#[trigger] s[i]),
    ensures
        s.filter(p).len() == 0,
{
    if s.filter(p).len() > 0 {
        let x = s.filter(p)[0];
        assert(s.filter(p).contains(x));
        lemma_filter_contains_iff(s, p, x);
        let i = choose|i: int| 0 <= i < s.len() && s[i] == x;
        assert(!p(s[i]));
    }
}

/// Diffing a collection with unique keys against itself changes nothing:
/// no additions, updates, removals or order.
pub proof fn lemma_entity_diff_of_same<T: Entity, D: EntityUpdate<T>>(s: Seq<T::V>, d: EntityCollectionDelta<T, D>)
    requires
        unique_keys::<T>(s),
        d.is_diff_of(s, s),
    ensures
        d.spec_is_empty(),
{
    assert forall|i: int| 0 <= i < s.len() implies !record_absent::<T>(s)(#[trigger] s[i]) && !record_changed::<T>(s)(s[i]) by {
        lemma_find_by_key::<T>(s, i);
    }
    lemma_filter_keeps_none(s, record_absent::<T>(s));
    lemma_filter_keeps_none(s, record_changed::<T>(s));
    let k = keys_of::<T>(s);
    assert forall|i: int| 0 <= i < k.len() implies !key_absent::<T>(s)(#[trigger] k[i]) by {
        assert(T::view_key(s[i]) == k[i]);
    }
    lemma_filter_keeps_none(k, key_absent::<T>(s));
    let removals = spec_entity_removals::<T>(s, s);
    let additions = spec_entity_additions::<T>(s, s);
    assert(removals =~= Seq::<Seq<char>>::empty());
    assert(additions =~= Seq::<T::V>::empty());
    assert forall|i: int| 0 <= i < k.len() implies not_in(removals)(#[trigger] k[i]) by {}
    lemma_filter_keeps_all(k, not_in(removals));
    assert(keys_of::<T>(additions) =~= Seq::<Seq<char>>::empty());
    assert(spec_entity_natural_keys::<T>(s, s) =~= k);
    assert(d.added_view().len() == 0);
    assert(d.removed_view().len() == 0);
}

/// An empty collection delta leaves a collection with unique keys as it is.
pub proof fn lemma_empty_delta_applied<T: Entity, D: EntityUpdate<T>>(target: Seq<T::V>, d: EntityCollectionDelta<T, D>)
    requires
        unique_keys::<T>(target),
        d.spec_is_empty(),
    ensures
        d.applied(target) == target,
{
    let k = keys_of::<T>(target);
    assert(d.removed_view() =~= Seq::<Seq<char>>::empty());
    assert(d.added_view() =~= Seq::<T::V>::empty());
    assert forall|i: int| 0 <= i < k.len() implies not_in(d.removed_view())(#[trigger] k[i]) by {}
    lemma_filter_keeps_all(k, not_in(d.removed_view()));
    assert(keys_of::<T>(d.added_view()) =~= Seq::<Seq<char>>::empty());
    assert(d.result_keys(target) =~= k);
    assert forall|i: int| 0 <= i < target.len() implies d.result_record(target, #[trigger] k[i]) == target[i] by {
        lemma_find_by_key::<T>(target, i);
        assert(!has_key::<T>(d.added_view(), k[i]));
        assert(!has_update::<T, D>(d.updated@, k[i]));
    }
    assert(d.applied(target) =~= target);
}

/// A diff never resends a record the base already has: every added record
/// has a new key, and every update addresses a record of the base.
pub proof fn lemma_diff_adds_only_new_records<T: Entity, D: EntityUpdate<T>>(
    base: Seq<T::V>,
    next: Seq<T::V>,
    d: EntityCollectionDelta<T, D>,
)
    requires
        d.is_diff_of(base, next),
    ensures
        forall|i: int| 0 <= i < d.added_view().len() ==> !has_key::<T>(base, T::view_key(#[trigger] d.added_view()[i])),
        forall|j: int| 0 <= j < d.updated@.len() ==> has_key::<T>(base, (#[trigger] d.updated@[j]).update_key()),
{
    broadcast use vstd::seq_lib::group_filter_ensures;
    assert forall|i: int| 0 <= i < d.added_view().len() implies !has_key::<T>(base, T::view_key(#[trigger] d.added_view()[i])) by {
        next.lemma_filter_pred(record_absent::<T>(base), i);
    }
    let changes = spec_entity_changes::<T>(base, next);
    assert forall|j: int| 0 <= j < d.updated@.len() implies has_key::<T>(base, (#[trigger] d.updated@[j]).update_key()) by {
        next.lemma_filter_pred(record_changed::<T>(base), j);
        assert(record_changed::<T>(base)(changes[j]));
    }
}

} // verus!
