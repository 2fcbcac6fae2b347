//! Ordered string key/value tokens and their sparse deltas.

use vstd::prelude::*;
use super::field::FieldValue;
use super::keyed::{
    collect_keys, contains_key, find_by_key, key_absent, not_in, lemma_filter_removed_len, lemma_filter_no_duplicates,
    lemma_unique_keys_no_duplicates, lemma_has_key_contains, lemma_find_by_key, lemma_find_has_key, lemma_filter_unique_keys, lemma_filter_keeps_all, lemma_filter_contains_iff, lemma_partition_len, first_with_key, position_of_key, reorder_entities,
    has_key, keys_of, lemma_unique_contained_len, order_error, spec_order_valid,
    unique_keys, validate_order, validate_unique, Keyed,
};

verus! {

/// Model of one token: its key and value.
pub type TokenView = (Seq<char>, Seq<char>);

/// Changes to an ordered token list: values to set (existing or new keys),
/// keys to remove, and optionally the complete resulting key order.
#[derive(Debug, Clone, PartialEq, Eq, Default)]
pub struct ClientShellTokenDelta {
    pub set: Vec<(String, String)>,
    pub remove: Vec<String>,
    pub order: Option<Vec<String>>,
}

/// Number of set entries that introduce a key absent from `tokens`.
pub open spec fn added_token_count(tokens: Seq<TokenView>, set: Seq<TokenView>) -> int {
    keys_of::<(String, String)>(set).filter(key_absent::<(String, String)>(tokens)).len() as int
}

/// The key is named by the order of a valid delta: it is set, or it exists and is kept.
pub open spec fn token_order_member(tokens: Seq<TokenView>, set: Seq<TokenView>, remove: Seq<Seq<char>>, k: Seq<char>) -> bool {
    has_key::<(String, String)>(set, k) || (has_key::<(String, String)>(tokens, k) && !remove.contains(k))
}

/// The value of key `k` once the first entries of the set have been applied.
pub open spec fn staged_value(tokens: Seq<TokenView>, set_prefix: Seq<TokenView>, k: Seq<char>) -> Seq<char> {
    if has_key::<(String, String)>(set_prefix, k) {
        find_by_key::<(String, String)>(set_prefix, k).1
    } else {
        find_by_key::<(String, String)>(tokens, k).1
    }
}

/// Extending a prefix of a key-unique sequence by its next record leaves
/// lookups of other keys unchanged.
proof fn lemma_find_in_longer_prefix(set: Seq<TokenView>, j: int, x: Seq<char>)
    requires
        unique_keys::<(String, String)>(set),
        0 <= j < set.len(),
        x != set[j].0,
    ensures
        has_key::<(String, String)>(set.take(j + 1), x) == has_key::<(String, String)>(set.take(j), x),
        has_key::<(String, String)>(set.take(j), x) ==> find_by_key::<(String, String)>(set.take(j + 1), x)
            == find_by_key::<(String, String)>(set.take(j), x),
{
    let a = set.take(j);
    let b = set.take(j + 1);
    if has_key::<(String, String)>(b, x) {
        let w = choose|w: int| 0 <= w < b.len() && <(String, String)>::view_key(#[trigger] b[w]) == x;
        assert(w != j);
        assert(a[w] == b[w]);
    }
    if has_key::<(String, String)>(a, x) {
        let w = choose|w: int| 0 <= w < a.len() && <(String, String)>::view_key(#[trigger] a[w]) == x;
        assert(a[w] == b[w]);
        assert(unique_keys::<(String, String)>(a)) by {
            assert forall|p: int, q: int| 0 <= p < a.len() && 0 <= q < a.len() && p != q implies <(String, String)>::view_key(#[trigger] a[p]) != <(String, String)>::view_key(#[trigger] a[q]) by {
                assert(a[p] == set[p] && a[q] == set[q]);
            }
        }
        assert(unique_keys::<(String, String)>(b)) by {
            assert forall|p: int, q: int| 0 <= p < b.len() && 0 <= q < b.len() && p != q implies <(String, String)>::view_key(#[trigger] b[p]) != <(String, String)>::view_key(#[trigger] b[q]) by {
                assert(b[p] == set[p] && b[q] == set[q]);
            }
        }
        lemma_find_by_key::<(String, String)>(a, w);
        lemma_find_by_key::<(String, String)>(b, w);
    }
}

/// A token delta (values to set, keys to remove, optional order) can be
/// applied to `tokens`: no key is set or removed twice, removed keys exist and
/// are not also set, and an order (if any) is a permutation of the resulting keys.
pub open spec fn spec_token_delta_valid(set: Seq<TokenView>, remove: Seq<Seq<char>>, order: Option<Seq<Seq<char>>>, tokens: Seq<TokenView>) -> bool {
    &&& unique_keys::<(String, String)>(set)
    &&& remove.no_duplicates()
    &&& forall|i: int| 0 <= i < remove.len() ==> has_key::<(String, String)>(tokens, #[trigger] remove[i])
        && !has_key::<(String, String)>(set, remove[i])
    &&& match order {
        Some(o) => spec_order_valid(
            o,
            tokens.len() - remove.len() + added_token_count(tokens, set),
            forall|i: int| 0 <= i < o.len() ==> token_order_member(tokens, set, remove, #[trigger] o[i]),
        ),
        None => true,
    }
}

/// The message an invalid token delta is refused with, by the first check
/// it fails: unique set keys, unique removals, removals of existing and not
/// re-set keys, then the order.
pub open spec fn spec_token_delta_error(set: Seq<TokenView>, remove: Seq<Seq<char>>, order: Option<Seq<Seq<char>>>, tokens: Seq<TokenView>) -> Seq<char> {
    if !unique_keys::<(String, String)>(set) {
        "duplicate token set"@
    } else if !remove.no_duplicates() {
        "duplicate token removal"@
    } else if !(forall|i: int| 0 <= i < remove.len() ==> has_key::<(String, String)>(tokens, #[trigger] remove[i])
        && !has_key::<(String, String)>(set, remove[i])) {
        "unknown or conflicting token removal"@
    } else {
        match order {
            Some(o) => order_error(
                o,
                tokens.len() - remove.len() + added_token_count(tokens, set),
                forall|i: int| 0 <= i < o.len() ==> token_order_member(tokens, set, remove, #[trigger] o[i]),
            ),
            None => Seq::empty(),
        }
    }
}

/// Keys of the resulting tokens: the order if given, otherwise kept keys in
/// their old order followed by new keys in set order.
pub open spec fn spec_token_result_keys(set: Seq<TokenView>, remove: Seq<Seq<char>>, order: Option<Seq<Seq<char>>>, tokens: Seq<TokenView>) -> Seq<Seq<char>> {
    match order {
        Some(o) => o,
        None => keys_of::<(String, String)>(tokens).filter(not_in(remove))
            + keys_of::<(String, String)>(set).filter(key_absent::<(String, String)>(tokens)),
    }
}

/// The value a key holds afterwards: its set value if set, otherwise its old value.
pub open spec fn spec_token_result_value(set: Seq<TokenView>, tokens: Seq<TokenView>, k: Seq<char>) -> Seq<char> {
    if has_key::<(String, String)>(set, k) {
        find_by_key::<(String, String)>(set, k).1
    } else {
        find_by_key::<(String, String)>(tokens, k).1
    }
}

/// The tokens after applying a valid delta: the result keys, each with its value.
pub open spec fn spec_token_delta_applied(set: Seq<TokenView>, remove: Seq<Seq<char>>, order: Option<Seq<Seq<char>>>, tokens: Seq<TokenView>) -> Seq<TokenView> {
    spec_token_result_keys(set, remove, order, tokens).map_values(|k: Seq<char>| (k, spec_token_result_value(set, tokens, k)))
}

/// Keys of `base` that `next` no longer has, in base order.
pub open spec fn spec_token_removals(base: Seq<TokenView>, next: Seq<TokenView>) -> Seq<Seq<char>> {
    keys_of::<(String, String)>(base).filter(key_absent::<(String, String)>(next))
}

/// The token is new to `base` or carries a different value there.
pub open spec fn token_changed(base: Seq<TokenView>) -> spec_fn(TokenView) -> bool {
    |p: TokenView| !has_key::<(String, String)>(base, p.0) || find_by_key::<(String, String)>(base, p.0).1 != p.1
}

/// Tokens of `next` that are new or changed, in next order.
pub open spec fn spec_token_sets(base: Seq<TokenView>, next: Seq<TokenView>) -> Seq<TokenView> {
    next.filter(token_changed(base))
}

/// The key order that applying removals and sets yields without an explicit order.
pub open spec fn spec_token_natural_keys(base: Seq<TokenView>, next: Seq<TokenView>) -> Seq<Seq<char>> {
    keys_of::<(String, String)>(base).filter(not_in(spec_token_removals(base, next)))
        + keys_of::<(String, String)>(spec_token_sets(base, next)).filter(key_absent::<(String, String)>(base))
}

/// The explicit order a diff carries: none when the natural order already matches.
pub open spec fn spec_token_order(base: Seq<TokenView>, next: Seq<TokenView>) -> Option<Seq<Seq<char>>> {
    if spec_token_natural_keys(base, next) == keys_of::<(String, String)>(next) {
        None
    } else {
        Some(keys_of::<(String, String)>(next))
    }
}

/// The diff from `base` to `next` changes nothing.
pub open spec fn spec_token_diff_empty(base: Seq<TokenView>, next: Seq<TokenView>) -> bool {
    spec_token_removals(base, next).len() == 0 && spec_token_sets(base, next).len() == 0
        && spec_token_order(base, next) is None
}

impl ClientShellTokenDelta {
    pub open spec fn set_view(&self) -> Seq<TokenView> {
        self.set.deep_view()
    }

    pub open spec fn remove_view(&self) -> Seq<Seq<char>> {
        self.remove.deep_view()
    }

    pub open spec fn order_view(&self) -> Option<Seq<Seq<char>>> {
        self.order.deep_view()
    }

    /// The delta can be applied to `tokens` (see `spec_token_delta_valid`).
    pub open spec fn valid_for(&self, tokens: Seq<TokenView>) -> bool {
        spec_token_delta_valid(self.set_view(), self.remove_view(), self.order_view(), tokens)
    }

    /// The message the delta is refused with against `tokens`.
    pub open spec fn error_for(&self, tokens: Seq<TokenView>) -> Seq<char> {
        spec_token_delta_error(self.set_view(), self.remove_view(), self.order_view(), tokens)
    }

    /// The value a key holds afterwards: its set value if set, otherwise its old value.
    pub open spec fn result_value(&self, tokens: Seq<TokenView>, k: Seq<char>) -> Seq<char> {
        spec_token_result_value(self.set_view(), tokens, k)
    }

    /// The tokens after applying a valid delta.
    pub open spec fn applied(&self, tokens: Seq<TokenView>) -> Seq<TokenView> {
        spec_token_delta_applied(self.set_view(), self.remove_view(), self.order_view(), tokens)
    }

    /// A copy with the same contents.
    pub fn duplicate(&self) -> (r: Self)
        ensures
            r.set_view() == self.set_view(),
            r.remove_view() == self.remove_view(),
            r.order_view() == self.order_view(),
    {
        ClientShellTokenDelta { set: self.set.duplicate(), remove: self.remove.duplicate(), order: self.order.duplicate() }
    }

    pub fn is_empty(&self) -> (r: bool)
        ensures
            r == (self.set@.len() == 0 && self.remove@.len() == 0 && self.order is None),
    {
        self.set.len() == 0 && self.remove.len() == 0 && self.order.is_none()
    }

    /// Checks the delta against the current tokens.
    pub fn validate(&self, tokens: &Vec<(String, String)>) -> (r: Result<(), String>)
        ensures
            r is Ok <==> self.valid_for(tokens.deep_view()),
            r matches Err(e) ==> e@ == self.error_for(tokens.deep_view()),
    {
        proof {
            reveal_strlit("duplicate ");
            reveal_strlit("token set");
            reveal_strlit("duplicate token set");
            reveal_strlit("token removal");
            reveal_strlit("duplicate token removal");
            assert("duplicate "@ + "token set"@ =~= "duplicate token set"@);
            assert("duplicate "@ + "token removal"@ =~= "duplicate token removal"@);
        }
        let ghost t = tokens.deep_view();
        let ghost set = self.set_view();
        let ghost remove = self.remove_view();
        validate_unique(&self.set, "token set")?;
        let ru = validate_unique(&self.remove, "token removal");
        if ru.is_err() {
            proof {
                if remove.no_duplicates() {
                    assert(unique_keys::<String>(remove));
                }
            }
            return ru;
        }
        assert(remove.no_duplicates());
        let mut i: usize = 0;
        while i < self.remove.len()
            invariant
                i <= self.remove.len(),
                remove == self.remove_view(),
                set == self.set_view(),
                t == tokens.deep_view(),
                unique_keys::<(String, String)>(set),
                remove.no_duplicates(),
                forall|j: int| 0 <= j < i ==> has_key::<(String, String)>(t, #[trigger] remove[j]) && !has_key::<(String, String)>(set, remove[j]),
            decreases self.remove.len() - i,
        {
            let key = &self.remove[i];
            if !contains_key(tokens, key) || contains_key(&self.set, key) {
                assert(remove[i as int] == key@);
                assert(!(has_key::<(String, String)>(t, remove[i as int]) && !has_key::<(String, String)>(set, remove[i as int])));
                return Err(String::from_str("unknown or conflicting token removal"));
            }
            i += 1;
        }
        if let Some(order) = &self.order {
            let ghost o = order.deep_view();
            proof {
                assert forall|j: int| 0 <= j < remove.len() implies keys_of::<(String, String)>(t).contains(#[trigger] remove[j]) by {
                    let w = choose|w: int| 0 <= w < t.len() && <(String, String)>::view_key(#[trigger] t[w]) == remove[j];
                    assert(keys_of::<(String, String)>(t)[w] == remove[j]);
                }
                lemma_unique_contained_len(remove, keys_of::<(String, String)>(t));
            }
            let mut added: usize = 0;
            let mut s: usize = 0;
            while s < self.set.len()
                invariant
                    s <= self.set.len(),
                    set == self.set_view(),
                    t == tokens.deep_view(),
                    added as int == keys_of::<(String, String)>(set.take(s as int)).filter(key_absent::<(String, String)>(t)).len(),
                    added <= s,
                decreases self.set.len() - s,
            {
                proof {
                    reveal_with_fuel(Seq::<Seq<char>>::filter, 1);
                    assert(keys_of::<(String, String)>(set.take(s + 1)).drop_last() =~= keys_of::<(String, String)>(set.take(s as int)));
                }
                if !contains_key(tokens, &self.set[s].0) {
                    added += 1;
                }
                s += 1;
            }
            assert(set.take(set.len() as int) =~= set);
            let mut members_ok = true;
            let mut m: usize = 0;
            while m < order.len()
                invariant
                    m <= order.len(),
                    o == order.deep_view(),
                    set == self.set_view(),
                    remove == self.remove_view(),
                    t == tokens.deep_view(),
                    members_ok == forall|j: int| 0 <= j < m ==> token_order_member(t, set, remove, #[trigger] o[j]),
                decreases order.len() - m,
            {
                let key = &order[m];
                let member = contains_key(&self.set, key) || (contains_key(tokens, key) && !contains_key(&self.remove, key));
                proof {
                    assert(has_key::<String>(remove, key@) == remove.contains(key@)) by {
                        if remove.contains(key@) {
                            let w = choose|w: int| 0 <= w < remove.len() && remove[w] == key@;
                            assert(<String>::view_key(remove[w]) == key@);
                        }
                    }
                    if !member {
                        assert(!token_order_member(t, set, remove, o[m as int]));
                    }
                }
                members_ok = members_ok && member;
                m += 1;
            }
            let kept = tokens.len() - self.remove.len();
            let expected = kept.checked_add(added);
            match expected {
                Some(expected_len) => {
                    validate_order(order, expected_len, members_ok)?;
                },
                None => {
                    return Err(String::from_str("order is not a permutation of the resulting collection"));
                },
            }
        }
        Ok(())
    }

    /// Applies a delta that `validate` accepted: removals, then value updates
    /// and insertions in set order, then the explicit order if any.
    pub fn apply_validated(&self, tokens: &mut Vec<(String, String)>)
        requires
            self.valid_for(old(tokens).deep_view()),
            unique_keys::<(String, String)>(old(tokens).deep_view()),
        ensures
            final(tokens).deep_view() == self.applied(old(tokens).deep_view()),
            unique_keys::<(String, String)>(final(tokens).deep_view()),
    {
        let ghost t = tokens.deep_view();
        let ghost set = self.set_view();
        let ghost rem = self.remove_view();
        let ghost tkeys = keys_of::<(String, String)>(t);
        proof {
            assert(keys_of::<String>(rem) =~= rem);
        }
        let mut kept: Vec<(String, String)> = Vec::new();
        let mut i: usize = 0;
        while i < tokens.len()
            invariant
                i <= tokens.len(),
                t == tokens.deep_view(),
                rem == self.remove_view(),
                keys_of::<String>(rem) == rem,
                unique_keys::<(String, String)>(t),
                keys_of::<(String, String)>(kept.deep_view()) == keys_of::<(String, String)>(t.take(i as int)).filter(not_in(rem)),
                forall|q: int| 0 <= q < kept.deep_view().len() ==> has_key::<(String, String)>(t, (#[trigger] kept.deep_view()[q]).0)
                    && kept.deep_view()[q] == find_by_key::<(String, String)>(t, kept.deep_view()[q].0),
            decreases tokens.len() - i,
        {
            let ghost before = kept.deep_view();
            let k = &tokens[i].0;
            let removed = contains_key(&self.remove, k);
            proof {
                lemma_has_key_contains::<String>(rem, k@);
                reveal_with_fuel(Seq::<Seq<char>>::filter, 1);
                assert(keys_of::<(String, String)>(t.take(i + 1)).drop_last() =~= keys_of::<(String, String)>(t.take(i as int)));
                assert(keys_of::<(String, String)>(t.take(i + 1)).last() == t[i as int].0);
                lemma_find_by_key::<(String, String)>(t, i as int);
            }
            if !removed {
                kept.push(tokens[i].duplicate());
                proof {
                    assert(kept.deep_view() =~= before.push(t[i as int]));
                    assert(keys_of::<(String, String)>(kept.deep_view()) =~= keys_of::<(String, String)>(before).push(t[i as int].0));
                }
            }
            i += 1;
        }
        proof {
            assert(t.take(t.len() as int) =~= t);
            lemma_unique_keys_no_duplicates::<(String, String)>(t);
            lemma_filter_no_duplicates(tkeys, not_in(rem));
            lemma_unique_keys_no_duplicates::<(String, String)>(kept.deep_view());
            assert forall|q: int| 0 <= q < kept.deep_view().len() implies (#[trigger] kept.deep_view()[q]).1 == staged_value(t, set.take(0), kept.deep_view()[q].0) by {
            }
            assert(keys_of::<(String, String)>(set.take(0)).filter(key_absent::<(String, String)>(t)) =~= Seq::<Seq<char>>::empty()) by {
                reveal_with_fuel(Seq::<Seq<char>>::filter, 1);
            }
            assert(keys_of::<(String, String)>(kept.deep_view()) =~= tkeys.filter(not_in(rem)) + keys_of::<(String, String)>(set.take(0)).filter(key_absent::<(String, String)>(t)));
        }
        let mut j: usize = 0;
        while j < self.set.len()
            invariant
                j <= self.set.len(),
                t == old(tokens).deep_view(),
                set == self.set_view(),
                rem == self.remove_view(),
                tkeys == keys_of::<(String, String)>(t),
                self.valid_for(t),
                unique_keys::<(String, String)>(t),
                unique_keys::<(String, String)>(kept.deep_view()),
                keys_of::<(String, String)>(kept.deep_view()) == tkeys.filter(not_in(rem)) + keys_of::<(String, String)>(set.take(j as int)).filter(key_absent::<(String, String)>(t)),
                forall|q: int| 0 <= q < kept.deep_view().len() ==> (#[trigger] kept.deep_view()[q]).1 == staged_value(t, set.take(j as int), kept.deep_view()[q].0),
            decreases self.set.len() - j,
        {
            let ghost before = kept.deep_view();
            let ghost k = set[j as int].0;
            let ghost tpart = tkeys.filter(not_in(rem));
            let ghost npart = keys_of::<(String, String)>(set.take(j as int)).filter(key_absent::<(String, String)>(t));
            let pos = position_of_key(&kept, &self.set[j].0);
            proof {
                reveal_with_fuel(Seq::<Seq<char>>::filter, 1);
                assert(keys_of::<(String, String)>(set.take(j + 1)).drop_last() =~= keys_of::<(String, String)>(set.take(j as int)));
                assert(keys_of::<(String, String)>(set.take(j + 1)).last() == k);
                assert(set.take(j + 1)[j as int] == set[j as int]);
                // k is not among the new keys collected so far
                if npart.contains(k) {
                    keys_of::<(String, String)>(set.take(j as int)).lemma_filter_contains_rev(key_absent::<(String, String)>(t), k);
                    let w = choose|w: int| 0 <= w < j && keys_of::<(String, String)>(set.take(j as int))[w] == k;
                    assert(set[w].0 == set[j as int].0);
                }
                // k (a set key) is never removed
                if rem.contains(k) {
                    let w = choose|w: int| 0 <= w < rem.len() && rem[w] == k;
                    assert(!has_key::<(String, String)>(set, rem[w]));
                    assert(<(String, String)>::view_key(set[j as int]) == k);
                }
                lemma_has_key_contains::<(String, String)>(t, k);
                lemma_has_key_contains::<(String, String)>(kept.deep_view(), k);
                lemma_has_key_contains::<(String, String)>(set.take(j + 1), k);
                assert(set.take(j + 1)[j as int].0 == k);
                assert(has_key::<(String, String)>(set.take(j + 1), k));
                assert forall|p: int, q: int| 0 <= p < j + 1 && 0 <= q < j + 1 && p != q implies <(String, String)>::view_key(#[trigger] set.take(j + 1)[p]) != <(String, String)>::view_key(#[trigger] set.take(j + 1)[q]) by {
                    assert(set.take(j + 1)[p] == set[p] && set.take(j + 1)[q] == set[q]);
                }
                lemma_find_by_key::<(String, String)>(set.take(j + 1), j as int);
                if has_key::<(String, String)>(t, k) {
                    let w = choose|w: int| 0 <= w < tkeys.len() && tkeys[w] == k;
                    tkeys.lemma_filter_contains(not_in(rem), w);
                    assert(keys_of::<(String, String)>(kept.deep_view()).contains(k)) by {
                        let z = choose|z: int| 0 <= z < tpart.len() && tpart[z] == k;
                        assert(keys_of::<(String, String)>(kept.deep_view())[z] == k);
                    }
                } else {
                    if keys_of::<(String, String)>(kept.deep_view()).contains(k) {
                        let z = choose|z: int| 0 <= z < keys_of::<(String, String)>(kept.deep_view()).len() && keys_of::<(String, String)>(kept.deep_view())[z] == k;
                        if z < tpart.len() {
                            assert(tpart.contains(k));
                            tkeys.lemma_filter_contains_rev(not_in(rem), k);
                        } else {
                            assert(npart[z - tpart.len()] == k);
                        }
                    }
                }
            }
            match pos {
                Some(p) => {
                    kept.set(p, self.set[j].duplicate());
                    proof {
                        assert(kept.deep_view() =~= before.update(p as int, set[j as int]));
                        assert(keys_of::<(String, String)>(kept.deep_view()) =~= keys_of::<(String, String)>(before));
                        assert(has_key::<(String, String)>(t, k));
                        assert(keys_of::<(String, String)>(set.take(j + 1)).filter(key_absent::<(String, String)>(t)) =~= npart);
                    }
                },
                None => {
                    kept.push(self.set[j].duplicate());
                    proof {
                        assert(!has_key::<(String, String)>(t, k));
                        assert(kept.deep_view() =~= before.push(set[j as int]));
                        assert(keys_of::<(String, String)>(kept.deep_view()) =~= keys_of::<(String, String)>(before).push(k));
                        assert(keys_of::<(String, String)>(set.take(j + 1)).filter(key_absent::<(String, String)>(t)) =~= npart.push(k));
                        assert(!keys_of::<(String, String)>(before).contains(k));
                    }
                },
            }
            proof {
                let kv = kept.deep_view();
                assert forall|q: int| 0 <= q < kv.len() implies (#[trigger] kv[q]).1 == staged_value(t, set.take(j + 1), kv[q].0) by {
                    if kv[q].0 == k {
                        if q < before.len() {
                            assert(<(String, String)>::view_key(before[q]) == k);
                            assert(q == pos.unwrap());
                        }
                    } else {
                        lemma_find_in_longer_prefix(set, j as int, kv[q].0);
                        if q < before.len() {
                            assert(kv[q] == before[q]);
                        }
                    }
                }
                assert forall|p: int, q: int| 0 <= p < kv.len() && 0 <= q < kv.len() && p != q implies <(String, String)>::view_key(#[trigger] kv[p]) != <(String, String)>::view_key(#[trigger] kv[q]) by {
                    if p < before.len() && q < before.len() {
                        if pos is Some {
                            let pp = pos.unwrap() as int;
                            if p != pp && q != pp {
                                assert(kv[p] == before[p] && kv[q] == before[q]);
                            } else if p == pp {
                                assert(kv[q] == before[q]);
                                assert(<(String, String)>::view_key(before[pp]) == k);
                            } else {
                                assert(kv[p] == before[p]);
                                assert(<(String, String)>::view_key(before[pp]) == k);
                            }
                        } else {
                            assert(kv[p] == before[p] && kv[q] == before[q]);
                        }
                    } else if p < before.len() {
                        assert(kv[p] == before[p]);
                        assert(keys_of::<(String, String)>(before)[p] == before[p].0);
                    } else {
                        assert(kv[q] == before[q]);
                        assert(keys_of::<(String, String)>(before)[q] == before[q].0);
                    }
                }
            }
            j += 1;
        }
        proof {
            assert(set.take(set.len() as int) =~= set);
        }
        let ghost natural = keys_of::<(String, String)>(kept.deep_view());
        if let Some(order) = &self.order {
            let ghost o = order.deep_view();
            proof {
                lemma_unique_keys_no_duplicates::<(String, String)>(t);
                assert forall|w: int| 0 <= w < rem.len() implies tkeys.contains(#[trigger] rem[w]) by {
                    lemma_has_key_contains::<(String, String)>(t, rem[w]);
                }
                lemma_filter_removed_len(tkeys, rem);
                assert forall|w: int| 0 <= w < o.len() implies has_key::<(String, String)>(kept.deep_view(), #[trigger] o[w]) by {
                    let x = o[w];
                    assert(token_order_member(t, set, rem, x));
                    lemma_has_key_contains::<(String, String)>(kept.deep_view(), x);
                    lemma_has_key_contains::<(String, String)>(t, x);
                    lemma_has_key_contains::<(String, String)>(set, x);
                    if has_key::<(String, String)>(t, x) && !rem.contains(x) {
                        let z = choose|z: int| 0 <= z < tkeys.len() && tkeys[z] == x;
                        tkeys.lemma_filter_contains(not_in(rem), z);
                        let y = choose|y: int| 0 <= y < tkeys.filter(not_in(rem)).len() && tkeys.filter(not_in(rem))[y] == x;
                        assert(natural[y] == x);
                    } else if has_key::<(String, String)>(t, x) {
                        let ww = choose|ww: int| 0 <= ww < rem.len() && rem[ww] == x;
                        assert(!has_key::<(String, String)>(set, rem[ww]));
                    } else {
                        let z = choose|z: int| 0 <= z < keys_of::<(String, String)>(set).len() && keys_of::<(String, String)>(set)[z] == x;
                        keys_of::<(String, String)>(set).lemma_filter_contains(key_absent::<(String, String)>(t), z);
                        let np = keys_of::<(String, String)>(set).filter(key_absent::<(String, String)>(t));
                        let y = choose|y: int| 0 <= y < np.len() && np[y] == x;
                        assert(natural[tkeys.filter(not_in(rem)).len() + y] == x);
                    }
                }
            }
            let ghost kb = kept.deep_view();
            reorder_entities(&mut kept, order);
            proof {
                let kv = kept.deep_view();
                assert forall|q: int| 0 <= q < kv.len() implies #[trigger] kv[q] == (o[q], self.result_value(t, o[q])) by {
                    assert(<(String, String)>::view_key(kv[q]) == o[q]);
                    lemma_find_has_key::<(String, String)>(kb, o[q]);
                    let i = choose|i: int| first_with_key::<(String, String)>(kb, o[q], i) && find_by_key::<(String, String)>(kb, o[q]) == kb[i];
                    assert(kb[i].1 == staged_value(t, set.take(set.len() as int), kb[i].0));
                }
                assert(kv =~= self.applied(t));
            }
        } else {
            proof {
                let kv = kept.deep_view();
                assert forall|q: int| 0 <= q < kv.len() implies #[trigger] kv[q] == (natural[q], self.result_value(t, natural[q])) by {
                    assert(natural[q] == kv[q].0);
                }
                assert(kv =~= self.applied(t));
            }
        }
        std::mem::swap(&mut kept, tokens);
    }

    /// The sparse change from `base` to `next`, or `None` when nothing changed.
    pub fn diff(base: &Vec<(String, String)>, next: &Vec<(String, String)>) -> (r: Option<Self>)
        ensures
            base.deep_view() == next.deep_view() ==> r is None,
            base.deep_view() != next.deep_view() ==> (r is None <==> spec_token_diff_empty(base.deep_view(), next.deep_view())),
            r matches Some(d) ==> d.set_view() == spec_token_sets(base.deep_view(), next.deep_view())
                && d.remove_view() == spec_token_removals(base.deep_view(), next.deep_view())
                && d.order_view() == spec_token_order(base.deep_view(), next.deep_view()),
    {
        if base.same(next) {
            return None;
        }
        let ghost b = base.deep_view();
        let ghost n = next.deep_view();
        let mut remove: Vec<String> = Vec::new();
        let mut i: usize = 0;
        while i < base.len()
            invariant
                i <= base.len(),
                b == base.deep_view(),
                n == next.deep_view(),
                remove.deep_view() == keys_of::<(String, String)>(b.take(i as int)).filter(key_absent::<(String, String)>(n)),
            decreases base.len() - i,
        {
            let ghost before = remove.deep_view();
            proof {
                reveal_with_fuel(Seq::<Seq<char>>::filter, 1);
                assert(keys_of::<(String, String)>(b.take(i + 1)).drop_last() =~= keys_of::<(String, String)>(b.take(i as int)));
                assert(keys_of::<(String, String)>(b.take(i + 1)).last() == b[i as int].0);
            }
            if !contains_key(next, &base[i].0) {
                remove.push(base[i].0.clone());
                assert(remove.deep_view() =~= before.push(b[i as int].0));
            }
            i += 1;
        }
        assert(b.take(b.len() as int) =~= b);
        let mut set: Vec<(String, String)> = Vec::new();
        let mut j: usize = 0;
        while j < next.len()
            invariant
                j <= next.len(),
                b == base.deep_view(),
                n == next.deep_view(),
                set.deep_view() == n.take(j as int).filter(token_changed(b)),
            decreases next.len() - j,
        {
            let ghost before = set.deep_view();
            proof {
                reveal_with_fuel(Seq::<TokenView>::filter, 1);
                assert(n.take(j + 1).drop_last() =~= n.take(j as int));
                assert(n.take(j + 1).last() == n[j as int]);
            }
            let changed = match position_of_key(base, &next[j].0) {
                Some(p) => !base[p].1.same(&next[j].1),
                None => true,
            };
            if changed {
                set.push(next[j].duplicate());
                assert(set.deep_view() =~= before.push(n[j as int]));
            }
            j += 1;
        }
        assert(n.take(n.len() as int) =~= n);
        let ghost rem = remove.deep_view();
        let ghost sv = set.deep_view();
        // natural order: kept base keys, then keys new to base in set order
        let mut natural: Vec<String> = Vec::new();
        let mut k: usize = 0;
        while k < base.len()
            invariant
                k <= base.len(),
                b == base.deep_view(),
                rem == remove.deep_view(),
                natural.deep_view() == keys_of::<(String, String)>(b.take(k as int)).filter(not_in(rem)),
            decreases base.len() - k,
        {
            let ghost before = natural.deep_view();
            proof {
                reveal_with_fuel(Seq::<Seq<char>>::filter, 1);
                assert(keys_of::<(String, String)>(b.take(k + 1)).drop_last() =~= keys_of::<(String, String)>(b.take(k as int)));
                assert(keys_of::<(String, String)>(b.take(k + 1)).last() == b[k as int].0);
                lemma_has_key_contains::<String>(rem, b[k as int].0);
                assert(keys_of::<String>(rem) =~= rem);
            }
            if !contains_key(&remove, &base[k].0) {
                natural.push(base[k].0.clone());
                assert(natural.deep_view() =~= before.push(b[k as int].0));
            }
            k += 1;
        }
        assert(b.take(b.len() as int) =~= b);
        let ghost kept = natural.deep_view();
        let mut m: usize = 0;
        while m < set.len()
            invariant
                m <= set.len(),
                b == base.deep_view(),
                sv == set.deep_view(),
                natural.deep_view() == kept + keys_of::<(String, String)>(sv.take(m as int)).filter(key_absent::<(String, String)>(b)),
            decreases set.len() - m,
        {
            let ghost before = natural.deep_view();
            proof {
                reveal_with_fuel(Seq::<Seq<char>>::filter, 1);
                assert(keys_of::<(String, String)>(sv.take(m + 1)).drop_last() =~= keys_of::<(String, String)>(sv.take(m as int)));
                assert(keys_of::<(String, String)>(sv.take(m + 1)).last() == sv[m as int].0);
            }
            if !contains_key(base, &set[m].0) {
                natural.push(set[m].0.clone());
                assert(natural.deep_view() =~= before.push(sv[m as int].0));
            }
            m += 1;
        }
        assert(sv.take(sv.len() as int) =~= sv);
        let next_keys = collect_keys(next);
        let order = if natural.same(&next_keys) { None } else { Some(next_keys) };
        let delta = ClientShellTokenDelta { set, remove, order };
        if delta.is_empty() {
            None
        } else {
            Some(delta)
        }
    }
}

/// Diff/apply round trip for token lists: when both lists have unique keys
/// and differ, the diff is a non-empty delta that is valid against `base`, and
/// applying it to `base` yields exactly `next`.
pub proof fn lemma_token_diff_roundtrip(base: Seq<TokenView>, next: Seq<TokenView>)
    requires
        unique_keys::<(String, String)>(base),
        unique_keys::<(String, String)>(next),
    ensures
        base != next ==> !spec_token_diff_empty(base, next),
        spec_token_delta_valid(spec_token_sets(base, next), spec_token_removals(base, next), spec_token_order(base, next), base),
        spec_token_delta_applied(spec_token_sets(base, next), spec_token_removals(base, next), spec_token_order(base, next), base) == next,
{
    broadcast use vstd::seq_lib::group_filter_ensures;
    let kb = keys_of::<(String, String)>(base);
    let kn = keys_of::<(String, String)>(next);
    let r = spec_token_removals(base, next);
    let st = spec_token_sets(base, next);
    let ks = keys_of::<(String, String)>(st);
    let o = spec_token_order(base, next);
    let x = kb.filter(not_in(r));
    let y = ks.filter(key_absent::<(String, String)>(base));
    lemma_unique_keys_no_duplicates::<(String, String)>(base);
    lemma_unique_keys_no_duplicates::<(String, String)>(next);
    lemma_filter_unique_keys::<(String, String)>(next, token_changed(base));
    lemma_unique_keys_no_duplicates::<(String, String)>(st);
    lemma_filter_no_duplicates(kb, key_absent::<(String, String)>(next));
    lemma_filter_no_duplicates(kb, not_in(r));
    lemma_filter_no_duplicates(ks, key_absent::<(String, String)>(base));
    // key-level facts
    assert forall|k: Seq<char>| has_key::<(String, String)>(st, k) implies has_key::<(String, String)>(next, k) by {
        {
            let i = choose|i: int| 0 <= i < st.len() && <(String, String)>::view_key(#[trigger] st[i]) == k;
            assert(st.contains(st[i]));
            next.lemma_filter_contains_rev(token_changed(base), st[i]);
            let w = choose|w: int| 0 <= w < next.len() && next[w] == st[i];
            assert(<(String, String)>::view_key(next[w]) == k);
        }
    }
    assert forall|k: Seq<char>| has_key::<(String, String)>(next, k) && !has_key::<(String, String)>(base, k) implies has_key::<(String, String)>(st, k) by {
        {
            let i = choose|i: int| 0 <= i < next.len() && <(String, String)>::view_key(#[trigger] next[i]) == k;
            next.lemma_filter_contains(token_changed(base), i);
            let w = choose|w: int| 0 <= w < st.len() && st[w] == next[i];
            assert(<(String, String)>::view_key(st[w]) == k);
        }
    }
    assert forall|k: Seq<char>| r.contains(k) <==> (has_key::<(String, String)>(base, k) && !has_key::<(String, String)>(next, k)) by {
        lemma_filter_contains_iff(kb, key_absent::<(String, String)>(next), k);
        lemma_has_key_contains::<(String, String)>(base, k);
    }
    assert forall|k: Seq<char>| x.contains(k) <==> (has_key::<(String, String)>(base, k) && has_key::<(String, String)>(next, k)) by {
        lemma_filter_contains_iff(kb, not_in(r), k);
        lemma_has_key_contains::<(String, String)>(base, k);
    }
    assert forall|k: Seq<char>| y.contains(k) <==> (has_key::<(String, String)>(next, k) && !has_key::<(String, String)>(base, k)) by {
        lemma_filter_contains_iff(ks, key_absent::<(String, String)>(base), k);
        lemma_has_key_contains::<(String, String)>(st, k);
    }
    assert forall|k: Seq<char>| kn.contains(k) <==> has_key::<(String, String)>(next, k) by {
        lemma_has_key_contains::<(String, String)>(next, k);
    }
    // counting: kept keys plus new keys partition the next keys
    lemma_partition_len(x, y, kn);
    assert forall|i: int| 0 <= i < r.len() implies kb.contains(#[trigger] r[i]) by {
        assert(r.contains(r[i]));
        lemma_has_key_contains::<(String, String)>(base, r[i]);
    }
    lemma_filter_removed_len(kb, r);
    assert(kn.len() == base.len() - r.len() + added_token_count(base, st));
    // validity
    assert forall|i: int| 0 <= i < r.len() implies has_key::<(String, String)>(base, #[trigger] r[i])
        && !has_key::<(String, String)>(st, r[i]) by {
        assert(r.contains(r[i]));
    }
    assert forall|i: int| 0 <= i < kn.len() implies token_order_member(base, st, r, #[trigger] kn[i]) by {
        assert(kn.contains(kn[i]));
    }
    assert(spec_token_delta_valid(st, r, o, base));
    // the result keys are the next keys
    let rk = spec_token_result_keys(st, r, o, base);
    assert(rk == kn);
    // each value is the next value
    let applied = spec_token_delta_applied(st, r, o, base);
    assert forall|i: int| 0 <= i < next.len() implies #[trigger] applied[i] == next[i] by {
        let k = next[i].0;
        assert(kn[i] == k);
        lemma_find_by_key::<(String, String)>(next, i);
        if has_key::<(String, String)>(st, k) {
            lemma_find_has_key::<(String, String)>(st, k);
            let j = choose|j: int| first_with_key::<(String, String)>(st, k, j) && find_by_key::<(String, String)>(st, k) == st[j];
            assert(st.contains(st[j]));
            next.lemma_filter_contains_rev(token_changed(base), st[j]);
            let w = choose|w: int| 0 <= w < next.len() && next[w] == st[j];
            assert(w == i);
        } else {
            if token_changed(base)(next[i]) {
                next.lemma_filter_contains(token_changed(base), i);
                let w = choose|w: int| 0 <= w < st.len() && st[w] == next[i];
                assert(<(String, String)>::view_key(st[w]) == k);
            }
        }
    }
    assert(applied =~= next);
    // a non-empty diff when the lists differ
    if base != next && spec_token_diff_empty(base, next) {
        assert(r.len() == 0);
        assert(st.len() == 0);
        assert(o is None);
        lemma_filter_keeps_all(kb, not_in(r));
        assert(y.len() == 0);
        assert(x + y =~= x);
        assert(kb == kn);
        assert forall|i: int| 0 <= i < next.len() implies next[i] == base[i] by {
            if token_changed(base)(next[i]) {
                next.lemma_filter_contains(token_changed(base), i);
            }
            assert(kb[i] == kn[i]);
            lemma_find_by_key::<(String, String)>(base, i);
        }
        assert(base =~= next);
    }
}

/// Applying a valid delta to tokens with unique keys yields tokens with
/// unique keys, in the result key order.
pub proof fn lemma_token_applied_unique(
    set: Seq<TokenView>,
    remove: Seq<Seq<char>>,
    order: Option<Seq<Seq<char>>>,
    tokens: Seq<TokenView>,
)
    requires
        spec_token_delta_valid(set, remove, order, tokens),
        unique_keys::<(String, String)>(tokens),
    ensures
        unique_keys::<(String, String)>(spec_token_delta_applied(set, remove, order, tokens)),
        keys_of::<(String, String)>(spec_token_delta_applied(set, remove, order, tokens)) == spec_token_result_keys(set, remove, order, tokens),
{
    let rk = spec_token_result_keys(set, remove, order, tokens);
    let ap = spec_token_delta_applied(set, remove, order, tokens);
    assert(keys_of::<(String, String)>(ap) =~= rk);
    match order {
        Some(o) => {},
        None => {
            let tk = keys_of::<(String, String)>(tokens);
            let sk = keys_of::<(String, String)>(set);
            let x = tk.filter(not_in(remove));
            let y = sk.filter(key_absent::<(String, String)>(tokens));
            lemma_unique_keys_no_duplicates::<(String, String)>(tokens);
            lemma_unique_keys_no_duplicates::<(String, String)>(set);
            lemma_filter_no_duplicates(tk, not_in(remove));
            lemma_filter_no_duplicates(sk, key_absent::<(String, String)>(tokens));
            assert forall|i: int, j: int| 0 <= i < x.len() && 0 <= j < y.len() implies x[i] != y[j] by {
                broadcast use vstd::seq_lib::group_filter_ensures;
                assert(x.contains(x[i]));
                tk.lemma_filter_contains_rev(not_in(remove), x[i]);
                lemma_has_key_contains::<(String, String)>(tokens, x[i]);
                sk.lemma_filter_pred(key_absent::<(String, String)>(tokens), j);
            }
            vstd::seq_lib::lemma_no_dup_in_concat(x, y);
        },
    }
    lemma_unique_keys_no_duplicates::<(String, String)>(ap);
}

} // verus!
