//! Hook-free discovery of the Kiro CLI conversation running in a pane.
//!
//! While a chat is open Kiro holds a lock file whose body is
//! `{"pid": <owner>, "started_at": ...}` (V2 engine:
//! `~/.kiro/sessions/cli/<SESSION_ID>.lock`; V3 engine:
//! `~/.kiro/sessions/<cwd-hash>/sess_<SESSION_ID>/.lock`). The owning pid
//! descends from the `kiro-cli` process running in the pane, so matching lock
//! owners against the pane's process tree names the pane's conversation.

use vstd::prelude::*;
use crate::search::first_where;
use crate::text::{
    chars_of, ends_with_lit, find_sub, find_sub_index, has_prefix, has_suffix, is_digit, lemma_find_sub, slice_chars,
    starts_with_lit, string_of_chars, trim_start_by, trim_start_index, CharClass,
};

verus! {

/// Session reports discovered this way use this hook-style source label.
pub const SOURCE: &'static str = "herdr:kiro";

pub const AGENT_LABEL: &'static str = "kiro";

/// Upper bound on the parent chain walked from a lock owner.
pub const MAX_ANCESTRY_DEPTH: usize = 32;

/// A lock file Kiro holds for a live conversation.
#[derive(Debug, Clone, PartialEq, Eq)]
pub struct KiroSessionLock {
    pub session_id: String,
    pub owner_pid: u32,
}

pub open spec fn v3_prefix() -> Seq<char> {
    seq!['s', 'e', 's', 's', '_']
}

impl KiroSessionLock {
    /// V3 conversations carry a `sess_` prefix and resume on the V3 engine.
    pub fn is_v3(&self) -> (r: bool)
        ensures
            r == has_prefix(self.session_id@, v3_prefix()),
    {
        Self::session_id_is_v3(self.session_id.as_str())
    }

    pub fn session_id_is_v3(session_id: &str) -> (r: bool)
        ensures
            r == has_prefix(session_id@, v3_prefix()),
    {
        proof {
            reveal_strlit("sess_");
        }
        let chars = chars_of(session_id);
        assert("sess_"@ =~= v3_prefix());
        starts_with_lit(&chars, "sess_")
    }
}

pub open spec fn pid_key() -> Seq<char> {
    seq!['"', 'p', 'i', 'd', '"']
}

/// Length of the run of ASCII digits at the start of `s`.
pub open spec fn digit_run(s: Seq<char>) -> nat
    decreases s.len(),
{
    if s.len() > 0 && is_digit(s[0]) {
        1 + digit_run(s.drop_first())
    } else {
        0
    }
}

/// The number a run of decimal digit characters denotes.
pub open spec fn char_decimal(s: Seq<char>) -> nat
    decreases s.len(),
{
    if s.len() == 0 {
        0
    } else {
        char_decimal(s.drop_last()) * 10 + ((s.last() as int) - ('0' as int)) as nat
    }
}

/// The pid named by a lock body: the first `"pid"` key, the first `:` after
/// it, optional whitespace, then a positive decimal number that fits in `u32`.
pub open spec fn lock_owner_pid(body: Seq<char>) -> Option<u32> {
    match find_sub(body, pid_key(), 0) {
        None => None,
        Some(k) => {
            let rest = body.skip(k + 5);
            match find_sub(rest, seq![':'], 0) {
                None => None,
                Some(c) => {
                    let t = trim_start_by(rest.skip(c + 1), CharClass::Whitespace);
                    let d = t.take(digit_run(t) as int);
                    if d.len() > 0 && 0 < char_decimal(d) <= u32::MAX {
                        Some(char_decimal(d) as u32)
                    } else {
                        None
                    }
                },
            }
        },
    }
}

proof fn lemma_digit_run(s: Seq<char>, i: int)
    requires
        0 <= i <= s.len(),
        forall|j: int| 0 <= j < i ==> is_digit(#[trigger] s[j]),
    ensures
        digit_run(s) >= i,
        i < s.len() && !is_digit(s[i]) ==> digit_run(s) == i,
    decreases i,
{
    if i > 0 {
        lemma_digit_run(s.drop_first(), i - 1);
    }
}

proof fn lemma_char_decimal_prefix(s: Seq<char>, k: int)
    requires
        0 <= k <= s.len(),
        forall|j: int| 0 <= j < s.len() ==> is_digit(#[trigger] s[j]),
    ensures
        char_decimal(s.take(k)) <= char_decimal(s),
    decreases s.len(),
{
    if k < s.len() {
        lemma_char_decimal_prefix(s.drop_last(), k);
        assert(s.drop_last().take(k) =~= s.take(k));
    } else {
        assert(s.take(k) =~= s);
    }
}

/// Parses the owner pid out of a lock body `{"pid": 123, ...}`, tolerating
/// whitespace and key order.
pub fn parse_lock_owner_pid(body: &str) -> (r: Option<u32>)
    ensures
        r == lock_owner_pid(body@),
{
    let chars = chars_of(body);
    let n = chars.len();
    let key: Vec<char> = vec!['"', 'p', 'i', 'd', '"'];
    assert(key@ =~= pid_key());
    let k = match find_sub_index(&chars, &key, 0) {
        Some(k) => k,
        None => return None,
    };
    proof {
        lemma_find_sub(chars@, pid_key(), 0);
        assert(find_sub(chars@, pid_key(), 0) == Some(k as int));
        assert(crate::text::occurs_at(chars@, pid_key(), k as int));
        assert(pid_key().len() == 5);
    }
    let ghost rest = chars@.skip(k + 5);
    let colon: Vec<char> = vec![':'];
    let mut i: usize = k + 5;
    while i < chars.len() && chars[i] != ':'
        invariant
            k + 5 <= i <= chars@.len(),
            rest == chars@.skip(k + 5),
            forall|j: int| k + 5 <= j < i ==> chars@[j] != ':',
        decreases chars@.len() - i,
    {
        i += 1;
    }
    proof {
        lemma_find_sub(rest, seq![':'], 0);
        assert forall|j: int| 0 <= j < i - (k + 5) implies !occurs_at_colon(rest, j) by {
            assert(rest[j] == chars@[k + 5 + j]);
            assert(rest.subrange(j, j + 1)[0] == rest[j]);
        }
    }
    if i >= chars.len() {
        proof {
            assert forall|j: int| 0 <= j implies !crate::text::occurs_at(rest, seq![':'], j) by {
                if j + 1 <= rest.len() {
                    assert(!occurs_at_colon(rest, j));
                }
            }
        }
        return None;
    }
    let ghost c = i - (k + 5);
    proof {
        assert(rest.subrange(c, c + 1) =~= seq![':']);
        assert forall|j: int| 0 <= j < c implies !crate::text::occurs_at(rest, seq![':'], j) by {
            assert(!occurs_at_colon(rest, j));
        }
        assert(crate::text::occurs_at(rest, seq![':'], c));
        assert(find_sub(rest, seq![':'], 0) == Some(c));
    }
    let tail = crate::text::slice_chars(&chars, i + 1, chars.len());
    assert(tail@ =~= rest.skip(i - (k + 5) + 1));
    let s = trim_start_index(&tail, CharClass::Whitespace);
    let ghost t = trim_start_by(tail@, CharClass::Whitespace);
    let mut e: usize = s;
    let mut value: u64 = 0;
    while e < tail.len() && '0' <= tail[e] && tail[e] <= '9'
        invariant
            s <= e <= tail@.len(),
            t == tail@.subrange(s as int, tail@.len() as int),
            t == trim_start_by(tail@, CharClass::Whitespace),
            forall|j: int| s <= j < e ==> is_digit(#[trigger] tail@[j]),
            value as nat == char_decimal(tail@.subrange(s as int, e as int)),
            value <= u32::MAX,
            tail@ == rest.skip(c + 1),
            rest == body@.skip(k + 5),
            find_sub(body@, pid_key(), 0) == Some(k as int),
            find_sub(rest, seq![':'], 0) == Some(c),
        decreases tail@.len() - e,
    {
        let d = tail[e];
        assert(tail@.subrange(s as int, e + 1).drop_last() =~= tail@.subrange(s as int, e as int));
        let next: u64 = value * 10 + ((d as u32) - ('0' as u32)) as u64;
        assert(char_decimal(tail@.subrange(s as int, e + 1)) == next);
        if next > 4294967295 {
            proof {
                let dd = t.take(digit_run(t) as int);
                assert forall|j: int| 0 <= j < e + 1 - s implies is_digit(#[trigger] t[j]) by {
                    assert(t[j] == tail@[s + j]);
                }
                lemma_digit_run(t, e + 1 - s);
                lemma_digit_run_le(t);
                assert forall|j: int| 0 <= j < dd.len() implies is_digit(#[trigger] dd[j]) by {
                    lemma_digit_run_digits(t, j);
                }
                assert(tail@.subrange(s as int, e + 1) =~= dd.take(e + 1 - s));
                lemma_char_decimal_prefix(dd, e + 1 - s);
                assert(char_decimal(dd) > u32::MAX);
                assert(t == trim_start_by(rest.skip(c + 1), CharClass::Whitespace));
            }
            return None;
        }
        value = next;
        e += 1;
    }
    proof {
        assert forall|j: int| 0 <= j < e - s implies is_digit(#[trigger] t[j]) by {
            assert(t[j] == tail@[s + j]);
        }
        lemma_digit_run(t, e - s);
        lemma_digit_run_le(t);
        if e < tail.len() {
            assert(t[e - s] == tail@[e as int]);
        }
        assert(t.take(digit_run(t) as int) =~= tail@.subrange(s as int, e as int));
    }
    if e == s || value == 0 {
        return None;
    }
    Some(value as u32)
}

spec fn occurs_at_colon(s: Seq<char>, j: int) -> bool {
    crate::text::occurs_at(s, seq![':'], j)
}

proof fn lemma_digit_run_digits(s: Seq<char>, j: int)
    requires
        0 <= j < digit_run(s),
    ensures
        is_digit(s[j]),
    decreases j,
{
    lemma_digit_run_le(s);
    if j > 0 {
        lemma_digit_run_digits(s.drop_first(), j - 1);
        assert(s.drop_first()[j - 1] == s[j]);
    }
}

proof fn lemma_digit_run_le(s: Seq<char>)
    ensures
        digit_run(s) <= s.len(),
    decreases s.len(),
{
    if s.len() > 0 && is_digit(s[0]) {
        lemma_digit_run_le(s.drop_first());
    }
}

/// Every answer the lookup gives for a pid is `parent` of that pid.
pub open spec fn pins<F: Fn(u32) -> Option<u32>>(f: F, parent: spec_fn(u32) -> Option<u32>) -> bool {
    forall|p: u32, o: Option<u32>| f.ensures((p,), o) ==> o == parent(p)
}

/// `cur` is `ancestor`, or its parent chain reaches `ancestor` within `fuel`
/// pids in all; the walk stops at pid 1 and 0, at a pid that is its own
/// parent, and at an unknown parent.
pub open spec fn reaches(parent: spec_fn(u32) -> Option<u32>, cur: u32, ancestor: u32, fuel: nat) -> bool
    decreases fuel,
{
    if fuel == 0 {
        false
    } else if cur == ancestor {
        true
    } else {
        match parent(cur) {
            Some(p) => if p > 1 && p != cur {
                reaches(parent, p, ancestor, (fuel - 1) as nat)
            } else {
                false
            },
            None => false,
        }
    }
}

/// Whether `pid` is `ancestor` or has `ancestor` in its parent chain, looking
/// at most `MAX_ANCESTRY_DEPTH` pids deep.
pub fn descends_from<F: Fn(u32) -> Option<u32>>(pid: u32, ancestor: u32, parent_of: F) -> (r: bool)
    requires
        forall|p: u32| parent_of.requires((p,)),
    ensures
        pid == ancestor ==> r,
        forall|parent: spec_fn(u32) -> Option<u32>| #[trigger] pins(parent_of, parent)
            ==> r == reaches(parent, pid, ancestor, MAX_ANCESTRY_DEPTH as nat),
{
    let mut current = pid;
    let mut i: usize = 0;
    while i < MAX_ANCESTRY_DEPTH
        invariant
            i <= MAX_ANCESTRY_DEPTH,
            forall|p: u32| parent_of.requires((p,)),
            i == 0 ==> current == pid,
            pid == ancestor ==> i == 0,
            forall|parent: spec_fn(u32) -> Option<u32>| #[trigger] pins(parent_of, parent)
                ==> reaches(parent, pid, ancestor, MAX_ANCESTRY_DEPTH as nat)
                    == reaches(parent, current, ancestor, (MAX_ANCESTRY_DEPTH - i) as nat),
        decreases MAX_ANCESTRY_DEPTH - i,
    {
        if current == ancestor {
            return true;
        }
        let next = parent_of(current);
        match next {
            Some(p) => {
                if p > 1 && p != current {
                    current = p;
                } else {
                    return false;
                }
            },
            None => return false,
        }
        i += 1;
    }
    false
}

/// The lock is owned by a process running in the pane.
pub open spec fn owned_in_pane(parent: spec_fn(u32) -> Option<u32>, pane_child_pid: u32) -> spec_fn(KiroSessionLock) -> bool {
    |l: KiroSessionLock| reaches(parent, l.owner_pid, pane_child_pid, MAX_ANCESTRY_DEPTH as nat)
}

fn copy_lock(l: &KiroSessionLock) -> (r: KiroSessionLock)
    ensures
        r == *l,
{
    KiroSessionLock { session_id: l.session_id.clone(), owner_pid: l.owner_pid }
}

/// The first of `locks` owned by a process descending from `pane_child_pid`.
pub fn discover_in<F: Fn(u32) -> Option<u32> + Copy>(
    locks: &Vec<KiroSessionLock>,
    pane_child_pid: u32,
    parent_of: F,
) -> (r: Option<KiroSessionLock>)
    requires
        forall|p: u32| parent_of.requires((p,)),
    ensures
        r matches Some(l) ==> locks@.contains(l),
        forall|parent: spec_fn(u32) -> Option<u32>| #[trigger] pins(parent_of, parent) ==> match first_where(
            locks@,
            owned_in_pane(parent, pane_child_pid),
        ) {
            Some(i) => r == Some(locks@[i]),
            None => r is None,
        },
{
    let mut i: usize = 0;
    while i < locks.len()
        invariant
            i <= locks@.len(),
            forall|p: u32| parent_of.requires((p,)),
            forall|parent: spec_fn(u32) -> Option<u32>| #[trigger] pins(parent_of, parent)
                ==> forall|j: int| 0 <= j < i ==> !owned_in_pane(parent, pane_child_pid)(#[trigger] locks@[j]),
        decreases locks@.len() - i,
    {
        if descends_from(locks[i].owner_pid, pane_child_pid, parent_of) {
            proof {
                assert forall|parent: spec_fn(u32) -> Option<u32>| #[trigger] pins(parent_of, parent) implies
                    first_where(locks@, owned_in_pane(parent, pane_child_pid)) == Some(i as int) by {
                    crate::search::lemma_first_where_at(locks@, owned_in_pane(parent, pane_child_pid), i as int);
                }
            }
            return Some(copy_lock(&locks[i]));
        }
        i += 1;
    }
    proof {
        assert forall|parent: spec_fn(u32) -> Option<u32>| #[trigger] pins(parent_of, parent) implies
            first_where(locks@, owned_in_pane(parent, pane_child_pid)) is None by {
            crate::search::lemma_first_where_none(locks@, owned_in_pane(parent, pane_child_pid));
        }
    }
    None
}

/// What an entry of a sessions directory's subdirectory stands for.
#[derive(Debug, Clone, PartialEq, Eq)]
pub enum LockEntry {
    /// `<id>.lock`: the V2 lock of session `<id>`, when the entry is a file.
    SessionLock(String),
    /// `sess_<id>`: a V3 session directory, holding `.lock` when live.
    SessionDirectory,
    Ignored,
}

pub open spec fn lock_suffix() -> Seq<char> {
    seq!['.', 'l', 'o', 'c', 'k']
}

/// How an entry named `name` counts: a name ending in `.lock` is a V2 lock
/// of the non-empty session id before it (and never a session directory);
/// otherwise a `sess_` name is a V3 session directory.
pub open spec fn lock_entry_kind(name: Seq<char>) -> Option<(bool, Seq<char>)> {
    if has_suffix(name, lock_suffix()) {
        let id = name.subrange(0, name.len() - 5);
        if id.len() > 0 { Some((false, id)) } else { None }
    } else if has_prefix(name, v3_prefix()) {
        Some((true, name))
    } else {
        None
    }
}

/// Classifies an entry of a sessions subdirectory by its name.
pub fn classify_lock_entry(name: &str) -> (r: LockEntry)
    ensures
        match lock_entry_kind(name@) {
            Some((false, id)) => r matches LockEntry::SessionLock(s) && s@ == id,
            Some((true, _)) => r is SessionDirectory,
            None => r is Ignored,
        },
{
    proof {
        reveal_strlit(".lock");
        assert(".lock"@ =~= lock_suffix());
    }
    let chars = chars_of(name);
    if ends_with_lit(&chars, ".lock") {
        if chars.len() > 5 {
            LockEntry::SessionLock(string_of_chars(&slice_chars(&chars, 0, chars.len() - 5)))
        } else {
            LockEntry::Ignored
        }
    } else if KiroSessionLock::session_id_is_v3(name) {
        LockEntry::SessionDirectory
    } else {
        LockEntry::Ignored
    }
}

} // verus!
