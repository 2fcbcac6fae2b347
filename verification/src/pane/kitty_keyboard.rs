//! Tracks the kitty keyboard flags stack and the `modifyOtherKeys` mode that
//! a program selects through CSI sequences in its output, across reads that
//! may split a sequence anywhere.

use vstd::prelude::*;
use crate::input::ModifyOtherKeysMode;
use crate::text::{decimal_text, push_decimal};
use crate::search::{find_byte, find_byte_range, lemma_find_byte_bounds};

verus! {

pub const ESC: u8 = 0x1b;

/// Longest unfinished escape sequence kept between two reads.
pub const MAX_PENDING: usize = 64;

/// What the tracker knows: the unfinished bytes of the last read, the stack of
/// pushed flag sets, the current flags and the `modifyOtherKeys` mode.
pub struct KeyboardModel {
    pub pending: Seq<u8>,
    pub stack: Seq<u16>,
    pub flags: u16,
    pub mode: Option<ModifyOtherKeysMode>,
}

pub open spec fn with_mode(st: KeyboardModel, mode: Option<ModifyOtherKeysMode>) -> KeyboardModel {
    KeyboardModel { pending: st.pending, stack: st.stack, flags: st.flags, mode }
}

pub open spec fn with_flags(st: KeyboardModel, flags: u16) -> KeyboardModel {
    KeyboardModel { pending: st.pending, stack: st.stack, flags, mode: st.mode }
}

pub open spec fn with_pending(st: KeyboardModel, pending: Seq<u8>) -> KeyboardModel {
    KeyboardModel { pending, stack: st.stack, flags: st.flags, mode: st.mode }
}

pub open spec fn is_digit_byte(b: u8) -> bool {
    0x30 <= b <= 0x39
}

/// A byte that ends a CSI sequence.
pub open spec fn is_final_byte(b: u8) -> bool {
    0x40 <= b <= 0x7e
}

pub open spec fn digit_value(b: u8) -> nat {
    if is_digit_byte(b) {
        (b - 0x30) as nat
    } else {
        0
    }
}

/// The number a run of decimal digits denotes.
pub open spec fn decimal_value(s: Seq<u8>) -> nat
    decreases s.len(),
{
    if s.len() == 0 {
        0
    } else {
        decimal_value(s.drop_last()) * 10 + digit_value(s.last())
    }
}

pub open spec fn all_digits(s: Seq<u8>) -> bool {
    forall|i: int| 0 <= i < s.len() ==> is_digit_byte(#[trigger] s[i])
}

/// A non-empty run of ASCII digits whose value fits in `u16`; nothing else
/// (no sign, no spaces) is a number.
pub open spec fn parse_decimal(s: Seq<u8>) -> Option<u16> {
    if s.len() > 0 && all_digits(s) && decimal_value(s) <= u16::MAX {
        Some(decimal_value(s) as u16)
    } else {
        None
    }
}

pub open spec fn semicolon_at(s: Seq<u8>) -> int {
    find_byte(s, 0x3b, 0)
}

/// A flags parameter: the first `;`-separated field as a number, 0 when it
/// is not one.
pub open spec fn parse_flags(s: Seq<u8>) -> u16 {
    match parse_decimal(s.take(semicolon_at(s))) {
        Some(v) => v,
        None => 0,
    }
}

/// One pop of the flags stack; an empty stack leaves the flags at 0.
pub open spec fn pop_once(st: KeyboardModel) -> KeyboardModel {
    if st.stack.len() == 0 {
        with_flags(st, 0)
    } else {
        KeyboardModel {
            pending: st.pending,
            stack: st.stack.drop_last(),
            flags: st.stack.last(),
            mode: st.mode,
        }
    }
}

pub open spec fn pop_n(st: KeyboardModel, n: nat) -> KeyboardModel
    decreases n,
{
    if n == 0 {
        st
    } else {
        pop_once(pop_n(st, (n - 1) as nat))
    }
}

/// `CSI > flags u` pushes, `CSI = flags u` sets, `CSI < n u` pops `n` times
/// (at least once).
pub open spec fn apply_csi_u(st: KeyboardModel, params: Seq<u8>) -> KeyboardModel {
    if params.len() == 0 {
        st
    } else {
        let rest = params.skip(1);
        if params[0] == 0x3e {
            KeyboardModel {
                pending: st.pending,
                stack: st.stack.push(st.flags),
                flags: parse_flags(rest),
                mode: st.mode,
            }
        } else if params[0] == 0x3d {
            with_flags(st, parse_flags(rest))
        } else if params[0] == 0x3c {
            let n = parse_flags(rest);
            pop_n(st, if n == 0 { 1 } else { n as nat })
        } else {
            st
        }
    }
}

/// `CSI > 4 ; v m` selects `modifyOtherKeys` level `v` (0, 1 or 2; an empty
/// or missing value, or `CSI > m`, turns it off). Anything malformed is ignored.
pub open spec fn apply_modify_other_keys(st: KeyboardModel, params: Seq<u8>) -> KeyboardModel {
    if params.len() == 0 || params[0] != 0x3e {
        st
    } else {
        let p = params.skip(1);
        let k = semicolon_at(p);
        if p.len() == 0 {
            with_mode(st, None)
        } else if k == p.len() {
            if parse_flags(p) != 4 {
                st
            } else {
                with_mode(st, None)
            }
        } else {
            let value = p.skip(k + 1);
            if semicolon_at(value) < value.len() || parse_flags(p.take(k)) != 4 {
                st
            } else if value.len() == 0 {
                with_mode(st, None)
            } else {
                match parse_decimal(value) {
                    Some(v) => if v == 0 {
                        with_mode(st, None)
                    } else if v == 1 {
                        with_mode(st, Some(ModifyOtherKeysMode::Mode1))
                    } else if v == 2 {
                        with_mode(st, Some(ModifyOtherKeysMode::Mode2))
                    } else {
                        st
                    },
                    None => st,
                }
            }
        }
    }
}

/// `CSI > 4 n` (the `modifyOtherKeys` resource alone, no further field)
/// resets the mode.
pub open spec fn resets_on_query(params: Seq<u8>) -> bool {
    params.len() > 0 && params[0] == 0x3e && semicolon_at(params.skip(1)) == params.len() - 1
        && parse_flags(params.skip(1)) == 4
}

/// The effect of one complete CSI sequence with parameters `params` and final
/// byte `f`.
pub open spec fn apply_final(st: KeyboardModel, f: u8, params: Seq<u8>) -> KeyboardModel {
    if f == 0x75 {
        apply_csi_u(st, params)
    } else if f == 0x6d {
        apply_modify_other_keys(st, params)
    } else if f == 0x6e && resets_on_query(params) {
        with_mode(st, None)
    } else {
        st
    }
}

/// Where the CSI sequence whose parameters start at `j` stops: its final byte,
/// an interrupting ESC, or the end of the input.
pub open spec fn csi_stop(s: Seq<u8>, j: int) -> int
    decreases s.len() - j,
{
    if j < 0 || j >= s.len() {
        s.len() as int
    } else if is_final_byte(s[j]) || s[j] == ESC {
        j
    } else {
        csi_stop(s, j + 1)
    }
}

pub proof fn lemma_csi_stop_bounds(s: Seq<u8>, j: int)
    requires
        0 <= j <= s.len(),
    ensures
        j <= csi_stop(s, j) <= s.len(),
    decreases s.len() - j,
{
    if j < s.len() && !(is_final_byte(s[j]) || s[j] == ESC) {
        lemma_csi_stop_bounds(s, j + 1);
    }
}

/// Scanning `s` from `i`: the state after every complete sequence, and the
/// unfinished tail where the input ran out inside an escape sequence (empty
/// when the scan completed).
pub open spec fn scan(st: KeyboardModel, s: Seq<u8>, i: int) -> (KeyboardModel, Seq<u8>)
    decreases s.len() - i,
{
    if i < 0 || i >= s.len() {
        (st, Seq::empty())
    } else if s[i] != ESC {
        scan(st, s, i + 1)
    } else if i + 1 >= s.len() {
        (st, s.skip(i))
    } else {
        let st1 = if s[i + 1] == 0x63 { with_mode(st, None) } else { st };
        if s[i + 1] != 0x5b {
            scan(st1, s, i + 1)
        } else {
            let e = csi_stop(s, i + 2);
            proof {
                lemma_csi_stop_bounds(s, i + 2);
            }
            if e >= s.len() {
                (st1, s.skip(i))
            } else if s[e] == ESC {
                scan(st1, s, e)
            } else {
                scan(apply_final(st1, s[e], s.subrange(i + 2, e)), s, e + 1)
            }
        }
    }
}

/// An unfinished tail is kept for the next read only when it is short.
pub open spec fn keep_tail(rest: Seq<u8>) -> Seq<u8> {
    if rest.len() <= MAX_PENDING {
        rest
    } else {
        Seq::empty()
    }
}

/// The input a read is scanned as: the kept tail of the last read, then the
/// new bytes.
pub open spec fn scan_of_read(t: KeyboardModel, bytes: Seq<u8>) -> (KeyboardModel, Seq<u8>) {
    scan(with_pending(t, Seq::empty()), t.pending + bytes, 0)
}

/// The tail a read leaves unfinished.
pub open spec fn unfinished_tail(t: KeyboardModel, bytes: Seq<u8>) -> Seq<u8> {
    scan_of_read(t, bytes).1
}

/// The state after observing `bytes`.
pub open spec fn observed(t: KeyboardModel, bytes: Seq<u8>) -> KeyboardModel {
    let r = scan_of_read(t, bytes);
    with_pending(r.0, keep_tail(r.1))
}

/// Tracks keyboard protocol state from a program's output.
#[derive(Debug, Clone)]
pub struct KittyKeyboardTracker {
    pending: Vec<u8>,
    stack: Vec<u16>,
    flags: u16,
    modify_other_keys_mode: Option<ModifyOtherKeysMode>,
}

impl View for KittyKeyboardTracker {
    type V = KeyboardModel;

    closed spec fn view(&self) -> KeyboardModel {
        KeyboardModel {
            pending: self.pending@,
            stack: self.stack@,
            flags: self.flags,
            mode: self.modify_other_keys_mode,
        }
    }
}

/// The state of a pane before its program wrote anything.
pub open spec fn initial_keyboard() -> KeyboardModel {
    KeyboardModel { pending: Seq::empty(), stack: Seq::empty(), flags: 0, mode: None }
}

impl Default for KittyKeyboardTracker {
    fn default() -> (r: Self)
        ensures
            r@ == initial_keyboard(),
    {
        KittyKeyboardTracker {
            pending: Vec::new(),
            stack: Vec::new(),
            flags: 0,
            modify_other_keys_mode: None,
        }
    }
}

/// Value of the digits `s[lo..i]` extended by one more digit.
proof fn lemma_decimal_step(s: Seq<u8>, lo: int, i: int)
    requires
        0 <= lo <= i < s.len(),
    ensures
        decimal_value(s.subrange(lo, i + 1)) == decimal_value(s.subrange(lo, i)) * 10
            + digit_value(s[i]),
{
    assert(s.subrange(lo, i + 1).drop_last() =~= s.subrange(lo, i));
}

/// A longer run of digits never denotes a smaller number.
proof fn lemma_decimal_prefix(s: Seq<u8>, k: int)
    requires
        0 <= k <= s.len(),
    ensures
        decimal_value(s.take(k)) <= decimal_value(s),
    decreases s.len(),
{
    if k < s.len() {
        lemma_decimal_prefix(s.drop_last(), k);
        assert(s.drop_last().take(k) =~= s.take(k));
    } else {
        assert(s.take(k) =~= s);
    }
}

/// `parse_decimal` of `s[lo..hi]`.
fn parse_decimal_range(s: &Vec<u8>, lo: usize, hi: usize) -> (r: Option<u16>)
    requires
        lo <= hi <= s.len(),
    ensures
        r == parse_decimal(s@.subrange(lo as int, hi as int)),
{
    let ghost sub = s@.subrange(lo as int, hi as int);
    if lo == hi {
        return None;
    }
    let mut value: u32 = 0;
    let mut i: usize = lo;
    while i < hi
        invariant
            lo <= i <= hi <= s.len(),
            sub == s@.subrange(lo as int, hi as int),
            value as nat == decimal_value(s@.subrange(lo as int, i as int)),
            value <= 65535,
            forall|j: int| lo <= j < i ==> is_digit_byte(#[trigger] s@[j]),
        decreases hi - i,
    {
        let b = s[i];
        if b < 0x30 || b > 0x39 {
            assert(!is_digit_byte(sub[i - lo]));
            return None;
        }
        proof {
            lemma_decimal_step(s@, lo as int, i as int);
        }
        let next: u32 = value * 10 + (b - 0x30) as u32;
        if next > 65535 {
            proof {
                assert(s@.subrange(lo as int, i + 1) =~= sub.take(i + 1 - lo));
                lemma_decimal_prefix(sub, i + 1 - lo);
            }
            return None;
        }
        value = next;
        i = i + 1;
    }
    assert(s@.subrange(lo as int, i as int) =~= sub);
    assert(all_digits(sub)) by {
        assert forall|j: int| 0 <= j < sub.len() implies is_digit_byte(#[trigger] sub[j]) by {
            assert(sub[j] == s@[lo + j]);
        }
    }
    Some(value as u16)
}

/// `parse_flags` of `s[lo..hi]`.
fn parse_flags_range(s: &Vec<u8>, lo: usize, hi: usize) -> (r: u16)
    requires
        lo <= hi <= s.len(),
    ensures
        r == parse_flags(s@.subrange(lo as int, hi as int)),
{
    let ghost sub = s@.subrange(lo as int, hi as int);
    let k = find_byte_range(s, lo, hi, 0x3b);
    proof {
        lemma_find_byte_bounds(sub, 0x3b, 0);
        assert(s@.subrange(lo as int, lo + k) =~= sub.take(k as int));
    }
    match parse_decimal_range(s, lo, lo + k) {
        Some(v) => v,
        None => 0,
    }
}


proof fn lemma_pop_n_keeps_pending(st: KeyboardModel, n: nat)
    ensures
        pop_n(st, n).pending == st.pending,
        pop_n(st, n).mode == st.mode,
    decreases n,
{
    if n > 0 {
        lemma_pop_n_keeps_pending(st, (n - 1) as nat);
    }
}

/// A complete sequence never touches the kept tail.
proof fn lemma_apply_final_keeps_pending(st: KeyboardModel, f: u8, params: Seq<u8>)
    ensures
        apply_final(st, f, params).pending == st.pending,
{
    if params.len() > 0 {
        let n = parse_flags(params.skip(1));
        lemma_pop_n_keeps_pending(st, if n == 0 { 1 } else { n as nat });
    }
}

/// `csi_stop` computed.
fn csi_stop_index(s: &Vec<u8>, j: usize) -> (r: usize)
    requires
        j <= s.len(),
    ensures
        r as int == csi_stop(s@, j as int),
        j <= r <= s.len(),
{
    let mut k: usize = j;
    while k < s.len() && !((0x40 <= s[k] && s[k] <= 0x7e) || s[k] == ESC)
        invariant
            j <= k <= s.len(),
            csi_stop(s@, k as int) == csi_stop(s@, j as int),
        decreases s.len() - k,
    {
        k = k + 1;
    }
    k
}

impl KittyKeyboardTracker {
    /// The `modifyOtherKeys` mode the program selected, if any.
    pub fn modify_other_keys_mode(&self) -> (r: Option<ModifyOtherKeysMode>)
        ensures
            r == self@.mode,
    {
        self.modify_other_keys_mode
    }

    /// Whether the program turned `modifyOtherKeys` on.
    pub fn modify_other_keys_enabled(&self) -> (r: bool)
        ensures
            r == self@.mode is Some,
    {
        self.modify_other_keys_mode.is_some()
    }

    /// The current kitty keyboard flags.
    pub fn flags(&self) -> (r: u16)
        ensures
            r == self@.flags,
    {
        self.flags
    }

    /// The pushed flag sets, oldest first.
    pub fn stack(&self) -> (r: &Vec<u16>)
        ensures
            r@ == self@.stack,
    {
        &self.stack
    }

    /// The escape sequences that restore the flags stack after reattaching.
    pub fn replay_ansi(&self) -> (r: Option<String>)
        ensures
            r is None <==> replay_text(self@) is None,
            r matches Some(x) ==> replay_text(self@) == Some(x@),
    {
        if self.stack.len() == 0 {
            if self.flags != 0 {
                let mut out = String::new();
                push_set_text(&mut out, self.flags);
                assert(out@ =~= set_text(self.flags));
                return Some(out);
            }
            return None;
        }
        let mut out = String::new();
        let baseline = self.stack[0];
        if baseline != 0 {
            push_set_text(&mut out, baseline);
        }
        let ghost base = out@;
        assert(base =~= (if self@.stack[0] != 0 { set_text(self@.stack[0]) } else { Seq::empty() }));
        let mut i: usize = 1;
        while i < self.stack.len()
            invariant
                1 <= i <= self.stack.len(),
                out@ == base + pushes_text(self.stack@.subrange(1, i as int)),
            decreases self.stack.len() - i,
        {
            push_push_text(&mut out, self.stack[i]);
            assert(self.stack@.subrange(1, i + 1).drop_last() =~= self.stack@.subrange(1, i as int));
            assert(out@ =~= base + pushes_text(self.stack@.subrange(1, i + 1)));
            i = i + 1;
        }
        push_push_text(&mut out, self.flags);
        let ghost all = self@.stack.skip(1).push(self.flags);
        assert(all.drop_last() =~= self.stack@.subrange(1, i as int));
        assert(out@ =~= base + pushes_text(all));
        Some(out)
    }

    fn pop_flags(&mut self)
        ensures
            final(self)@ == pop_once(old(self)@),
    {
        match self.stack.pop() {
            Some(f) => self.flags = f,
            None => self.flags = 0,
        }
    }

    /// A `CSI ... u` sequence with parameters `s[lo..hi]`.
    fn observe_csi_u(&mut self, s: &Vec<u8>, lo: usize, hi: usize)
        requires
            lo <= hi <= s.len(),
        ensures
            final(self)@ == apply_csi_u(old(self)@, s@.subrange(lo as int, hi as int)),
    {
        let ghost params = s@.subrange(lo as int, hi as int);
        if lo == hi {
            return;
        }
        proof {
            assert(s@.subrange(lo + 1, hi as int) =~= params.skip(1));
        }
        let kind = s[lo];
        if kind == 0x3e {
            let flags = parse_flags_range(s, lo + 1, hi);
            self.stack.push(self.flags);
            self.flags = flags;
        } else if kind == 0x3d {
            self.flags = parse_flags_range(s, lo + 1, hi);
        } else if kind == 0x3c {
            let n = parse_flags_range(s, lo + 1, hi);
            let count: u16 = if n == 0 { 1 } else { n };
            let ghost start = self@;
            let mut i: u16 = 0;
            while i < count
                invariant
                    i <= count,
                    self@ == pop_n(start, i as nat),
                decreases count - i,
            {
                self.pop_flags();
                i = i + 1;
            }
        }
    }

    /// A `CSI ... m` sequence with parameters `s[lo..hi]`.
    fn observe_modify_other_keys(&mut self, s: &Vec<u8>, lo: usize, hi: usize)
        requires
            lo <= hi <= s.len(),
        ensures
            final(self)@ == apply_modify_other_keys(old(self)@, s@.subrange(lo as int, hi as int)),
    {
        let ghost params = s@.subrange(lo as int, hi as int);
        if lo == hi || s[lo] != 0x3e {
            return;
        }
        let ghost p = params.skip(1);
        assert(s@.subrange(lo + 1, hi as int) =~= p);
        let plo = lo + 1;
        if plo == hi {
            self.modify_other_keys_mode = None;
            return;
        }
        let k = find_byte_range(s, plo, hi, 0x3b);
        proof {
            lemma_find_byte_bounds(p, 0x3b, 0);
        }
        if plo + k == hi {
            if parse_flags_range(s, plo, hi) == 4 {
                self.modify_other_keys_mode = None;
            }
            return;
        }
        let vlo = plo + k + 1;
        proof {
            assert(s@.subrange(vlo as int, hi as int) =~= p.skip(k + 1));
            assert(s@.subrange(plo as int, plo + k) =~= p.take(k as int));
        }
        let k2 = find_byte_range(s, vlo, hi, 0x3b);
        if vlo + k2 < hi {
            return;
        }
        if parse_flags_range(s, plo, plo + k) != 4 {
            return;
        }
        if vlo == hi {
            self.modify_other_keys_mode = None;
            return;
        }
        match parse_decimal_range(s, vlo, hi) {
            Some(v) => {
                if v == 0 {
                    self.modify_other_keys_mode = None;
                } else if v == 1 {
                    self.modify_other_keys_mode = Some(ModifyOtherKeysMode::Mode1);
                } else if v == 2 {
                    self.modify_other_keys_mode = Some(ModifyOtherKeysMode::Mode2);
                }
            },
            None => {},
        }
    }

    /// A complete CSI sequence with parameters `s[lo..hi]` and final byte `s[hi]`.
    fn observe_final(&mut self, s: &Vec<u8>, lo: usize, hi: usize)
        requires
            lo <= hi < s.len(),
        ensures
            final(self)@ == apply_final(old(self)@, s@[hi as int], s@.subrange(lo as int, hi as int)),
    {
        let f = s[hi];
        if f == 0x75 {
            self.observe_csi_u(s, lo, hi);
        } else if f == 0x6d {
            self.observe_modify_other_keys(s, lo, hi);
        } else if f == 0x6e {
            let ghost params = s@.subrange(lo as int, hi as int);
            if lo < hi && s[lo] == 0x3e {
                proof {
                    assert(s@.subrange(lo + 1, hi as int) =~= params.skip(1));
                }
                let k = find_byte_range(s, lo + 1, hi, 0x3b);
                if lo + 1 + k == hi && parse_flags_range(s, lo + 1, hi) == 4 {
                    self.modify_other_keys_mode = None;
                }
            }
        }
    }

    /// Keeps `s[from..]` for the next read when it is short enough.
    fn store_pending(&mut self, s: &Vec<u8>, from: usize)
        requires
            from <= s.len(),
        ensures
            final(self)@ == with_pending(old(self)@, keep_tail(s@.skip(from as int))),
    {
        self.pending = Vec::new();
        if s.len() - from <= MAX_PENDING {
            let mut i: usize = from;
            while i < s.len()
                invariant
                    from <= i <= s.len(),
                    self.pending@ == s@.subrange(from as int, i as int),
                    self.stack@ == old(self).stack@,
                    self.flags == old(self).flags,
                    self.modify_other_keys_mode == old(self).modify_other_keys_mode,
                decreases s.len() - i,
            {
                self.pending.push(s[i]);
                i = i + 1;
            }
        }
        assert(self.pending@ =~= keep_tail(s@.skip(from as int)));
    }

    /// Observes bytes a program wrote, completing any sequence the previous
    /// read left unfinished.
    pub fn observe(&mut self, bytes: &[u8])
        ensures
            final(self)@ == observed(old(self)@, bytes@),
            final(self)@.pending.len() <= MAX_PENDING,
    {
        let mut s: Vec<u8> = Vec::new();
        let mut k: usize = 0;
        while k < self.pending.len()
            invariant
                k <= self.pending.len(),
                s@ == self.pending@.take(k as int),
            decreases self.pending.len() - k,
        {
            s.push(self.pending[k]);
            k = k + 1;
        }
        let mut k: usize = 0;
        while k < bytes.len()
            invariant
                k <= bytes@.len(),
                s@ == self.pending@ + bytes@.take(k as int),
            decreases bytes@.len() - k,
        {
            s.push(bytes[k]);
            k = k + 1;
        }
        assert(s@ =~= old(self)@.pending + bytes@);
        self.pending = Vec::new();
        let ghost goal = observed(old(self)@, bytes@);
        assert(self@ == with_pending(old(self)@, Seq::empty()));
        let mut index: usize = 0;
        while index < s.len()
            invariant_except_break
                index <= s.len(),
                self@.pending == Seq::<u8>::empty(),
                with_pending(scan(self@, s@, index as int).0, keep_tail(scan(self@, s@, index as int).1)) == goal,
            ensures
                self@ == goal,
            decreases s.len() - index,
        {
            if s[index] != ESC {
                index = index + 1;
                continue;
            }
            if index + 1 >= s.len() {
                self.store_pending(&s, index);
                break;
            }
            if s[index + 1] == 0x63 {
                self.modify_other_keys_mode = None;
            }
            if s[index + 1] != 0x5b {
                index = index + 1;
                continue;
            }
            let end = csi_stop_index(&s, index + 2);
            if end >= s.len() {
                self.store_pending(&s, index);
                break;
            }
            if s[end] == ESC {
                index = end;
                continue;
            }
            proof {
                lemma_apply_final_keeps_pending(self@, s@[end as int], s@.subrange(index + 2, end as int));
            }
            self.observe_final(&s, index + 2, end);
            index = end + 1;
        }
    }
}

/// `CSI = flags u`: set the flags.
pub open spec fn set_text(f: u16) -> Seq<char> {
    seq!['\x1b', '[', '='] + decimal_text(f as nat) + seq!['u']
}

/// `CSI > flags u`: push the current flags and set new ones.
pub open spec fn push_text(f: u16) -> Seq<char> {
    seq!['\x1b', '[', '>'] + decimal_text(f as nat) + seq!['u']
}

pub open spec fn pushes_text(fs: Seq<u16>) -> Seq<char>
    decreases fs.len(),
{
    if fs.len() == 0 {
        Seq::empty()
    } else {
        pushes_text(fs.drop_last()) + push_text(fs.last())
    }
}

/// The sequences that rebuild the flags stack in a terminal that starts from
/// flags 0: set the oldest entry, then push each later one and the current
/// flags; nothing when there is nothing to restore.
pub open spec fn replay_text(st: KeyboardModel) -> Option<Seq<char>> {
    if st.stack.len() == 0 {
        if st.flags != 0 {
            Some(set_text(st.flags))
        } else {
            None
        }
    } else {
        let base = if st.stack[0] != 0 { set_text(st.stack[0]) } else { Seq::empty() };
        Some(base + pushes_text(st.stack.skip(1).push(st.flags)))
    }
}

fn push_set_text(out: &mut String, f: u16)
    ensures
        final(out)@ == old(out)@ + set_text(f),
{
    proof {
        reveal_strlit("\x1b[=");
        reveal_strlit("u");
    }
    out.append("\x1b[=");
    push_decimal(out, f as u64);
    out.append("u");
    assert(final(out)@ =~= old(out)@ + set_text(f));
}

fn push_push_text(out: &mut String, f: u16)
    ensures
        final(out)@ == old(out)@ + push_text(f),
{
    proof {
        reveal_strlit("\x1b[>");
        reveal_strlit("u");
    }
    out.append("\x1b[>");
    push_decimal(out, f as u64);
    out.append("u");
    assert(final(out)@ =~= old(out)@ + push_text(f));
}

/// A scan never touches the kept tail of its start state.
proof fn lemma_scan_keeps_pending(st: KeyboardModel, s: Seq<u8>, i: int)
    ensures
        scan(st, s, i).0.pending == st.pending,
    decreases s.len() - i,
{
    if 0 <= i < s.len() {
        if s[i] != ESC {
            lemma_scan_keeps_pending(st, s, i + 1);
        } else if i + 1 < s.len() {
            let st1 = if s[i + 1] == 0x63 { with_mode(st, None) } else { st };
            if s[i + 1] != 0x5b {
                lemma_scan_keeps_pending(st1, s, i + 1);
            } else {
                let e = csi_stop(s, i + 2);
                lemma_csi_stop_bounds(s, i + 2);
                if e < s.len() {
                    if s[e] == ESC {
                        lemma_scan_keeps_pending(st1, s, e);
                    } else {
                        let st2 = apply_final(st1, s[e], s.subrange(i + 2, e));
                        lemma_apply_final_keeps_pending(st1, s[e], s.subrange(i + 2, e));
                        lemma_scan_keeps_pending(st2, s, e + 1);
                    }
                }
            }
        }
    }
}

/// The unfinished tail is the suffix of the input from where the scan stopped.
proof fn lemma_scan_rest_is_suffix(st: KeyboardModel, s: Seq<u8>, i: int)
    requires
        0 <= i <= s.len(),
    ensures
        scan(st, s, i).1.len() <= s.len() - i,
        scan(st, s, i).1 == s.skip(s.len() - scan(st, s, i).1.len()),
    decreases s.len() - i,
{
    if i == s.len() {
        assert(s.skip(s.len() as int) =~= Seq::<u8>::empty());
    } else if s[i] != ESC {
        lemma_scan_rest_is_suffix(st, s, i + 1);
    } else if i + 1 < s.len() {
        let st1 = if s[i + 1] == 0x63 { with_mode(st, None) } else { st };
        if s[i + 1] != 0x5b {
            lemma_scan_rest_is_suffix(st1, s, i + 1);
        } else {
            let e = csi_stop(s, i + 2);
            lemma_csi_stop_bounds(s, i + 2);
            if e < s.len() {
                if s[e] == ESC {
                    lemma_scan_rest_is_suffix(st1, s, e);
                } else {
                    let st2 = apply_final(st1, s[e], s.subrange(i + 2, e));
                    lemma_scan_rest_is_suffix(st2, s, e + 1);
                }
            }
        }
    }
}

/// A sequence that ends inside `s1` ends at the same place when more bytes follow.
proof fn lemma_csi_stop_prefix(s1: Seq<u8>, b: Seq<u8>, j: int)
    requires
        0 <= j <= s1.len(),
        csi_stop(s1, j) < s1.len(),
    ensures
        csi_stop(s1 + b, j) == csi_stop(s1, j),
    decreases s1.len() - j,
{
    assert((s1 + b)[j] == s1[j]);
    if !(is_final_byte(s1[j]) || s1[j] == ESC) {
        lemma_csi_stop_prefix(s1, b, j + 1);
    }
}

/// Bytes that follow do not change how `s1` is scanned up to where it stops.
proof fn lemma_scan_prefix(st: KeyboardModel, s1: Seq<u8>, b: Seq<u8>, i: int)
    requires
        0 <= i <= s1.len(),
    ensures
        scan(st, s1 + b, i) == scan(scan(st, s1, i).0, s1 + b, s1.len() - scan(st, s1, i).1.len()),
    decreases s1.len() - i,
{
    let s = s1 + b;
    if i < s1.len() {
        assert(s[i] == s1[i]);
        if s1[i] != ESC {
            lemma_scan_prefix(st, s1, b, i + 1);
        } else if i + 1 < s1.len() {
            assert(s[i + 1] == s1[i + 1]);
            let st1 = if s1[i + 1] == 0x63 { with_mode(st, None) } else { st };
            if s1[i + 1] != 0x5b {
                lemma_scan_prefix(st1, s1, b, i + 1);
            } else {
                let e = csi_stop(s1, i + 2);
                lemma_csi_stop_bounds(s1, i + 2);
                if e < s1.len() {
                    lemma_csi_stop_prefix(s1, b, i + 2);
                    assert(s[e] == s1[e]);
                    if s1[e] == ESC {
                        lemma_scan_prefix(st1, s1, b, e);
                    } else {
                        assert(s.subrange(i + 2, e) =~= s1.subrange(i + 2, e));
                        let st2 = apply_final(st1, s1[e], s1.subrange(i + 2, e));
                        lemma_scan_prefix(st2, s1, b, e + 1);
                    }
                }
            }
        }
    }
}

proof fn lemma_csi_stop_shift(x: Seq<u8>, y: Seq<u8>, j: int)
    requires
        0 <= j <= y.len(),
    ensures
        csi_stop(x + y, x.len() + j) == x.len() + csi_stop(y, j),
    decreases y.len() - j,
{
    if j < y.len() {
        assert((x + y)[x.len() + j] == y[j]);
        if !(is_final_byte(y[j]) || y[j] == ESC) {
            lemma_csi_stop_shift(x, y, j + 1);
        }
    }
}

/// Scanning the tail `y` of `x + y` is scanning `y` alone.
proof fn lemma_scan_shift(st: KeyboardModel, x: Seq<u8>, y: Seq<u8>, j: int)
    requires
        0 <= j <= y.len(),
    ensures
        scan(st, x + y, x.len() + j) == scan(st, y, j),
    decreases y.len() - j,
{
    let s = x + y;
    let i = x.len() + j;
    if j < y.len() {
        assert(s[i] == y[j]);
        if y[j] != ESC {
            lemma_scan_shift(st, x, y, j + 1);
        } else if j + 1 >= y.len() {
            assert(s.skip(i) =~= y.skip(j));
        } else {
            assert(s[i + 1] == y[j + 1]);
            let st1 = if y[j + 1] == 0x63 { with_mode(st, None) } else { st };
            if y[j + 1] != 0x5b {
                lemma_scan_shift(st1, x, y, j + 1);
            } else {
                lemma_csi_stop_shift(x, y, j + 2);
                lemma_csi_stop_bounds(y, j + 2);
                let e = csi_stop(y, j + 2);
                if e >= y.len() {
                    assert(s.skip(i) =~= y.skip(j));
                } else {
                    assert(s[x.len() + e] == y[e]);
                    if y[e] == ESC {
                        lemma_scan_shift(st1, x, y, e);
                    } else {
                        assert(s.subrange(i + 2, x.len() + e) =~= y.subrange(j + 2, e));
                        let st2 = apply_final(st1, y[e], y.subrange(j + 2, e));
                        lemma_scan_shift(st2, x, y, e + 1);
                    }
                }
            }
        }
    }
}

/// Reading a stream in two pieces has the same effect as reading it at once,
/// wherever the cut falls, as long as the piece left unfinished at the cut
/// is short enough to be kept.
pub proof fn lemma_observe_split(t: KeyboardModel, a: Seq<u8>, b: Seq<u8>)
    requires
        unfinished_tail(t, a).len() <= MAX_PENDING,
    ensures
        observed(observed(t, a), b) == observed(t, a + b),
{
    let t0 = with_pending(t, Seq::empty());
    let s1 = t.pending + a;
    let r = scan(t0, s1, 0);
    let stp = r.0;
    let rest = r.1;
    let p = s1.len() - rest.len();
    lemma_scan_keeps_pending(t0, s1, 0);
    lemma_scan_rest_is_suffix(t0, s1, 0);
    let u = observed(t, a);
    assert(u == with_pending(stp, rest));
    assert(with_pending(u, Seq::empty()) == stp) by {
        assert(stp.pending =~= Seq::<u8>::empty());
    }
    assert(t.pending + (a + b) =~= s1 + b);
    lemma_scan_prefix(t0, s1, b, 0);
    assert(s1 + b =~= s1.take(p) + (rest + b));
    lemma_scan_shift(stp, s1.take(p), rest + b, 0);
    assert(u.pending + b =~= rest + b);
}

/// Whatever a program writes, at most `MAX_PENDING` bytes are held back.
pub proof fn lemma_pending_bounded(t: KeyboardModel, bytes: Seq<u8>)
    ensures
        observed(t, bytes).pending.len() <= MAX_PENDING,
{
}

/// The bytes of an ASCII text.
pub open spec fn ascii_bytes(t: Seq<char>) -> Seq<u8> {
    Seq::new(t.len(), |i: int| t[i] as u8)
}

proof fn lemma_ascii_bytes_concat(a: Seq<char>, b: Seq<char>)
    ensures
        ascii_bytes(a + b) == ascii_bytes(a) + ascii_bytes(b),
{
    assert(ascii_bytes(a + b) =~= ascii_bytes(a) + ascii_bytes(b));
}

proof fn lemma_digit_char_byte(d: nat)
    requires
        d < 10,
    ensures
        (crate::text::digit_char(d) as u8) as int == 48 + d,
{
    if d == 0 {
        assert(('0' as u8) == 48u8);
    } else if d == 1 {
        assert(('1' as u8) == 49u8);
    } else if d == 2 {
        assert(('2' as u8) == 50u8);
    } else if d == 3 {
        assert(('3' as u8) == 51u8);
    } else if d == 4 {
        assert(('4' as u8) == 52u8);
    } else if d == 5 {
        assert(('5' as u8) == 53u8);
    } else if d == 6 {
        assert(('6' as u8) == 54u8);
    } else if d == 7 {
        assert(('7' as u8) == 55u8);
    } else if d == 8 {
        assert(('8' as u8) == 56u8);
    } else {
        assert(('9' as u8) == 57u8);
    }
}

/// The bytes of a decimal numeral are the digits that denote it.
proof fn lemma_decimal_bytes(n: nat)
    ensures
        ascii_bytes(decimal_text(n)).len() > 0,
        all_digits(ascii_bytes(decimal_text(n))),
        decimal_value(ascii_bytes(decimal_text(n))) == n,
    decreases n,
{
    let d = ascii_bytes(decimal_text(n));
    if n < 10 {
        lemma_digit_char_byte(n);
        assert(d =~= seq![crate::text::digit_char(n) as u8]);
        assert(d.drop_last() =~= Seq::<u8>::empty());
        assert(decimal_value(d.drop_last()) == 0);
        assert(d.last() as int == 48 + n);
        assert(digit_value(d.last()) == n);
    } else {
        lemma_digit_char_byte(n % 10);
        lemma_decimal_bytes(n / 10);
        let t = ascii_bytes(decimal_text(n / 10));
        assert(d.drop_last() =~= t);
        assert(d.last() == crate::text::digit_char(n % 10) as u8);
        assert(digit_value(d.last()) == n % 10);
        assert((n / 10) * 10 + n % 10 == n);
        assert forall|i: int| 0 <= i < d.len() implies is_digit_byte(#[trigger] d[i]) by {
            if i < d.len() - 1 {
                assert(d[i] == t[i]);
            }
        }
    }
}

proof fn lemma_no_semicolon_in_digits(d: Seq<u8>, from: int)
    requires
        all_digits(d),
        0 <= from <= d.len(),
    ensures
        find_byte(d, 0x3b, from) == d.len(),
    decreases d.len() - from,
{
    if from < d.len() {
        assert(is_digit_byte(d[from]));
        lemma_no_semicolon_in_digits(d, from + 1);
    }
}

/// A CSI sequence whose parameter bytes are all below the final-byte range
/// ends at its first final byte.
proof fn lemma_csi_stop_at(s: Seq<u8>, j: int, e: int)
    requires
        0 <= j <= e < s.len(),
        forall|m: int| j <= m < e ==> #[trigger] s[m] < 0x40 && s[m] != ESC,
        is_final_byte(s[e]),
    ensures
        csi_stop(s, j) == e,
    decreases e - j,
{
    if j < e {
        lemma_csi_stop_at(s, j + 1, e);
    }
}

/// One push of the flags stack.
pub open spec fn push_state(st: KeyboardModel, f: u16) -> KeyboardModel {
    KeyboardModel { pending: st.pending, stack: st.stack.push(st.flags), flags: f, mode: st.mode }
}

pub open spec fn push_all(st: KeyboardModel, fs: Seq<u16>) -> KeyboardModel
    decreases fs.len(),
{
    if fs.len() == 0 {
        st
    } else {
        push_state(push_all(st, fs.drop_last()), fs.last())
    }
}

/// The bytes of `CSI kind f u`.
pub open spec fn csi_u_bytes(kind: u8, f: u16) -> Seq<u8> {
    seq![ESC, 0x5bu8, kind] + ascii_bytes(decimal_text(f as nat)) + seq![0x75u8]
}

/// Scanning a complete `CSI = f u` or `CSI > f u` applies it and moves on.
proof fn lemma_scan_csi_u(st: KeyboardModel, kind: u8, f: u16, rest: Seq<u8>)
    requires
        kind == 0x3d || kind == 0x3e,
    ensures
        scan(st, csi_u_bytes(kind, f) + rest, 0) == scan(
            if kind == 0x3e { push_state(st, f) } else { with_flags(st, f) },
            rest,
            0,
        ),
{
    let d = ascii_bytes(decimal_text(f as nat));
    lemma_decimal_bytes(f as nat);
    let q = csi_u_bytes(kind, f);
    let s = q + rest;
    let e: int = 3 + d.len() as int;
    assert(q.len() == e + 1);
    assert(s[0] == ESC && s[1] == 0x5b && s[2] == kind);
    assert(s[e] == 0x75);
    assert forall|m: int| 2 <= m < e implies #[trigger] s[m] < 0x40 && s[m] != ESC by {
        if m > 2 {
            assert(s[m] == d[m - 3]);
            assert(is_digit_byte(d[m - 3]));
        }
    }
    lemma_csi_stop_at(s, 2, e);
    let params = s.subrange(2, e);
    assert(params =~= seq![kind] + d);
    assert(params.skip(1) =~= d);
    lemma_no_semicolon_in_digits(d, 0);
    assert(d.take(d.len() as int) =~= d);
    assert(parse_flags(d) == f);
    lemma_scan_shift(apply_final(st, 0x75, params), q, rest, 0);
}

proof fn lemma_scan_pushes(st: KeyboardModel, fs: Seq<u16>, rest: Seq<u8>)
    ensures
        scan(st, ascii_bytes(pushes_text(fs)) + rest, 0) == scan(push_all(st, fs), rest, 0),
    decreases fs.len(),
{
    if fs.len() == 0 {
        assert(ascii_bytes(pushes_text(fs)) + rest =~= rest);
    } else {
        let init = fs.drop_last();
        let last = fs.last();
        lemma_ascii_bytes_concat(pushes_text(init), push_text(last));
        assert(ascii_bytes(push_text(last)) =~= csi_u_bytes(0x3e, last));
        let rest2 = csi_u_bytes(0x3e, last) + rest;
        assert(ascii_bytes(pushes_text(fs)) + rest =~= ascii_bytes(pushes_text(init)) + rest2);
        lemma_scan_pushes(st, init, rest2);
        lemma_scan_csi_u(push_all(st, init), 0x3e, last, rest);
    }
}

proof fn lemma_push_all_shape(st: KeyboardModel, fs: Seq<u16>)
    requires
        fs.len() > 0,
    ensures
        push_all(st, fs).stack == st.stack.push(st.flags) + fs.drop_last(),
        push_all(st, fs).flags == fs.last(),
    decreases fs.len(),
{
    assert(push_all(st, fs) == push_state(push_all(st, fs.drop_last()), fs.last()));
    if fs.len() > 1 {
        lemma_push_all_shape(st, fs.drop_last());
        assert(st.stack.push(st.flags) + fs.drop_last() =~= (st.stack.push(st.flags) + fs.drop_last().drop_last()).push(
            fs.drop_last().last(),
        ));
    } else {
        assert(fs.drop_last() =~= Seq::<u16>::empty());
        assert(push_all(st, fs.drop_last()) == st);
        assert(st.stack.push(st.flags) + fs.drop_last() =~= st.stack.push(st.flags));
    }
}

/// Replaying a tracker's sequences into a terminal that starts from scratch
/// rebuilds exactly its flags and flags stack.
pub proof fn lemma_replay_restores_flags(st: KeyboardModel)
    ensures
        ({
            let bytes = match replay_text(st) {
                Some(t) => ascii_bytes(t),
                None => Seq::empty(),
            };
            &&& observed(initial_keyboard(), bytes).stack == st.stack
            &&& observed(initial_keyboard(), bytes).flags == st.flags
        }),
{
    let init = with_pending(initial_keyboard(), Seq::empty());
    assert(init == initial_keyboard());
    match replay_text(st) {
        None => {
            assert(initial_keyboard().pending + Seq::<u8>::empty() =~= Seq::<u8>::empty());
            assert(st.stack =~= Seq::<u16>::empty());
        },
        Some(t) => {
            let bytes = ascii_bytes(t);
            assert(initial_keyboard().pending + bytes =~= bytes);
            if st.stack.len() == 0 {
                assert(ascii_bytes(set_text(st.flags)) =~= csi_u_bytes(0x3d, st.flags));
                assert(bytes =~= csi_u_bytes(0x3d, st.flags) + Seq::<u8>::empty());
                lemma_scan_csi_u(init, 0x3d, st.flags, Seq::empty());
                assert(st.stack =~= Seq::<u16>::empty());
            } else {
                let all = st.stack.skip(1).push(st.flags);
                let base = if st.stack[0] != 0 { set_text(st.stack[0]) } else { Seq::empty() };
                lemma_ascii_bytes_concat(base, pushes_text(all));
                let st1 = with_flags(init, st.stack[0]);
                if st.stack[0] != 0 {
                    assert(ascii_bytes(base) =~= csi_u_bytes(0x3d, st.stack[0]));
                    assert(bytes =~= csi_u_bytes(0x3d, st.stack[0]) + (ascii_bytes(pushes_text(all)) + Seq::<u8>::empty()));
                    lemma_scan_csi_u(init, 0x3d, st.stack[0], ascii_bytes(pushes_text(all)) + Seq::<u8>::empty());
                } else {
                    assert(st1 == init);
                    assert(bytes =~= ascii_bytes(pushes_text(all)) + Seq::<u8>::empty());
                }
                lemma_scan_pushes(st1, all, Seq::empty());
                lemma_push_all_shape(st1, all);
                assert(all.drop_last() =~= st.stack.skip(1));
                assert(Seq::<u16>::empty().push(st.stack[0]) + st.stack.skip(1) =~= st.stack);
            }
        },
    }
}

proof fn lemma_pop_n_exact(st: KeyboardModel, n: nat)
    requires
        n <= st.stack.len(),
    ensures
        pop_n(st, n).stack == st.stack.take(st.stack.len() - n),
        n >= 1 ==> pop_n(st, n).flags == st.stack[st.stack.len() - n],
        pop_n(st, n).pending == st.pending,
        pop_n(st, n).mode == st.mode,
        n == 0 ==> pop_n(st, n) == st,
    decreases n,
{
    if n > 0 {
        lemma_pop_n_exact(st, (n - 1) as nat);
        let prev = pop_n(st, (n - 1) as nat);
        assert(prev.stack.len() == st.stack.len() - (n - 1));
        assert(prev.stack.drop_last() =~= st.stack.take(st.stack.len() - n));
        assert(prev.stack.last() == st.stack[st.stack.len() - n]);
    } else {
        assert(st.stack.take(st.stack.len() as int) =~= st.stack);
    }
}

/// `CSI < n u` with `n >= 1` pops exactly `n` entries of the flags stack
/// when it holds at least `n`: the stack loses its top `n` entries and the
/// flags become the deepest entry popped; nothing else changes.
pub proof fn lemma_pop_sequence_pops_exactly(st: KeyboardModel, params: Seq<u8>)
    requires
        params.len() > 0,
        params[0] == 0x3c,
        1 <= parse_flags(params.skip(1)) <= st.stack.len(),
    ensures
        ({
            let n = parse_flags(params.skip(1)) as int;
            let out = apply_csi_u(st, params);
            &&& out.stack == st.stack.take(st.stack.len() - n)
            &&& out.flags == st.stack[st.stack.len() - n]
            &&& out.pending == st.pending
            &&& out.mode == st.mode
        }),
{
    lemma_pop_n_exact(st, parse_flags(params.skip(1)) as nat);
}

/// Pushing flags and then popping once (`CSI > f u`, then `CSI < 1 u`)
/// gives back the state before the push.
pub proof fn lemma_push_then_pop_restores(st: KeyboardModel, flags_params: Seq<u8>)
    ensures
        apply_csi_u(apply_csi_u(st, seq![0x3eu8] + flags_params), seq![0x3cu8, 0x31u8]) == st,
{
    let pushed = apply_csi_u(st, seq![0x3eu8] + flags_params);
    assert((seq![0x3eu8] + flags_params)[0] == 0x3e);
    assert(pushed.stack == st.stack.push(st.flags));
    let one = seq![0x3cu8, 0x31u8].skip(1);
    assert(one =~= seq![0x31u8]);
    assert(find_byte(one, 0x3b, 1) == 1);
    assert(semicolon_at(one) == 1);
    assert(one.take(1) =~= one);
    assert(decimal_value(one.drop_last()) == 0);
    assert(decimal_value(one) == 1);
    assert(parse_flags(one) == 1);
    lemma_pop_n_exact(pushed, 1);
    assert(pushed.stack.take(pushed.stack.len() - 1) =~= st.stack);
}

} // verus!
