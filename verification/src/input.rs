//! Keyboard and mouse protocol state negotiated by programs running in a
//! pane, and the mouse reports sent to them.

use vstd::prelude::*;
use crate::text::{decimal_text, push_decimal};

verus! {

/// The xterm `modifyOtherKeys` level a program has enabled.
#[derive(Debug, Clone, Copy, PartialEq, Eq, Structural)]
pub enum ModifyOtherKeysMode {
    Mode1,
    Mode2,
}

/// How a program asked mouse reports to be encoded.
#[derive(Debug, Clone, Copy, PartialEq, Eq, Structural)]
pub enum MouseProtocolEncoding {
    /// `CSI M` with each value as one byte offset by 32.
    Default,
    /// `CSI M` with each value as a UTF-8 character offset by 32.
    Utf8,
    /// `CSI < b ; x ; y M/m` in decimal.
    Sgr,
    /// SGR with pixel coordinates.
    SgrPixels,
}

#[derive(Debug, Clone, Copy, PartialEq, Eq, Structural)]
pub enum MouseButton {
    Left,
    Right,
    Middle,
}

/// What the mouse did.
#[derive(Debug, Clone, Copy, PartialEq, Eq, Structural)]
pub enum MouseEventKind {
    Down(MouseButton),
    Up(MouseButton),
    Drag(MouseButton),
    Moved,
    ScrollDown,
    ScrollUp,
    ScrollLeft,
    ScrollRight,
}

/// Modifier keys held during a mouse event.
#[derive(Debug, Clone, Copy, PartialEq, Eq, Structural)]
pub struct KeyModifiers {
    pub shift: bool,
    pub alt: bool,
    pub control: bool,
}

impl KeyModifiers {
    pub fn empty() -> (r: Self)
        ensures
            !r.shift && !r.alt && !r.control,
    {
        KeyModifiers { shift: false, alt: false, control: false }
    }
}

/// The button code with modifier bits: shift 4, alt 8, control 16.
pub open spec fn mouse_cb(base: u16, release: bool, modifiers: KeyModifiers, encoding: MouseProtocolEncoding) -> nat {
    let b: nat = if release && !(encoding == MouseProtocolEncoding::Sgr || encoding == MouseProtocolEncoding::SgrPixels) {
        3
    } else {
        base as nat
    };
    b + (if modifiers.shift { 4nat } else { 0 }) + (if modifiers.alt { 8nat } else { 0 }) + (if modifiers.control {
        16nat
    } else {
        0
    })
}

/// A code point usable as a `char`.
pub open spec fn scalar(v: nat) -> bool {
    v <= 0x10ffff && !(0xd800 <= v && v <= 0xdfff)
}

/// The report for button code `base` at a zero-based cell.
pub open spec fn mouse_report(base: u16, release: bool, column: u16, row: u16, modifiers: KeyModifiers, encoding: MouseProtocolEncoding) -> Option<Seq<u8>> {
    let cb = mouse_cb(base, release, modifiers, encoding);
    let x = column + 1;
    let y = row + 1;
    if encoding == MouseProtocolEncoding::Sgr || encoding == MouseProtocolEncoding::SgrPixels {
        Some(vstd::utf8::encode_utf8(seq!['\x1b', '[', '<'] + decimal_text(cb) + seq![';'] + decimal_text(x as nat)
            + seq![';'] + decimal_text(y as nat) + seq![if release { 'm' } else { 'M' }]))
    } else if encoding == MouseProtocolEncoding::Default {
        if cb + 32 <= 255 && x + 32 <= 255 && y + 32 <= 255 {
            Some(seq![0x1bu8, 0x5bu8, 0x4du8, (cb + 32) as u8, (x + 32) as u8, (y + 32) as u8])
        } else {
            None
        }
    } else {
        if scalar(cb + 32) && scalar((x + 32) as nat) && scalar((y + 32) as nat) {
            Some(seq![0x1bu8, 0x5bu8, 0x4du8] + vstd::utf8::encode_scalar((cb + 32) as u32)
                + vstd::utf8::encode_scalar((x + 32) as u32) + vstd::utf8::encode_scalar((y + 32) as u32))
        } else {
            None
        }
    }
}

fn push_scalar(bytes: &mut Vec<u8>, v: u32)
    requires
        scalar(v as nat),
    ensures
        final(bytes)@ == old(bytes)@ + vstd::utf8::encode_scalar(v),
{
    if v <= 0x7f {
        bytes.push((v & 0x7f) as u8);
    } else if v <= 0x7ff {
        bytes.push(0xC0 | ((v >> 6) & 0x1F) as u8);
        bytes.push(0x80 | (v & 0x3F) as u8);
    } else if v <= 0xffff {
        bytes.push(0xE0 | ((v >> 12) & 0x0F) as u8);
        bytes.push(0x80 | ((v >> 6) & 0x3F) as u8);
        bytes.push(0x80 | (v & 0x3F) as u8);
    } else {
        bytes.push(0xF0 | ((v >> 18) & 0x7) as u8);
        bytes.push(0x80 | ((v >> 12) & 0x3F) as u8);
        bytes.push(0x80 | ((v >> 6) & 0x3F) as u8);
        bytes.push(0x80 | (v & 0x3F) as u8);
    }
    assert(final(bytes)@ =~= old(bytes)@ + vstd::utf8::encode_scalar(v));
}

fn is_scalar_value(v: u32) -> (r: bool)
    ensures
        r == scalar(v as nat),
{
    v <= 0x10ffff && !(0xd800 <= v && v <= 0xdfff)
}

/// Encodes a mouse report with button code `base_button`.
fn encode_mouse_cb(
    base_button: u16,
    release: bool,
    column: u16,
    row: u16,
    modifiers: KeyModifiers,
    encoding: MouseProtocolEncoding,
) -> (r: Option<Vec<u8>>)
    requires
        base_button <= 67,
    ensures
        match mouse_report(base_button, release, column, row, modifiers, encoding) {
            Some(b) => r matches Some(v) && v@ == b,
            None => r is None,
        },
{
    let sgr = match encoding {
        MouseProtocolEncoding::Sgr => true,
        MouseProtocolEncoding::SgrPixels => true,
        _ => false,
    };
    let mut cb: u32 = if release && !sgr { 3 } else { base_button as u32 };
    if modifiers.shift {
        cb = cb + 4;
    }
    if modifiers.alt {
        cb = cb + 8;
    }
    if modifiers.control {
        cb = cb + 16;
    }
    assert(cb == mouse_cb(base_button, release, modifiers, encoding));
    let x: u32 = column as u32 + 1;
    let y: u32 = row as u32 + 1;
    if sgr {
        proof {
            reveal_strlit("\x1b[<");
            reveal_strlit(";");
            reveal_strlit("m");
            reveal_strlit("M");
        }
        let mut text = String::from_str("\x1b[<");
        push_decimal(&mut text, cb as u64);
        text.append(";");
        push_decimal(&mut text, x as u64);
        text.append(";");
        push_decimal(&mut text, y as u64);
        if release {
            text.append("m");
        } else {
            text.append("M");
        }
        assert(text@ =~= seq!['\x1b', '[', '<'] + decimal_text(cb as nat) + seq![';'] + decimal_text(x as nat)
            + seq![';'] + decimal_text(y as nat) + seq![if release { 'm' } else { 'M' }]);
        let raw = text.as_str().as_bytes();
        let mut out: Vec<u8> = Vec::new();
        let mut i: usize = 0;
        while i < raw.len()
            invariant
                i <= raw@.len(),
                out@ == raw@.take(i as int),
            decreases raw@.len() - i,
        {
            out.push(raw[i]);
            assert(out@ =~= raw@.take(i + 1));
            i += 1;
        }
        assert(raw@.take(i as int) =~= raw@);
        return Some(out);
    }
    match encoding {
        MouseProtocolEncoding::Default => {
            if cb + 32 > 255 || x + 32 > 255 || y + 32 > 255 {
                return None;
            }
            Some(vec![0x1b, 0x5b, 0x4d, (cb + 32) as u8, (x + 32) as u8, (y + 32) as u8])
        },
        _ => {
            if !is_scalar_value(cb + 32) || !is_scalar_value(x + 32) || !is_scalar_value(y + 32) {
                return None;
            }
            let mut bytes: Vec<u8> = vec![0x1b, 0x5b, 0x4d];
            push_scalar(&mut bytes, cb + 32);
            push_scalar(&mut bytes, x + 32);
            push_scalar(&mut bytes, y + 32);
            Some(bytes)
        },
    }
}

/// Encodes a wheel event; other events give nothing.
pub fn encode_mouse_scroll(
    kind: MouseEventKind,
    column: u16,
    row: u16,
    modifiers: KeyModifiers,
    encoding: MouseProtocolEncoding,
) -> (r: Option<Vec<u8>>)
    ensures
        match kind {
            MouseEventKind::ScrollUp => same_report(r, mouse_report(64, false, column, row, modifiers, encoding)),
            MouseEventKind::ScrollDown => same_report(r, mouse_report(65, false, column, row, modifiers, encoding)),
            MouseEventKind::ScrollLeft => same_report(r, mouse_report(66, false, column, row, modifiers, encoding)),
            MouseEventKind::ScrollRight => same_report(r, mouse_report(67, false, column, row, modifiers, encoding)),
            _ => r is None,
        },
{
    let button: u16 = match kind {
        MouseEventKind::ScrollUp => 64,
        MouseEventKind::ScrollDown => 65,
        MouseEventKind::ScrollLeft => 66,
        MouseEventKind::ScrollRight => 67,
        _ => return None,
    };
    encode_mouse_cb(button, false, column, row, modifiers, encoding)
}

/// The report matches the specified one (or both are absent).
pub open spec fn same_report(r: Option<Vec<u8>>, expected: Option<Seq<u8>>) -> bool {
    match expected {
        Some(b) => r matches Some(v) && v@ == b,
        None => r is None,
    }
}

/// The button code and release flag of a press, release or drag.
pub open spec fn button_code(kind: MouseEventKind) -> Option<(u16, bool)> {
    match kind {
        MouseEventKind::Down(b) => Some((button_index(b), false)),
        MouseEventKind::Up(b) => Some((button_index(b), true)),
        MouseEventKind::Drag(b) => Some(((32 + button_index(b)) as u16, false)),
        _ => None,
    }
}

pub open spec fn button_index(b: MouseButton) -> u16 {
    match b {
        MouseButton::Left => 0,
        MouseButton::Middle => 1,
        MouseButton::Right => 2,
    }
}

/// Encodes a press, release or drag; other events give nothing.
pub fn encode_mouse_button(
    kind: MouseEventKind,
    column: u16,
    row: u16,
    modifiers: KeyModifiers,
    encoding: MouseProtocolEncoding,
) -> (r: Option<Vec<u8>>)
    ensures
        match button_code(kind) {
            Some((b, release)) => same_report(r, mouse_report(b, release, column, row, modifiers, encoding)),
            None => r is None,
        },
{
    let index = |b: MouseButton| -> (i: u16)
        ensures
            i == button_index(b),
        {
            match b {
                MouseButton::Left => 0,
                MouseButton::Middle => 1,
                MouseButton::Right => 2,
            }
        };
    let (button, release): (u16, bool) = match kind {
        MouseEventKind::Down(b) => (index(b), false),
        MouseEventKind::Up(b) => (index(b), true),
        MouseEventKind::Drag(b) => (32 + index(b), false),
        _ => return None,
    };
    encode_mouse_cb(button, release, column, row, modifiers, encoding)
}

/// The modifier bits a report adds to the button code.
pub open spec fn modifier_bits(m: KeyModifiers) -> nat {
    (if m.shift { 4nat } else { 0nat }) + (if m.alt { 8nat } else { 0nat }) + (if m.control { 16nat } else { 0nat })
}

/// Modifiers add to the button code: shift 4, alt 8, control 16. A press
/// reported in SGR reads `CSI < code ; x ; y M` with that code, and in the
/// default encoding its fourth byte is the code plus 32; so holding a
/// modifier raises the reported code by exactly its bit.
pub proof fn lemma_modifiers_raise_the_code(base: u16, column: u16, row: u16, m: KeyModifiers)
    ensures
        modifier_bits(KeyModifiers { shift: false, alt: false, control: true }) == 16,
        modifier_bits(KeyModifiers { shift: false, alt: true, control: false }) == 8,
        modifier_bits(KeyModifiers { shift: true, alt: false, control: false }) == 4,
        mouse_report(base, false, column, row, m, MouseProtocolEncoding::Sgr) == Some(vstd::utf8::encode_utf8(
            seq!['\x1b', '[', '<'] + decimal_text((base + modifier_bits(m)) as nat) + seq![';'] + decimal_text((column + 1) as nat)
                + seq![';'] + decimal_text((row + 1) as nat) + seq!['M'],
        )),
        mouse_report(base, false, column, row, m, MouseProtocolEncoding::Default) matches Some(b)
            ==> b.len() == 6 && b[3] == base + modifier_bits(m) + 32,
{
}

} // verus!
