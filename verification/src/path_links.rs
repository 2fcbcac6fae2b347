//! Local path links in pane output. Parsing is pure; whether a path exists
//! is checked by the caller, after a click, never while parsing output.

use vstd::prelude::*;
use crate::text::{
    chars_of, eq_ignore_ascii_case, eq_ignore_case_chars, has_prefix, is_whitespace, is_ws,
    slice_chars, starts_with_lit, string_of_chars, trim_end_by, trim_end_chars, utf8_text, CharClass,
};
use crate::text::eq_chars;
use crate::platform::{ascii_lower, ascii_lowercase};

verus! {

pub const MAX_TARGET_BYTES: usize = 4096;

/// Bytes in the UTF-8 encoding of `c`.
pub open spec fn utf8_width(c: char) -> nat {
    let v = c as u32;
    if v <= 0x7f {
        1
    } else if v <= 0x7ff {
        2
    } else if v <= 0xffff {
        3
    } else {
        4
    }
}

/// Bytes in the UTF-8 encoding of `s`.
pub open spec fn utf8_len(s: Seq<char>) -> nat
    decreases s.len(),
{
    if s.len() == 0 {
        0
    } else {
        utf8_len(s.drop_last()) + utf8_width(s.last())
    }
}

pub fn char_width(c: char) -> (r: usize)
    ensures
        r == utf8_width(c),
{
    let v = c as u32;
    if v <= 0x7f {
        1
    } else if v <= 0x7ff {
        2
    } else if v <= 0xffff {
        3
    } else {
        4
    }
}

pub proof fn lemma_utf8_len_prefix(s: Seq<char>, i: int)
    requires
        0 <= i <= s.len(),
    ensures
        utf8_len(s.take(i)) <= utf8_len(s),
        i < s.len() ==> utf8_len(s.take(i + 1)) == utf8_len(s.take(i)) + utf8_width(s[i]),
    decreases s.len() - i,
{
    if i < s.len() {
        assert(s.take(i + 1).drop_last() =~= s.take(i));
        lemma_utf8_len_prefix(s, i + 1);
    } else {
        assert(s.take(i) =~= s);
    }
}

/// `char::is_control`: the C0 and C1 control characters.
pub open spec fn is_control(c: char) -> bool {
    (c as u32) <= 0x1f || (0x7f <= (c as u32) && (c as u32) <= 0x9f)
}

/// Non-empty, at most `MAX_TARGET_BYTES` bytes, no control characters.
pub open spec fn valid_text(v: Seq<char>) -> bool {
    &&& v.len() > 0
    &&& utf8_len(v) <= MAX_TARGET_BYTES
    &&& forall|i: int| 0 <= i < v.len() ==> !is_control(#[trigger] v[i])
}

pub open spec fn ascii_alpha(c: char) -> bool {
    ('a' <= c && c <= 'z') || ('A' <= c && c <= 'Z')
}

/// `X:/` or `X:\` at the start.
pub open spec fn windows_drive(v: Seq<char>) -> bool {
    v.len() >= 3 && ascii_alpha(v[0]) && v[1] == ':' && (v[2] == '/' || v[2] == '\\')
}

/// Characters no local path link may contain (after a drive prefix): URI
/// schemes, drive-relative paths, alternate data streams, wildcards, pipes
/// and redirections.
pub open spec fn forbidden_in_path(c: char) -> bool {
    c == ':' || c == '?' || c == '*' || c == '|' || c == '<' || c == '>'
}

pub open spec fn is_sep(c: char) -> bool {
    c == '/' || c == '\\'
}

/// Index of the first `c` in `v` at or after `from`, or the length of `v`.
pub open spec fn next_char(v: Seq<char>, c: char, from: int) -> int
    decreases v.len() - from,
{
    if from < 0 || from >= v.len() {
        v.len() as int
    } else if v[from] == c {
        from
    } else {
        next_char(v, c, from + 1)
    }
}

/// Index of the first separator in `v` at or after `from`, or the length.
pub open spec fn next_sep(v: Seq<char>, from: int) -> int
    decreases v.len() - from,
{
    if from < 0 || from >= v.len() {
        v.len() as int
    } else if is_sep(v[from]) {
        from
    } else {
        next_sep(v, from + 1)
    }
}

pub open spec fn ascii_upper(c: char) -> char {
    if 'a' <= c && c <= 'z' {
        ((c as u32) - 32) as char
    } else {
        c
    }
}

pub open spec fn ascii_uppercase(s: Seq<char>) -> Seq<char> {
    Seq::new(s.len(), |i: int| ascii_upper(s[i]))
}

/// A Windows device name: the component's stem (before its first `.`,
/// without trailing whitespace, ASCII-uppercased) is CON, PRN, AUX, NUL,
/// or COM1-9 / LPT1-9.
pub open spec fn reserved_component(part: Seq<char>) -> bool {
    let stem = ascii_uppercase(trim_end_by(part.take(next_char(part, '.', 0)), CharClass::Whitespace));
    ||| stem == seq!['C', 'O', 'N']
    ||| stem == seq!['P', 'R', 'N']
    ||| stem == seq!['A', 'U', 'X']
    ||| stem == seq!['N', 'U', 'L']
    ||| (stem.len() == 4 && ((stem[0] == 'C' && stem[1] == 'O' && stem[2] == 'M') || (stem[0]
        == 'L' && stem[1] == 'P' && stem[2] == 'T')) && '1' <= stem[3] && stem[3] <= '9')
}

/// A component of `t` starts at `p`.
pub open spec fn component_start(t: Seq<char>, p: int) -> bool {
    0 <= p <= t.len() && (p == 0 || is_sep(t[p - 1]))
}

/// A path a link may name: valid text, no UNC or device-namespace prefix,
/// no forbidden characters after an optional drive, and no component that
/// names a Windows device.
pub open spec fn path_allowed(v: Seq<char>) -> bool {
    &&& valid_text(v)
    &&& v[0] != '\\'
    &&& !(v.len() >= 2 && v[0] == '/' && v[1] == '/')
    &&& forall|i: int| 0 <= i < drive_tail(v).len() ==> !forbidden_in_path(#[trigger] drive_tail(v)[i])
    &&& forall|p: int| #[trigger] component_start(drive_tail(v), p) ==> !reserved_component(
        drive_tail(v).subrange(p, next_sep(drive_tail(v), p)),
    )
}

/// The path after a drive prefix, if any.
pub open spec fn drive_tail(v: Seq<char>) -> Seq<char> {
    if windows_drive(v) {
        v.skip(2)
    } else {
        v
    }
}

pub proof fn lemma_next_sep(v: Seq<char>, from: int)
    requires
        0 <= from <= v.len(),
    ensures
        from <= next_sep(v, from) <= v.len(),
        next_sep(v, from) < v.len() ==> is_sep(v[next_sep(v, from)]),
        forall|j: int| from <= j < next_sep(v, from) ==> !is_sep(#[trigger] v[j]),
    decreases v.len() - from,
{
    if from < v.len() && !is_sep(v[from]) {
        lemma_next_sep(v, from + 1);
    }
}

pub proof fn lemma_next_char(v: Seq<char>, c: char, from: int)
    requires
        0 <= from <= v.len(),
    ensures
        from <= next_char(v, c, from) <= v.len(),
        next_char(v, c, from) < v.len() ==> v[next_char(v, c, from)] == c,
        forall|j: int| from <= j < next_char(v, c, from) ==> #[trigger] v[j] != c,
    decreases v.len() - from,
{
    if from < v.len() && v[from] != c {
        lemma_next_char(v, c, from + 1);
    }
}

fn is_control_char(c: char) -> (r: bool)
    ensures
        r == is_control(c),
{
    let v = c as u32;
    v <= 0x1f || (0x7f <= v && v <= 0x9f)
}

/// `valid_text`, computed.
pub fn text_is_valid(v: &Vec<char>) -> (r: bool)
    ensures
        r == valid_text(v@),
{
    if v.len() == 0 {
        return false;
    }
    let mut bytes: usize = 0;
    let mut i: usize = 0;
    while i < v.len()
        invariant
            i <= v@.len(),
            bytes == utf8_len(v@.take(i as int)),
            bytes <= MAX_TARGET_BYTES,
            forall|j: int| 0 <= j < i ==> !is_control(#[trigger] v@[j]),
        decreases v@.len() - i,
    {
        proof {
            lemma_utf8_len_prefix(v@, i as int);
        }
        if is_control_char(v[i]) {
            return false;
        }
        bytes = bytes + char_width(v[i]);
        if bytes > MAX_TARGET_BYTES {
            proof {
                lemma_utf8_len_prefix(v@, i + 1);
            }
            return false;
        }
        i += 1;
    }
    assert(v@.take(i as int) =~= v@);
    true
}

fn is_windows_drive(v: &Vec<char>) -> (r: bool)
    ensures
        r == windows_drive(v@),
{
    v.len() >= 3 && (('a' <= v[0] && v[0] <= 'z') || ('A' <= v[0] && v[0] <= 'Z')) && v[1] == ':'
        && (v[2] == '/' || v[2] == '\\')
}

fn reserved_part(t: &Vec<char>, p: usize, e: usize) -> (r: bool)
    requires
        p <= e <= t@.len(),
    ensures
        r == reserved_component(t@.subrange(p as int, e as int)),
{
    let ghost part = t@.subrange(p as int, e as int);
    let mut d: usize = p;
    while d < e && t[d] != '.'
        invariant
            p <= d <= e <= t@.len(),
            part == t@.subrange(p as int, e as int),
            next_char(part, '.', d - p) == next_char(part, '.', 0),
        decreases e - d,
    {
        d += 1;
    }
    assert(next_char(part, '.', 0) == d - p);
    let mut f: usize = d;
    proof {
        assert(part.take(d - p) =~= t@.subrange(p as int, d as int));
    }
    while f > p && is_whitespace(t[f - 1])
        invariant
            p <= f <= d,
            d <= e <= t@.len(),
            trim_end_by(t@.subrange(p as int, d as int), CharClass::Whitespace) == trim_end_by(
                t@.subrange(p as int, f as int),
                CharClass::Whitespace,
            ),
        decreases f,
    {
        assert(t@.subrange(p as int, f as int).drop_last() =~= t@.subrange(p as int, f - 1));
        f -= 1;
    }
    let ghost stem0 = t@.subrange(p as int, f as int);
    assert(trim_end_by(stem0, CharClass::Whitespace) == stem0);
    let ghost stem = ascii_uppercase(stem0);
    let len = f - p;
    let mut up: Vec<char> = Vec::new();
    let mut i: usize = p;
    while i < f
        invariant
            p <= i <= f <= t@.len(),
            up@ == ascii_uppercase(t@.subrange(p as int, i as int)),
        decreases f - i,
    {
        let c = t[i];
        let u = if 'a' <= c && c <= 'z' { ((c as u8) - 32) as char } else { c };
        up.push(u);
        assert(up@ =~= ascii_uppercase(t@.subrange(p as int, i + 1)));
        i += 1;
    }
    assert(up@ == stem);
    proof {
        reveal_strlit("CON");
        reveal_strlit("PRN");
        reveal_strlit("AUX");
        reveal_strlit("NUL");
        assert("CON"@ =~= seq!['C', 'O', 'N']);
        assert("PRN"@ =~= seq!['P', 'R', 'N']);
        assert("AUX"@ =~= seq!['A', 'U', 'X']);
        assert("NUL"@ =~= seq!['N', 'U', 'L']);
    }
    if crate::text::eq_lit(&up, "CON") || crate::text::eq_lit(&up, "PRN") || crate::text::eq_lit(&up, "AUX")
        || crate::text::eq_lit(&up, "NUL") {
        return true;
    }
    up.len() == 4 && ((up[0] == 'C' && up[1] == 'O' && up[2] == 'M') || (up[0] == 'L' && up[1] == 'P'
        && up[2] == 'T')) && '1' <= up[3] && up[3] <= '9'
}

fn allowed_chars(v: &Vec<char>) -> (r: bool)
    ensures
        r == path_allowed(v@),
{
    if !text_is_valid(v) || v[0] == '\\' || (v.len() >= 2 && v[0] == '/' && v[1] == '/') {
        return false;
    }
    let drive = is_windows_drive(v);
    let t = if drive { slice_chars(v, 2, v.len()) } else { slice_chars(v, 0, v.len()) };
    let ghost tail = drive_tail(v@);
    proof {
        assert(v@.subrange(0, v@.len() as int) =~= v@);
        if drive {
            assert(v@.subrange(2, v@.len() as int) =~= v@.skip(2));
        }
        assert(t@ == tail);
    }
    let mut i: usize = 0;
    while i < t.len()
        invariant
            i <= t@.len(),
            t@ == tail,
            tail == drive_tail(v@),
            forall|j: int| 0 <= j < i ==> !forbidden_in_path(#[trigger] t@[j]),
        decreases t@.len() - i,
    {
        let c = t[i];
        if c == ':' || c == '?' || c == '*' || c == '|' || c == '<' || c == '>' {
            assert(forbidden_in_path(tail[i as int]));
            return false;
        }
        i += 1;
    }
    let mut p: usize = 0;
    loop
        invariant
            p <= t@.len(),
            t@ == tail,
            tail == drive_tail(v@),
            valid_text(v@),
            v@[0] != '\\',
            !(v@.len() >= 2 && v@[0] == '/' && v@[1] == '/'),
            forall|j: int| 0 <= j < t@.len() ==> !forbidden_in_path(#[trigger] t@[j]),
            component_start(t@, p as int),
            forall|q: int| #[trigger] component_start(t@, q) && q < p ==> !reserved_component(t@.subrange(q, next_sep(t@, q))),
        decreases t@.len() - p,
    {
        let mut e: usize = p;
        while e < t.len() && t[e] != '/' && t[e] != '\\'
            invariant
                p <= e <= t@.len(),
                next_sep(t@, e as int) == next_sep(t@, p as int),
            decreases t@.len() - e,
        {
            e += 1;
        }
        proof {
            lemma_next_sep(t@, p as int);
        }
        if reserved_part(&t, p, e) {
            assert(e == next_sep(tail, p as int));
            assert(component_start(tail, p as int));
            assert(reserved_component(tail.subrange(p as int, next_sep(tail, p as int))));
            return false;
        }
        if e >= t.len() {
            proof {
                assert forall|q: int| #[trigger] component_start(t@, q) implies !reserved_component(t@.subrange(q, next_sep(t@, q))) by {
                    if q > p {
                        assert(!is_sep(t@[q - 1]));
                    }
                }
            }
            return true;
        }
        proof {
            assert forall|q: int| #[trigger] component_start(t@, q) && q < e + 1 implies !reserved_component(t@.subrange(q, next_sep(t@, q))) by {
                if q > p {
                    assert(!is_sep(t@[q - 1]));
                }
            }
        }
        p = e + 1;
    }
}

/// Whether a path may be named by a link, before any filesystem lookup.
pub fn allowed_path(value: &str) -> (r: bool)
    ensures
        r == path_allowed(value@),
{
    allowed_chars(&chars_of(value))
}

/// Index of the last `c` in `v`.
pub open spec fn last_index_of(v: Seq<char>, c: char) -> Option<int>
    decreases v.len(),
{
    if v.len() == 0 {
        None
    } else if v.last() == c {
        Some(v.len() - 1)
    } else {
        last_index_of(v.drop_last(), c)
    }
}

pub open spec fn all_ascii_digits(v: Seq<char>) -> bool {
    forall|i: int| 0 <= i < v.len() ==> '0' <= #[trigger] v[i] && v[i] <= '9'
}

/// `v` without a trailing `:line` or `:line:column` location.
pub open spec fn strip_location(v: Seq<char>) -> Seq<char> {
    match last_index_of(v, ':') {
        None => v,
        Some(j) => {
            let prefix = v.take(j);
            let number = v.skip(j + 1);
            if number.len() == 0 || !all_ascii_digits(number) {
                v
            } else {
                match last_index_of(prefix, ':') {
                    Some(j2) => {
                        let line = prefix.skip(j2 + 1);
                        if line.len() > 0 && all_ascii_digits(line) {
                            prefix.take(j2)
                        } else {
                            prefix
                        }
                    },
                    None => prefix,
                }
            }
        },
    }
}

/// The file name has an extension (`Path::extension`): a `.` that is not
/// its first character, and the name is not `..`.
pub open spec fn has_extension(p: Seq<char>) -> bool {
    p != seq!['.', '.'] && match last_index_of(p, '.') {
        Some(j) => j > 0,
        None => false,
    }
}

pub open spec fn well_known_file(p: Seq<char>) -> bool {
    ||| p == seq!['R', 'E', 'A', 'D', 'M', 'E']
    ||| p == seq!['L', 'I', 'C', 'E', 'N', 'S', 'E']
    ||| p == seq!['M', 'a', 'k', 'e', 'f', 'i', 'l', 'e']
    ||| p == seq!['D', 'o', 'c', 'k', 'e', 'r', 'f', 'i', 'l', 'e']
    ||| p == seq!['j', 'u', 's', 't', 'f', 'i', 'l', 'e']
}

pub open spec fn has_sep(p: Seq<char>) -> bool {
    exists|i: int| 0 <= i < p.len() && is_sep(#[trigger] p[i])
}

/// An allowed path (after dropping a location) that looks like a file: it
/// has a directory part, an extension, or a well-known extensionless name.
pub open spec fn path_like(v: Seq<char>) -> bool {
    let p = strip_location(v);
    path_allowed(p) && (has_sep(p) || has_extension(p) || well_known_file(p))
}

pub(crate) fn last_index(v: &Vec<char>, len: usize, c: char) -> (r: Option<usize>)
    requires
        len <= v@.len(),
    ensures
        match last_index_of(v@.take(len as int), c) {
            Some(j) => r matches Some(x) && x as int == j && j < len,
            None => r is None,
        },
{
    let mut i: usize = len;
    while i > 0 && v[i - 1] != c
        invariant
            i <= len <= v@.len(),
            last_index_of(v@.take(len as int), c) == last_index_of(v@.take(i as int), c),
        decreases i,
    {
        assert(v@.take(i as int).drop_last() =~= v@.take(i - 1));
        i -= 1;
    }
    if i == 0 {
        assert(v@.take(0) =~= Seq::<char>::empty());
        None
    } else {
        Some(i - 1)
    }
}

fn digits_only(v: &Vec<char>, from: usize, to: usize) -> (r: bool)
    requires
        from <= to <= v@.len(),
    ensures
        r == all_ascii_digits(v@.subrange(from as int, to as int)),
{
    let mut i: usize = from;
    while i < to
        invariant
            from <= i <= to <= v@.len(),
            forall|j: int| from <= j < i ==> '0' <= #[trigger] v@[j] && v@[j] <= '9',
        decreases to - i,
    {
        if !('0' <= v[i] && v[i] <= '9') {
            assert(!('0' <= v@.subrange(from as int, to as int)[i - from] && v@.subrange(from as int, to as int)[i - from] <= '9'));
            return false;
        }
        i += 1;
    }
    assert forall|j: int| 0 <= j < to - from implies '0' <= #[trigger] v@.subrange(from as int, to as int)[j]
        && v@.subrange(from as int, to as int)[j] <= '9' by {
        assert(v@.subrange(from as int, to as int)[j] == v@[from + j]);
    }
    true
}

/// `strip_location`, computed.
pub fn without_location_chars(v: &Vec<char>) -> (r: Vec<char>)
    ensures
        r@ == strip_location(v@),
{
    assert(v@.take(v@.len() as int) =~= v@);
    let j = match last_index(v, v.len(), ':') {
        None => return slice_chars(v, 0, v.len()),
        Some(j) => j,
    };
    assert(v@.subrange(0, v@.len() as int) =~= v@);
    assert(v@.subrange(j + 1, v@.len() as int) =~= v@.skip(j + 1));
    if j + 1 == v.len() || !digits_only(v, j + 1, v.len()) {
        return slice_chars(v, 0, v.len());
    }
    assert(v@.take(j as int) =~= v@.subrange(0, j as int));
    match last_index(v, j, ':') {
        Some(j2) => {
            assert(v@.take(j as int).skip(j2 + 1) =~= v@.subrange(j2 + 1, j as int));
            assert(v@.take(j as int).take(j2 as int) =~= v@.subrange(0, j2 as int));
            if j2 + 1 < j && digits_only(v, j2 + 1, j) {
                slice_chars(v, 0, j2)
            } else {
                slice_chars(v, 0, j)
            }
        },
        None => slice_chars(v, 0, j),
    }
}

/// A path without its `:line` or `:line:column` suffix.
pub fn without_location(value: &str) -> (r: String)
    ensures
        r@ == strip_location(value@),
{
    string_of_chars(&without_location_chars(&chars_of(value)))
}

fn well_known_chars(p: &Vec<char>) -> (r: bool)
    ensures
        r == well_known_file(p@),
{
    proof {
        reveal_strlit("README");
        reveal_strlit("LICENSE");
        reveal_strlit("Makefile");
        reveal_strlit("Dockerfile");
        reveal_strlit("justfile");
        assert("README"@ =~= seq!['R', 'E', 'A', 'D', 'M', 'E']);
        assert("LICENSE"@ =~= seq!['L', 'I', 'C', 'E', 'N', 'S', 'E']);
        assert("Makefile"@ =~= seq!['M', 'a', 'k', 'e', 'f', 'i', 'l', 'e']);
        assert("Dockerfile"@ =~= seq!['D', 'o', 'c', 'k', 'e', 'r', 'f', 'i', 'l', 'e']);
        assert("justfile"@ =~= seq!['j', 'u', 's', 't', 'f', 'i', 'l', 'e']);
    }
    crate::text::eq_lit(p, "README") || crate::text::eq_lit(p, "LICENSE") || crate::text::eq_lit(p, "Makefile")
        || crate::text::eq_lit(p, "Dockerfile") || crate::text::eq_lit(p, "justfile")
}

/// `path_like`, computed.
pub fn looks_like_path_chars(v: &Vec<char>) -> (r: bool)
    ensures
        r == path_like(v@),
{
    let p = without_location_chars(v);
    if !allowed_chars(&p) {
        return false;
    }
    let mut i: usize = 0;
    while i < p.len()
        invariant
            i <= p@.len(),
            p@ == strip_location(v@),
            path_allowed(p@),
            forall|j: int| 0 <= j < i ==> !is_sep(#[trigger] p@[j]),
        decreases p@.len() - i,
    {
        if p[i] == '/' || p[i] == '\\' {
            assert(is_sep(p@[i as int]));
            return true;
        }
        i += 1;
    }
    assert(p@.take(p@.len() as int) =~= p@);
    let dot = last_index(&p, p.len(), '.');
    let dotdot = p.len() == 2 && p[0] == '.' && p[1] == '.';
    assert(dotdot == (p@ == seq!['.', '.'])) by {
        if p@ == seq!['.', '.'] {
            assert(p@[0] == '.' && p@[1] == '.');
        }
        if dotdot {
            assert(p@ =~= seq!['.', '.']);
        }
    }
    let ext = !dotdot && match dot {
        Some(j) => j > 0,
        None => false,
    };
    ext || well_known_chars(&p)
}

/// Whether a clicked token looks like a local path.
pub fn looks_like_path(value: &str) -> (r: bool)
    ensures
        r == path_like(value@),
{
    looks_like_path_chars(&chars_of(value))
}

pub open spec fn is_quote(c: char) -> bool {
    c == '\'' || c == '"' || c == '`'
}

/// Where a token that starts before `j` ends: at the matching quote for a
/// quoted token, at whitespace otherwise, or at the end of the row.
pub open spec fn token_stop(s: Seq<char>, j: int, quoted: bool, q: char) -> int
    decreases s.len() - j,
{
    if j < 0 || j >= s.len() {
        s.len() as int
    } else if (quoted && s[j] == q) || (!quoted && is_ws(s[j])) {
        j
    } else {
        token_stop(s, j + 1, quoted, q)
    }
}

pub proof fn lemma_token_stop(s: Seq<char>, j: int, quoted: bool, q: char)
    requires
        0 <= j <= s.len(),
    ensures
        j <= token_stop(s, j, quoted, q) <= s.len(),
    decreases s.len() - j,
{
    if j < s.len() && !((quoted && s[j] == q) || (!quoted && is_ws(s[j]))) {
        lemma_token_stop(s, j + 1, quoted, q);
    }
}

pub open spec fn is_opener(c: char) -> bool {
    c == '(' || c == '[' || c == '{'
}

/// First index in `b..e` that is not an opening bracket.
pub open spec fn skip_openers(s: Seq<char>, b: int, e: int) -> int
    decreases e - b,
{
    if b < e && is_opener(s[b]) {
        skip_openers(s, b + 1, e)
    } else {
        b
    }
}

pub open spec fn count_in(t: Seq<char>, c: char) -> nat
    decreases t.len(),
{
    if t.len() == 0 {
        0
    } else {
        count_in(t.drop_last(), c) + if t.last() == c { 1nat } else { 0nat }
    }
}

/// The last character of `t` is trailing punctuation, or a closing bracket
/// with no opening bracket to balance it.
pub open spec fn trailing_junk(t: Seq<char>) -> bool {
    let last = t.last();
    ||| last == ',' || last == ';' || last == '.' || last == '!' || last == '"' || last == '\'' || last == '`'
    ||| (last == ')' && count_in(t, ')') > count_in(t, '('))
    ||| (last == ']' && count_in(t, ']') > count_in(t, '['))
    ||| (last == '}' && count_in(t, '}') > count_in(t, '{'))
}

/// End of `s[b..e]` once trailing punctuation is removed; balanced brackets
/// inside a real path stay.
pub open spec fn trim_trailing(s: Seq<char>, b: int, e: int) -> int
    decreases e - b,
{
    if e > b && trailing_junk(s.subrange(b, e)) {
        trim_trailing(s, b, e - 1)
    } else {
        e
    }
}

/// The token around character `k`, scanning tokens from `index`: its
/// content range, or nothing when `k` is in no token or a quote is left open.
pub open spec fn token_around(s: Seq<char>, k: int, index: int) -> Option<(int, int)>
    decreases s.len() - index,
{
    if index < 0 || index >= s.len() {
        None
    } else if is_ws(s[index]) {
        token_around(s, k, index + 1)
    } else {
        let ch = s[index];
        let quoted = is_quote(ch);
        let ei = token_stop(s, index + 1, quoted, ch);
        proof {
            lemma_token_stop(s, index + 1, quoted, ch);
        }
        if quoted && ei >= s.len() {
            None
        } else {
            let b = if quoted { index + 1 } else { skip_openers(s, index, ei) };
            let e = if quoted { ei } else { trim_trailing(s, b, ei) };
            if b <= k && k < e {
                Some((b, e))
            } else {
                token_around(s, k, if quoted { ei + 1 } else { ei })
            }
        }
    }
}

/// The character that starts at byte `clicked`, looking from character `k`.
pub open spec fn char_at_byte(s: Seq<char>, clicked: int, k: int) -> Option<int>
    decreases s.len() + 1 - k,
{
    if k < 0 || k > s.len() || utf8_len(s.take(k)) > clicked {
        None
    } else if utf8_len(s.take(k)) == clicked {
        Some(k)
    } else {
        char_at_byte(s, clicked, k + 1)
    }
}

pub open spec fn file_scheme() -> Seq<char> {
    seq!['f', 'i', 'l', 'e', ':', '/', '/']
}

/// The path link containing the clicked byte of a row: only the token that
/// contains that byte (quoted tokens may hold spaces), and only when it looks
/// like a path or is a `file://` URI. Rows over 64 KiB and clicks outside the
/// row or inside a character are ignored.
pub open spec fn path_at(s: Seq<char>, clicked: int) -> Option<Seq<char>> {
    if utf8_len(s) > 65536 || clicked >= utf8_len(s) {
        None
    } else {
        match char_at_byte(s, clicked, 0) {
            None => None,
            Some(k) => match token_around(s, k, 0) {
                None => None,
                Some(range) => {
                    let c = s.subrange(range.0, range.1);
                    if path_like(c) || has_prefix(c, file_scheme()) {
                        Some(c)
                    } else {
                        None
                    }
                },
            },
        }
    }
}

fn count_char(s: &Vec<char>, b: usize, e: usize, c: char) -> (r: usize)
    requires
        b <= e <= s@.len(),
    ensures
        r == count_in(s@.subrange(b as int, e as int), c),
{
    let mut n: usize = 0;
    let mut i: usize = b;
    while i < e
        invariant
            b <= i <= e <= s@.len(),
            n == count_in(s@.subrange(b as int, i as int), c),
            n <= i - b,
        decreases e - i,
    {
        assert(s@.subrange(b as int, i + 1).drop_last() =~= s@.subrange(b as int, i as int));
        if s[i] == c {
            n += 1;
        }
        i += 1;
    }
    n
}

fn junk_at_end(s: &Vec<char>, b: usize, e: usize) -> (r: bool)
    requires
        b < e <= s@.len(),
    ensures
        r == trailing_junk(s@.subrange(b as int, e as int)),
{
    let last = s[e - 1];
    assert(s@.subrange(b as int, e as int).last() == last);
    if last == ',' || last == ';' || last == '.' || last == '!' || last == '"' || last == '\'' || last == '`' {
        return true;
    }
    if last == ')' {
        return count_char(s, b, e, ')') > count_char(s, b, e, '(');
    }
    if last == ']' {
        return count_char(s, b, e, ']') > count_char(s, b, e, '[');
    }
    if last == '}' {
        return count_char(s, b, e, '}') > count_char(s, b, e, '{');
    }
    false
}

/// The content range of the token around character `k`.
fn token_range(s: &Vec<char>, k: usize) -> (r: Option<(usize, usize)>)
    ensures
        match token_around(s@, k as int, 0) {
            Some(range) => r matches Some(x) && x.0 as int == range.0 && x.1 as int == range.1
                && 0 <= range.0 <= range.1 <= s@.len(),
            None => r is None,
        },
{
    let mut index: usize = 0;
    while index < s.len()
        invariant
            index <= s@.len(),
            token_around(s@, k as int, index as int) == token_around(s@, k as int, 0),
        decreases s@.len() - index,
    {
        let ch = s[index];
        if is_whitespace(ch) {
            index += 1;
            continue;
        }
        let quoted = ch == '\'' || ch == '"' || ch == '`';
        let mut ei: usize = index + 1;
        while ei < s.len() && !((quoted && s[ei] == ch) || (!quoted && is_whitespace(s[ei])))
            invariant
                index < ei <= s@.len(),
                token_stop(s@, ei as int, quoted, ch) == token_stop(s@, index + 1, quoted, ch),
            decreases s@.len() - ei,
        {
            ei += 1;
        }
        if quoted && ei == s.len() {
            return None;
        }
        let mut b: usize = index;
        let mut e: usize = ei;
        if quoted {
            b = index + 1;
        } else {
            while b < ei && (s[b] == '(' || s[b] == '[' || s[b] == '{')
                invariant
                    index <= b <= ei <= s@.len(),
                    skip_openers(s@, b as int, ei as int) == skip_openers(s@, index as int, ei as int),
                decreases ei - b,
            {
                b += 1;
            }
            while e > b && junk_at_end(s, b, e)
                invariant
                    b <= e <= ei <= s@.len(),
                    trim_trailing(s@, b as int, e as int) == trim_trailing(s@, b as int, ei as int),
                decreases e,
            {
                e -= 1;
            }
        }
        if b <= k && k < e {
            return Some((b, e));
        }
        index = if quoted { ei + 1 } else { ei };
    }
    None
}

/// `path_at`, on characters: the link around byte `clicked`.
pub fn path_at_chars(s: &Vec<char>, clicked: usize) -> (r: Option<Vec<char>>)
    ensures
        match path_at(s@, clicked as int) {
            Some(c) => r matches Some(x) && x@ == c,
            None => r is None,
        },
{
    let mut bytes: usize = 0;
    let mut k: Option<usize> = None;
    let mut i: usize = 0;
    while i < s.len()
        invariant
            i <= s@.len(),
            bytes == utf8_len(s@.take(i as int)),
            bytes <= 65536,
            match k {
                Some(x) => x < i && char_at_byte(s@, clicked as int, 0) == Some(x as int),
                None => char_at_byte(s@, clicked as int, 0) == char_at_byte(s@, clicked as int, i as int)
                    && bytes <= clicked,
            },
        decreases s@.len() - i,
    {
        proof {
            lemma_utf8_len_prefix(s@, i as int);
        }
        if k.is_none() && bytes == clicked {
            k = Some(i);
        }
        let next = bytes + char_width(s[i]);
        if next > 65536 {
            proof {
                lemma_utf8_len_prefix(s@, i + 1);
            }
            return None;
        }
        proof {
            if k.is_none() {
                assert(char_at_byte(s@, clicked as int, i as int) == char_at_byte(s@, clicked as int, i + 1));
            }
        }
        if k.is_none() && next > clicked {
            proof {
                assert(char_at_byte(s@, clicked as int, i + 1) is None);
            }
            k = None;
            bytes = next;
            i += 1;
            proof {
                assert(char_at_byte(s@, clicked as int, 0) is None);
            }
            return None;
        }
        bytes = next;
        i += 1;
    }
    assert(s@.take(i as int) =~= s@);
    if clicked >= bytes {
        return None;
    }
    let k = match k {
        Some(x) => x,
        None => {
            proof {
                assert(char_at_byte(s@, clicked as int, i as int) is None);
            }
            return None;
        },
    };
    let (b, e) = match token_range(s, k) {
        Some(range) => range,
        None => return None,
    };
    let c = slice_chars(s, b, e);
    proof {
        reveal_strlit("file://");
        assert("file://"@ =~= file_scheme());
    }
    if looks_like_path_chars(&c) || starts_with_lit(&c, "file://") {
        Some(c)
    } else {
        None
    }
}

/// The path link containing the clicked UTF-8 byte of a row, not a nearby
/// token. Quoted paths may contain spaces; `:line[:column]` suffixes stay.
pub fn path_at_byte(row: &str, clicked: usize) -> (r: Option<String>)
    ensures
        match path_at(row@, clicked as int) {
            Some(c) => r matches Some(x) && x@ == c,
            None => r is None,
        },
{
    match path_at_chars(&chars_of(row), clicked) {
        Some(c) => Some(string_of_chars(&c)),
        None => None,
    }
}

pub open spec fn hex_val(b: u8) -> Option<u8> {
    if 0x30 <= b && b <= 0x39 {
        Some((b - 0x30) as u8)
    } else if 0x61 <= b && b <= 0x66 {
        Some((b - 0x61 + 10) as u8)
    } else if 0x41 <= b && b <= 0x46 {
        Some((b - 0x41 + 10) as u8)
    } else {
        None
    }
}

/// Percent-decoding of URI bytes: `%` and two hex digits give one byte;
/// a `%` without two hex digits makes the whole input invalid.
pub open spec fn pct_decode(b: Seq<u8>) -> Option<Seq<u8>>
    decreases b.len(),
{
    if b.len() == 0 {
        Some(Seq::empty())
    } else if b[0] == 0x25 {
        if b.len() < 3 {
            None
        } else {
            match (hex_val(b[1]), hex_val(b[2])) {
                (Some(h), Some(l)) => match pct_decode(b.skip(3)) {
                    Some(rest) => Some(seq![(h * 16 + l) as u8] + rest),
                    None => None,
                },
                _ => None,
            }
        }
    } else {
        match pct_decode(b.skip(1)) {
            Some(rest) => Some(seq![b[0]] + rest),
            None => None,
        }
    }
}

pub open spec fn localhost() -> Seq<char> {
    seq!['l', 'o', 'c', 'a', 'l', 'h', 'o', 's', 't']
}

pub open spec fn uri_forbidden(c: char) -> bool {
    c == '?' || c == '#' || c == '\\'
}

/// The local path a `file://` URI names: no query, fragment or backslash, an
/// empty or `localhost` host, the path percent-decoded exactly once into
/// UTF-8, a drive path on Windows and no drive path elsewhere, and a path
/// links may name.
pub open spec fn file_uri_path(uri: Seq<char>, windows: bool) -> Option<Seq<char>> {
    if !valid_text(uri) || (exists|i: int| 0 <= i < uri.len() && uri_forbidden(#[trigger] uri[i]))
        || !has_prefix(uri, file_scheme()) {
        None
    } else {
        let rest = uri.skip(7);
        let j = next_char(rest, '/', 0);
        let host = rest.take(j);
        if j >= rest.len() || !(host.len() == 0 || eq_ignore_ascii_case(host, localhost())) {
            None
        } else {
            match pct_decode(seq![0x2fu8] + vstd::utf8::encode_utf8(rest.skip(j + 1))) {
                None => None,
                Some(bytes) => if !vstd::utf8::valid_utf8(bytes) {
                    None
                } else {
                    let decoded = vstd::utf8::decode_utf8(bytes);
                    let unrooted = if decoded.len() > 0 && decoded[0] == '/' { decoded.skip(1) } else { decoded };
                    let path = if windows { unrooted } else { decoded };
                    let drive_ok = if windows {
                        decoded.len() > 0 && decoded[0] == '/' && windows_drive(unrooted)
                    } else {
                        !windows_drive(unrooted)
                    };
                    if drive_ok && path_allowed(path) {
                        Some(path)
                    } else {
                        None
                    }
                },
            }
        }
    }
}

fn hex(b: u8) -> (r: Option<u8>)
    ensures
        r == hex_val(b),
{
    if 0x30 <= b && b <= 0x39 {
        Some(b - 0x30)
    } else if 0x61 <= b && b <= 0x66 {
        Some(b - 0x61 + 10)
    } else if 0x41 <= b && b <= 0x46 {
        Some(b - 0x41 + 10)
    } else {
        None
    }
}

pub open spec fn prepend(p: Seq<u8>, o: Option<Seq<u8>>) -> Option<Seq<u8>> {
    match o {
        Some(rest) => Some(p + rest),
        None => None,
    }
}

/// `pct_decode`, computed.
pub fn percent_decode(b: &Vec<u8>) -> (r: Option<Vec<u8>>)
    ensures
        match pct_decode(b@) {
            Some(d) => r matches Some(x) && x@ == d,
            None => r is None,
        },
{
    let mut out: Vec<u8> = Vec::new();
    let mut i: usize = 0;
    assert(b@.skip(0) =~= b@);
    while i < b.len()
        invariant
            i <= b@.len(),
            pct_decode(b@) == prepend(out@, pct_decode(b@.skip(i as int))),
        decreases b@.len() - i,
    {
        let ghost t = b@.skip(i as int);
        if b[i] == 0x25 {
            if b.len() - i < 3 {
                return None;
            }
            let h = hex(b[i + 1]);
            let l = hex(b[i + 2]);
            assert(t[1] == b@[i + 1] && t[2] == b@[i + 2]);
            match (h, l) {
                (Some(h), Some(l)) => {
                    assert(t.skip(3) =~= b@.skip(i + 3));
                    let v: u8 = h * 16 + l;
                    proof {
                        match pct_decode(t.skip(3)) {
                            Some(rest) => assert(out@ + (seq![v] + rest) =~= out@.push(v) + rest),
                            None => {},
                        }
                    }
                    out.push(v);
                    i += 3;
                },
                _ => return None,
            }
        } else {
            let v = b[i];
            assert(t.skip(1) =~= b@.skip(i + 1));
            proof {
                match pct_decode(t.skip(1)) {
                    Some(rest) => assert(out@ + (seq![v] + rest) =~= out@.push(v) + rest),
                    None => {},
                }
            }
            out.push(v);
            i += 1;
        }
    }
    assert(b@.skip(i as int) =~= Seq::<u8>::empty());
    assert(out@ + Seq::<u8>::empty() =~= out@);
    Some(out)
}

/// The local path of a `file://` URI (on Windows when `windows`).
pub fn local_file_uri_path(uri: &str, windows: bool) -> (r: Option<String>)
    ensures
        match file_uri_path(uri@, windows) {
            Some(p) => r matches Some(x) && x@ == p,
            None => r is None,
        },
{
    let u = chars_of(uri);
    if !text_is_valid(&u) {
        return None;
    }
    let mut i: usize = 0;
    while i < u.len()
        invariant
            i <= u@.len(),
            u@ == uri@,
            forall|j: int| 0 <= j < i ==> !uri_forbidden(#[trigger] u@[j]),
        decreases u@.len() - i,
    {
        if u[i] == '?' || u[i] == '#' || u[i] == '\\' {
            assert(uri_forbidden(u@[i as int]));
            return None;
        }
        i += 1;
    }
    proof {
        reveal_strlit("file://");
        assert("file://"@ =~= file_scheme());
    }
    if !starts_with_lit(&u, "file://") {
        return None;
    }
    let ghost rest = u@.skip(7);
    let mut j: usize = 7;
    while j < u.len() && u[j] != '/'
        invariant
            7 <= j <= u@.len(),
            rest == u@.skip(7),
            next_char(rest, '/', j - 7) == next_char(rest, '/', 0),
        decreases u@.len() - j,
    {
        j += 1;
    }
    if j >= u.len() {
        return None;
    }
    let host = slice_chars(&u, 7, j);
    assert(host@ =~= rest.take(j - 7));
    let lh: Vec<char> = vec!['l', 'o', 'c', 'a', 'l', 'h', 'o', 's', 't'];
    assert(lh@ =~= localhost());
    if !(host.len() == 0 || eq_ignore_case_chars(&host, &lh)) {
        return None;
    }
    let raw = string_of_chars(&slice_chars(&u, j + 1, u.len()));
    assert(raw@ =~= rest.skip(j - 7 + 1));
    let raw_bytes = raw.as_str().as_bytes();
    let mut input: Vec<u8> = vec![0x2f];
    let mut k: usize = 0;
    while k < raw_bytes.len()
        invariant
            k <= raw_bytes@.len(),
            input@ == seq![0x2fu8] + raw_bytes@.take(k as int),
        decreases raw_bytes@.len() - k,
    {
        input.push(raw_bytes[k]);
        assert(input@ =~= seq![0x2fu8] + raw_bytes@.take(k + 1));
        k += 1;
    }
    assert(raw_bytes@.take(k as int) =~= raw_bytes@);
    let bytes = match percent_decode(&input) {
        Some(b) => b,
        None => return None,
    };
    let decoded = match utf8_text(bytes.as_slice()) {
        Some(text) => chars_of(text.as_str()),
        None => return None,
    };
    let rooted = decoded.len() > 0 && decoded[0] == '/';
    let unrooted = if rooted { slice_chars(&decoded, 1, decoded.len()) } else { slice_chars(&decoded, 0, decoded.len()) };
    proof {
        assert(decoded@.subrange(0, decoded@.len() as int) =~= decoded@);
        if rooted {
            assert(decoded@.subrange(1, decoded@.len() as int) =~= decoded@.skip(1));
        }
    }
    let drive_ok = if windows { rooted && is_windows_drive(&unrooted) } else { !is_windows_drive(&unrooted) };
    let path = if windows { unrooted } else { decoded };
    if drive_ok && allowed_chars(&path) {
        Some(string_of_chars(&path))
    } else {
        None
    }
}

/// What `char::is_alphanumeric` answers (Unicode Alphabetic or Numeric).
pub uninterp spec fn unicode_alphanumeric(c: char) -> bool;

/// `char::is_alphanumeric`. Claims that the answer is the named Unicode
/// property of `c`.
#[verifier::external_body]
fn is_alphanumeric(c: char) -> (r: bool)
    ensures
        r == unicode_alphanumeric(c),
{
    c.is_alphanumeric()
}

pub open spec fn head_char(c: char) -> bool {
    unicode_alphanumeric(c) || c == '.' || c == '_' || c == '-'
}

/// Text before the first `sep` is a non-empty run of name characters.
pub open spec fn named_head(v: Seq<char>, sep: char) -> bool {
    let j = next_char(v, sep, 0);
    j < v.len() && j > 0 && forall|m: int| 0 <= m < j ==> head_char(#[trigger] v[m])
}

/// A path spelled out from its start: a drive, a root, `./`, `../`, `~/`
/// (either separator), or a directory name followed by a separator.
pub open spec fn explicit_start(v: Seq<char>) -> bool {
    ||| windows_drive(v)
    ||| has_prefix(v, seq!['/'])
    ||| has_prefix(v, seq!['.', '/'])
    ||| has_prefix(v, seq!['.', '.', '/'])
    ||| has_prefix(v, seq!['.', '\\'])
    ||| has_prefix(v, seq!['.', '.', '\\'])
    ||| has_prefix(v, seq!['~', '/'])
    ||| has_prefix(v, seq!['~', '\\'])
    ||| named_head(v, '/')
    ||| named_head(v, '\\')
}

fn named_head_chars(v: &Vec<char>, from: usize, sep: char) -> (r: bool)
    requires
        from <= v@.len(),
    ensures
        r == named_head(v@.skip(from as int), sep),
{
    let ghost t = v@.skip(from as int);
    let mut j: usize = from;
    while j < v.len() && v[j] != sep
        invariant
            from <= j <= v@.len(),
            t == v@.skip(from as int),
            next_char(t, sep, j - from) == next_char(t, sep, 0),
        decreases v@.len() - j,
    {
        j += 1;
    }
    if j == v.len() || j == from {
        return false;
    }
    let mut m: usize = from;
    while m < j
        invariant
            from <= m <= j < v@.len(),
            t == v@.skip(from as int),
            next_char(t, sep, 0) == j - from,
            forall|q: int| 0 <= q < m - from ==> head_char(#[trigger] t[q]),
        decreases j - m,
    {
        let c = v[m];
        if !(is_alphanumeric(c) || c == '.' || c == '_' || c == '-') {
            assert(!head_char(t[m - from]));
            return false;
        }
        m += 1;
    }
    true
}

fn prefix_at(v: &Vec<char>, from: usize, p: &Vec<char>) -> (r: bool)
    requires
        from <= v@.len(),
    ensures
        r == has_prefix(v@.skip(from as int), p@),
{
    if v.len() - from < p.len() {
        return false;
    }
    let mut i: usize = 0;
    while i < p.len()
        invariant
            i <= p.len(),
            from + p.len() <= v.len(),
            forall|m: int| 0 <= m < i ==> v@[from + m] == p@[m],
        decreases p@.len() - i,
    {
        if v[from + i] != p[i] {
            assert(v@.skip(from as int).subrange(0, p@.len() as int)[i as int] != p@[i as int]);
            return false;
        }
        i += 1;
    }
    assert(v@.skip(from as int).subrange(0, p@.len() as int) =~= p@);
    true
}

/// `explicit_start` of the text from character `from`.
pub fn explicit_path_start_at(v: &Vec<char>, from: usize) -> (r: bool)
    requires
        from <= v@.len(),
    ensures
        r == explicit_start(v@.skip(from as int)),
{
    let t = slice_chars(v, from, v.len());
    assert(t@ =~= v@.skip(from as int));
    let p1: Vec<char> = vec!['/'];
    let p2: Vec<char> = vec!['.', '/'];
    let p3: Vec<char> = vec!['.', '.', '/'];
    let p4: Vec<char> = vec!['.', '\\'];
    let p5: Vec<char> = vec!['.', '.', '\\'];
    let p6: Vec<char> = vec!['~', '/'];
    let p7: Vec<char> = vec!['~', '\\'];
    assert(p1@ =~= seq!['/']);
    assert(p2@ =~= seq!['.', '/']);
    assert(p3@ =~= seq!['.', '.', '/']);
    assert(p4@ =~= seq!['.', '\\']);
    assert(p5@ =~= seq!['.', '.', '\\']);
    assert(p6@ =~= seq!['~', '/']);
    assert(p7@ =~= seq!['~', '\\']);
    is_windows_drive(&t) || prefix_at(v, from, &p1) || prefix_at(v, from, &p2) || prefix_at(v, from, &p3)
        || prefix_at(v, from, &p4) || prefix_at(v, from, &p5) || prefix_at(v, from, &p6)
        || prefix_at(v, from, &p7) || named_head_chars(v, from, '/') || named_head_chars(v, from, '\\')
}

/// A word starts at `i`: the row's start or just after whitespace.
pub open spec fn word_start(s: Seq<char>, i: int) -> bool {
    i == 0 || is_ws(s[i - 1])
}

/// The word starts from `i` up to the clicked character `k`, at most `left`.
pub open spec fn word_starts(s: Seq<char>, k: int, i: int, left: nat) -> Seq<int>
    decreases k + 1 - i,
{
    if i < 0 || i > k || left == 0 {
        Seq::empty()
    } else if word_start(s, i) {
        seq![i] + word_starts(s, k, i + 1, (left - 1) as nat)
    } else {
        word_starts(s, k, i + 1, left)
    }
}

/// Index of the first double space at or after `j`, or the row's length.
pub open spec fn run_end(s: Seq<char>, j: int) -> int
    decreases s.len() - j,
{
    if j < 0 || j >= s.len() {
        s.len() as int
    } else if j + 1 < s.len() && s[j] == ' ' && s[j + 1] == ' ' {
        j
    } else {
        run_end(s, j + 1)
    }
}

/// Whitespace positions of `text` from `m` down, after the clicked character
/// (`i + m > k`), at most `left` of them.
pub open spec fn ws_cuts(text: Seq<char>, i: int, k: int, m: int, left: nat) -> Seq<int>
    decreases m + 1,
{
    if m < 0 || left == 0 {
        Seq::empty()
    } else if is_ws(text[m]) && i + m > k {
        seq![m] + ws_cuts(text, i, k, m - 1, (left - 1) as nat)
    } else {
        ws_cuts(text, i, k, m - 1, left)
    }
}

/// `t` without trailing commas and semicolons.
pub open spec fn trim_commas(t: Seq<char>) -> Seq<char>
    decreases t.len(),
{
    if t.len() > 0 && (t.last() == ',' || t.last() == ';') {
        trim_commas(t.drop_last())
    } else {
        t
    }
}

/// The prefixes of `text` cut at `cuts`, without trailing commas, that still
/// reach the clicked character.
pub open spec fn cands_for_cuts(text: Seq<char>, i: int, k: int, cuts: Seq<int>) -> Seq<Seq<char>>
    decreases cuts.len(),
{
    if cuts.len() == 0 {
        Seq::empty()
    } else {
        let c = trim_commas(text.take(cuts[0]));
        let rest = cands_for_cuts(text, i, k, cuts.drop_first());
        if i + c.len() <= k {
            rest
        } else {
            seq![c] + rest
        }
    }
}

/// Candidates for a path spelled out from word start `i`: the run up to a
/// double space, cut at its end and then at each later whitespace (longest
/// first), when the run starts like a path and contains the click.
pub open spec fn cands_at(s: Seq<char>, k: int, i: int) -> Seq<Seq<char>> {
    if !explicit_start(s.skip(i)) {
        Seq::empty()
    } else {
        let end = run_end(s, i);
        if k >= end {
            Seq::empty()
        } else {
            let text = trim_end_by(s.subrange(i, end), CharClass::Whitespace);
            cands_for_cuts(text, i, k, seq![text.len() as int] + ws_cuts(text, i, k, text.len() - 1, 16))
        }
    }
}

pub open spec fn cands_over(s: Seq<char>, k: int, starts: Seq<int>) -> Seq<Seq<char>>
    decreases starts.len(),
{
    if starts.len() == 0 {
        Seq::empty()
    } else {
        cands_at(s, k, starts[0]) + cands_over(s, k, starts.drop_first())
    }
}

/// The paths to try, in order, for a click on a row whose paths may hold
/// unquoted spaces: spelled-out paths from the first 32 word starts up to the
/// click, then the clicked token. Nothing for rows over `MAX_TARGET_BYTES`
/// or clicks outside the row or inside a character.
pub open spec fn visible_candidates(s: Seq<char>, clicked: int) -> Seq<Seq<char>> {
    if utf8_len(s) > MAX_TARGET_BYTES || clicked >= utf8_len(s) {
        Seq::empty()
    } else {
        match char_at_byte(s, clicked, 0) {
            None => Seq::empty(),
            Some(k) => cands_over(s, k, word_starts(s, k, 0, 32)) + match path_at(s, clicked) {
                Some(p) => seq![p],
                None => Seq::empty(),
            },
        }
    }
}

/// The character at byte `clicked` of a row of at most `max` bytes.
fn click_char(s: &Vec<char>, clicked: usize, max: usize) -> (r: Option<usize>)
    requires
        max <= 65536,
    ensures
        (utf8_len(s@) > max || clicked >= utf8_len(s@)) ==> r is None,
        !(utf8_len(s@) > max || clicked >= utf8_len(s@)) ==> match char_at_byte(s@, clicked as int, 0) {
            Some(k) => r matches Some(x) && x as int == k && k < s@.len(),
            None => r is None,
        },
{
    let mut bytes: usize = 0;
    let mut k: Option<usize> = None;
    let mut i: usize = 0;
    while i < s.len()
        invariant
            i <= s@.len(),
            bytes == utf8_len(s@.take(i as int)),
            bytes <= max,
            max <= 65536,
            match k {
                Some(x) => x < i && char_at_byte(s@, clicked as int, 0) == Some(x as int),
                None => char_at_byte(s@, clicked as int, 0) == char_at_byte(s@, clicked as int, i as int),
            },
        decreases s@.len() - i,
    {
        proof {
            lemma_utf8_len_prefix(s@, i as int);
        }
        if k.is_none() && bytes == clicked {
            k = Some(i);
        }
        let next = bytes + char_width(s[i]);
        if next > max {
            proof {
                lemma_utf8_len_prefix(s@, i + 1);
            }
            return None;
        }
        proof {
            if k.is_none() {
                assert(char_at_byte(s@, clicked as int, i as int) == char_at_byte(s@, clicked as int, i + 1));
            }
        }
        bytes = next;
        i += 1;
    }
    assert(s@.take(i as int) =~= s@);
    if clicked >= bytes {
        return None;
    }
    match k {
        Some(x) => Some(x),
        None => {
            proof {
                assert(char_at_byte(s@, clicked as int, i as int) is None);
            }
            None
        },
    }
}

fn trim_commas_chars(t: &Vec<char>, e: usize) -> (r: usize)
    requires
        e <= t@.len(),
    ensures
        r <= e,
        t@.take(r as int) == trim_commas(t@.take(e as int)),
{
    let mut j: usize = e;
    while j > 0 && (t[j - 1] == ',' || t[j - 1] == ';')
        invariant
            j <= e <= t@.len(),
            trim_commas(t@.take(e as int)) == trim_commas(t@.take(j as int)),
        decreases j,
    {
        assert(t@.take(j as int).drop_last() =~= t@.take(j - 1));
        j -= 1;
    }
    j
}

/// Appends the candidates from word start `i` (`cands_at`).
fn push_cands_at(s: &Vec<char>, k: usize, i: usize, out: &mut Vec<String>, acc: Ghost<Seq<Seq<char>>>)
    requires
        i <= k < s@.len(),
        old(out)@.len() == acc@.len(),
        forall|j: int| 0 <= j < acc@.len() ==> old(out)@[j]@ == acc@[j],
    ensures
        final(out)@.len() == acc@.len() + cands_at(s@, k as int, i as int).len(),
        forall|j: int| 0 <= j < final(out)@.len() ==> final(out)@[j]@ == (acc@ + cands_at(s@, k as int, i as int))[j],
{
    if !explicit_path_start_at(s, i) {
        assert(acc@ + Seq::<Seq<char>>::empty() =~= acc@);
        return;
    }
    let mut end: usize = i;
    while end < s.len() && !(end + 1 < s.len() && s[end] == ' ' && s[end + 1] == ' ')
        invariant
            i <= end <= s@.len(),
            run_end(s@, end as int) == run_end(s@, i as int),
        decreases s@.len() - end,
    {
        end += 1;
    }
    if k >= end {
        assert(acc@ + Seq::<Seq<char>>::empty() =~= acc@);
        return;
    }
    let text = trim_end_chars(&slice_chars(s, i, end), CharClass::Whitespace);
    proof {
        crate::text::lemma_trim_end_prefix(s@.subrange(i as int, end as int), CharClass::Whitespace);
    }
    let ghost cuts = seq![text@.len() as int] + ws_cuts(text@, i as int, k as int, text@.len() - 1, 16);
    let ghost total = cands_for_cuts(text@, i as int, k as int, cuts);
    assert(total == cands_at(s@, k as int, i as int));
    // The longest candidate: the whole run.
    let ghost acc2 = acc@;
    let c = trim_commas_chars(&text, text.len());
    assert(cuts[0] == text@.len());
    assert(cuts.drop_first() =~= ws_cuts(text@, i as int, k as int, text@.len() - 1, 16));
    assert(text@.take(text@.len() as int) =~= text@);
    if i + c > k {
        out.push(string_of_chars(&slice_chars(&text, 0, c)));
        proof {
            acc2 = acc2.push(text@.take(c as int));
        }
    }
    let ghost remaining0 = ws_cuts(text@, i as int, k as int, text@.len() - 1, 16);
    assert(acc@ + total =~= acc2 + cands_for_cuts(text@, i as int, k as int, remaining0));
    let mut m: usize = text.len();
    let mut left: usize = 16;
    while m > 0 && left > 0
        invariant
            m <= text@.len(),
            left <= 16,
            out@.len() == acc2.len(),
            forall|j: int| 0 <= j < acc2.len() ==> out@[j]@ == acc2[j],
            acc@ + total == acc2 + cands_for_cuts(text@, i as int, k as int, ws_cuts(text@, i as int, k as int, m - 1, left as nat)),
            i + text.len() <= s.len(),
        decreases m,
    {
        let idx = m - 1;
        if is_whitespace(text[idx]) && i + idx > k {
            let c = trim_commas_chars(&text, idx);
            let ghost rest = ws_cuts(text@, i as int, k as int, idx - 1, (left - 1) as nat);
            assert(ws_cuts(text@, i as int, k as int, idx as int, left as nat) == seq![idx as int] + rest);
            assert((seq![idx as int] + rest).drop_first() =~= rest);
            if i + c > k {
                out.push(string_of_chars(&slice_chars(&text, 0, c)));
                proof {
                    assert(acc2 + cands_for_cuts(text@, i as int, k as int, seq![idx as int] + rest)
                        =~= acc2.push(text@.take(c as int)) + cands_for_cuts(text@, i as int, k as int, rest));
                    acc2 = acc2.push(text@.take(c as int));
                }
            }
            left -= 1;
        }
        m -= 1;
    }
    assert(cands_for_cuts(text@, i as int, k as int, ws_cuts(text@, i as int, k as int, m - 1, left as nat)) =~= Seq::<Seq<char>>::empty());
    assert(acc@ + total =~= acc2);
}

/// The paths to try for a click at byte `clicked`, in order (see
/// `visible_candidates`); the caller keeps the first that exists.
pub fn visible_path_candidates(row: &str, clicked: usize) -> (r: Vec<String>)
    ensures
        r@.len() == visible_candidates(row@, clicked as int).len(),
        forall|j: int| 0 <= j < r@.len() ==> r@[j]@ == visible_candidates(row@, clicked as int)[j],
{
    let s = chars_of(row);
    let mut out: Vec<String> = Vec::new();
    let k = match click_char(&s, clicked, MAX_TARGET_BYTES) {
        Some(k) => k,
        None => return out,
    };
    let ghost goal = cands_over(s@, k as int, word_starts(s@, k as int, 0, 32));
    let ghost acc: Seq<Seq<char>> = Seq::empty();
    let mut i: usize = 0;
    let mut left: usize = 32;
    assert(acc + goal =~= goal);
    while i <= k && left > 0
        invariant
            k < s.len(),
            left <= 32,
            out@.len() == acc.len(),
            forall|j: int| 0 <= j < acc.len() ==> out@[j]@ == acc[j],
            acc + cands_over(s@, k as int, word_starts(s@, k as int, i as int, left as nat)) == goal,
        decreases k + 1 - i,
    {
        if i == 0 || is_whitespace(s[i - 1]) {
            let ghost ws = word_starts(s@, k as int, i + 1, (left - 1) as nat);
            assert(word_starts(s@, k as int, i as int, left as nat) == seq![i as int] + ws);
            assert((seq![i as int] + ws).drop_first() =~= ws);
            push_cands_at(&s, k, i, &mut out, Ghost(acc));
            proof {
                assert(acc + cands_over(s@, k as int, seq![i as int] + ws) =~= (acc + cands_at(s@, k as int, i as int))
                    + cands_over(s@, k as int, ws));
                acc = acc + cands_at(s@, k as int, i as int);
            }
            left -= 1;
        }
        i += 1;
    }
    assert(cands_over(s@, k as int, word_starts(s@, k as int, i as int, left as nat)) =~= Seq::<Seq<char>>::empty());
    assert(acc == goal);
    match path_at_chars(&s, clicked) {
        Some(p) => {
            out.push(string_of_chars(&p));
            assert(goal + seq![p@] =~= acc.push(p@));
            proof {
                acc = acc.push(p@);
            }
        },
        None => {
            assert(goal + Seq::<Seq<char>>::empty() =~= acc);
        },
    }
    out
}

/// Bytes a `file://` URI keeps literally.
pub open spec fn uri_safe(b: u8) -> bool {
    (0x30 <= b && b <= 0x39) || (0x41 <= b && b <= 0x5a) || (0x61 <= b && b <= 0x7a) || b == 0x2f
        || b == 0x3a || b == 0x2d || b == 0x5f || b == 0x2e || b == 0x7e
}

pub open spec fn hex_upper(d: nat) -> char {
    if d < 10 {
        ((d + 0x30) as u8) as char
    } else {
        ((d - 10 + 0x41) as u8) as char
    }
}

/// Percent-encoding with upper-case hex digits of every unsafe byte.
pub open spec fn pct_encode(b: Seq<u8>) -> Seq<char>
    decreases b.len(),
{
    if b.len() == 0 {
        Seq::empty()
    } else {
        pct_encode(b.drop_last()) + if uri_safe(b.last()) {
            seq![b.last() as char]
        } else {
            seq!['%', hex_upper((b.last() / 16) as nat), hex_upper((b.last() % 16) as nat)]
        }
    }
}

/// `\` written as `/`.
pub open spec fn forward_slashes(v: Seq<char>) -> Seq<char> {
    Seq::new(v.len(), |i: int| if v[i] == '\\' { '/' } else { v[i] })
}

/// The `file://` URI of an absolute local path that links may name: on
/// Windows with forward slashes under `file:///`, elsewhere under `file://`,
/// its UTF-8 bytes percent-encoded.
pub open spec fn file_uri_of(raw: Seq<char>, windows: bool) -> Option<Seq<char>> {
    if !path_allowed(raw) {
        None
    } else if windows {
        Some(seq!['f', 'i', 'l', 'e', ':', '/', '/', '/'] + pct_encode(vstd::utf8::encode_utf8(forward_slashes(raw))))
    } else {
        Some(file_scheme() + pct_encode(vstd::utf8::encode_utf8(raw)))
    }
}

fn hex_upper_char(d: u8) -> (r: char)
    requires
        d < 16,
    ensures
        r == hex_upper(d as nat),
{
    if d < 10 {
        (d + 0x30) as char
    } else {
        (d - 10 + 0x41) as char
    }
}

/// The `file://` URI of an absolute path (the caller checks that it is
/// absolute); nothing for a path links may not name.
pub fn file_uri_for_path(raw: &str, windows: bool) -> (r: Option<String>)
    ensures
        match file_uri_of(raw@, windows) {
            Some(u) => r matches Some(x) && x@ == u,
            None => r is None,
        },
{
    let v = chars_of(raw);
    if !allowed_chars(&v) {
        return None;
    }
    let mut p: Vec<char> = Vec::new();
    let mut i: usize = 0;
    while i < v.len()
        invariant
            i <= v.len(),
            p@ == (if windows { forward_slashes(v@.take(i as int)) } else { v@.take(i as int) }),
        decreases v@.len() - i,
    {
        let c = if windows && v[i] == '\\' { '/' } else { v[i] };
        p.push(c);
        proof {
            if windows {
                assert(p@ =~= forward_slashes(v@.take(i + 1)));
            } else {
                assert(p@ =~= v@.take(i + 1));
            }
        }
        i += 1;
    }
    assert(v@.take(i as int) =~= v@);
    let text = string_of_chars(&p);
    let bytes = text.as_str().as_bytes();
    let mut out: Vec<char> = if windows {
        vec!['f', 'i', 'l', 'e', ':', '/', '/', '/']
    } else {
        vec!['f', 'i', 'l', 'e', ':', '/', '/']
    };
    let ghost head = out@;
    let mut j: usize = 0;
    while j < bytes.len()
        invariant
            j <= bytes@.len(),
            out@ == head + pct_encode(bytes@.take(j as int)),
        decreases bytes@.len() - j,
    {
        let b = bytes[j];
        assert(bytes@.take(j + 1).drop_last() =~= bytes@.take(j as int));
        if (0x30 <= b && b <= 0x39) || (0x41 <= b && b <= 0x5a) || (0x61 <= b && b <= 0x7a) || b == 0x2f
            || b == 0x3a || b == 0x2d || b == 0x5f || b == 0x2e || b == 0x7e {
            out.push(b as char);
        } else {
            out.push('%');
            out.push(hex_upper_char(b / 16));
            out.push(hex_upper_char(b % 16));
        }
        assert(out@ =~= head + pct_encode(bytes@.take(j + 1)));
        j += 1;
    }
    assert(bytes@.take(j as int) =~= bytes@);
    Some(string_of_chars(&out))
}

/// Whether a path starts with a Windows drive (`X:/` or `X:\`).
pub fn windows_drive_path(value: &str) -> (r: bool)
    ensures
        r == windows_drive(value@),
{
    is_windows_drive(&chars_of(value))
}

/// Whether a clicked value is non-empty, short enough and free of control
/// characters.
pub fn valid_link_text(value: &str) -> (r: bool)
    ensures
        r == valid_text(value@),
{
    text_is_valid(&chars_of(value))
}

proof fn lemma_pct_encode_concat(a: Seq<u8>, b: Seq<u8>)
    ensures
        pct_encode(a + b) == pct_encode(a) + pct_encode(b),
    decreases b.len(),
{
    if b.len() == 0 {
        assert(a + b =~= a);
        assert(pct_encode(a) + pct_encode(b) =~= pct_encode(a));
    } else {
        assert((a + b).drop_last() =~= a + b.drop_last());
        lemma_pct_encode_concat(a, b.drop_last());
        assert((a + b).last() == b.last());
        assert(pct_encode(a) + pct_encode(b) =~= pct_encode(a) + pct_encode(b.drop_last()) + (pct_encode(b).skip(
            pct_encode(b.drop_last()).len() as int,
        )));
    }
}

/// The bytes of ASCII characters.
pub open spec fn char_bytes(t: Seq<char>) -> Seq<u8> {
    Seq::new(t.len(), |i: int| (t[i] as u32) as u8)
}

pub open spec fn all_ascii(t: Seq<char>) -> bool {
    forall|i: int| 0 <= i < t.len() ==> (#[trigger] t[i] as u32) < 0x80
}

/// UTF-8 encodes ASCII characters as themselves.
proof fn lemma_encode_ascii(t: Seq<char>)
    requires
        all_ascii(t),
    ensures
        vstd::utf8::encode_utf8(t) == char_bytes(t),
    decreases t.len(),
{
    if t.len() > 0 {
        let v = t[0] as u32;
        assert(v < 0x80);
        assert((v & 0x7f) == v) by (bit_vector)
            requires
                v < 0x80,
        ;
        lemma_encode_ascii(t.drop_first());
        assert(char_bytes(t) =~= seq![(v & 0x7f) as u8] + char_bytes(t.drop_first()));
    }
}

proof fn lemma_hex_upper_roundtrip(d: nat)
    requires
        d < 16,
    ensures
        (hex_upper(d) as u32) < 0x80,
        hex_val(hex_upper(d) as u8) == Some(d as u8),
        hex_upper(d) as u8 != 0x25,
{
}

proof fn lemma_pct_encode_shape(b: Seq<u8>)
    ensures
        all_ascii(pct_encode(b)),
        forall|i: int| 0 <= i < pct_encode(b).len() ==> !is_control(#[trigger] pct_encode(b)[i])
            && !uri_forbidden(pct_encode(b)[i]),
    decreases b.len(),
{
    if b.len() > 0 {
        lemma_pct_encode_shape(b.drop_last());
        let x = b.last();
        lemma_hex_upper_roundtrip((x / 16) as nat);
        lemma_hex_upper_roundtrip((x % 16) as nat);
        let e = pct_encode(b);
        let e0 = pct_encode(b.drop_last());
        assert forall|i: int| 0 <= i < e.len() implies (#[trigger] e[i] as u32) < 0x80 && !is_control(e[i]) && !uri_forbidden(e[i]) by {
            if i < e0.len() {
                assert(e[i] == e0[i]);
            }
        }
    }
}

/// Percent-decoding undoes percent-encoding.
proof fn lemma_pct_roundtrip(b: Seq<u8>)
    ensures
        pct_decode(char_bytes(pct_encode(b))) == Some(b),
    decreases b.len(),
{
    if b.len() == 0 {
        assert(char_bytes(pct_encode(b)) =~= Seq::<u8>::empty());
    } else {
        let x = b[0];
        let rest = b.drop_first();
        assert(b =~= seq![x] + rest);
        lemma_pct_encode_concat(seq![x], rest);
        assert(seq![x].drop_last() =~= Seq::<u8>::empty());
        let head = pct_encode(seq![x]);
        assert(pct_encode(Seq::<u8>::empty()) =~= Seq::<char>::empty());
        assert(seq![x].last() == x);
        assert(head == pct_encode(Seq::<u8>::empty()) + if uri_safe(x) {
            seq![x as char]
        } else {
            seq!['%', hex_upper((x / 16) as nat), hex_upper((x % 16) as nat)]
        });
        let enc = char_bytes(pct_encode(b));
        lemma_pct_roundtrip(rest);
        lemma_hex_upper_roundtrip((x / 16) as nat);
        lemma_hex_upper_roundtrip((x % 16) as nat);
        if uri_safe(x) {
            assert(head =~= seq![x as char]);
            assert(enc[0] == x);
            assert(enc.skip(1) =~= char_bytes(pct_encode(rest)));
        } else {
            assert(head.len() == 3);
            assert(enc[0] == 0x25);
            assert(enc.skip(3) =~= char_bytes(pct_encode(rest)));
            assert((x / 16) * 16 + x % 16 == x);
        }
    }
}

/// A path turned into a `file://` URI turns back into the same path, on a
/// Unix host, whenever the URI is short enough to be a link.
pub proof fn lemma_file_uri_roundtrip(p: Seq<char>)
    requires
        path_allowed(p),
        p[0] == '/',
        file_uri_of(p, false) matches Some(u) && utf8_len(u) <= MAX_TARGET_BYTES,
    ensures
        file_uri_path(file_uri_of(p, false).unwrap(), false) == Some(p),
{
    let bytes = vstd::utf8::encode_utf8(p);
    let enc = pct_encode(bytes);
    let u = file_scheme() + enc;
    assert(file_uri_of(p, false) == Some(u));
    // The encoding starts with the root slash.
    let slash: u32 = '/' as u32;
    assert(slash == 0x2f);
    assert((slash & 0x7f) == 0x2f) by (bit_vector)
        requires
            slash == 0x2f,
    ;
    assert(bytes =~= seq![0x2fu8] + vstd::utf8::encode_utf8(p.drop_first()));
    let tail_bytes = vstd::utf8::encode_utf8(p.drop_first());
    lemma_pct_encode_concat(seq![0x2fu8], tail_bytes);
    assert(seq![0x2fu8].drop_last() =~= Seq::<u8>::empty());
    assert(pct_encode(Seq::<u8>::empty()) =~= Seq::<char>::empty());
    assert(seq![0x2fu8].last() == 0x2f);
    assert((0x2fu8 as char) == '/');
    assert(pct_encode(seq![0x2fu8]) =~= seq!['/']);
    let e = pct_encode(tail_bytes);
    assert(enc =~= seq!['/'] + e);
    // The URI is valid link text with no query, fragment or backslash.
    lemma_pct_encode_shape(bytes);
    assert forall|i: int| 0 <= i < u.len() implies !is_control(#[trigger] u[i]) && !uri_forbidden(u[i]) by {
        if i >= 7 {
            assert(u[i] == enc[i - 7]);
        }
    }
    assert(!(exists|i: int| 0 <= i < u.len() && uri_forbidden(#[trigger] u[i])));
    assert(valid_text(u));
    assert(u.subrange(0, 7) =~= file_scheme());
    let rest = u.skip(7);
    assert(rest =~= enc);
    assert(next_char(rest, '/', 0) == 0);
    assert(rest.take(0) =~= Seq::<char>::empty());
    assert(rest.skip(1) =~= e);
    // Decoding gives back the path's bytes.
    lemma_pct_encode_shape(tail_bytes);
    lemma_encode_ascii(e);
    lemma_pct_roundtrip(tail_bytes);
    let input = seq![0x2fu8] + vstd::utf8::encode_utf8(e);
    assert(input.skip(1) =~= char_bytes(e));
    assert(pct_decode(input) == Some(seq![0x2fu8] + tail_bytes));
    assert(seq![0x2fu8] + tail_bytes =~= bytes);
    vstd::utf8::encode_utf8_valid_utf8(p);
    vstd::utf8::encode_utf8_decode_utf8(p);
    // On Unix the decoded path is used as it is; it cannot look like a drive.
    assert(drive_tail(p) == p);
    if windows_drive(p.skip(1)) {
        assert(p.skip(1)[1] == ':');
        assert(p[2] == ':');
        assert(forbidden_in_path(drive_tail(p)[2]));
    }
}

proof fn lemma_char_at_byte(s: Seq<char>, clicked: int, k: int)
    requires
        0 <= k <= s.len(),
        char_at_byte(s, clicked, k) is Some,
    ensures
        ({
            let j = char_at_byte(s, clicked, k).unwrap();
            k <= j <= s.len() && utf8_len(s.take(j)) == clicked
        }),
    decreases s.len() + 1 - k,
{
    if utf8_len(s.take(k)) != clicked {
        lemma_char_at_byte(s, clicked, k + 1);
    }
}

proof fn lemma_skip_openers(s: Seq<char>, b: int, e: int)
    requires
        b <= e,
    ensures
        b <= skip_openers(s, b, e) <= e,
    decreases e - b,
{
    if b < e && is_opener(s[b]) {
        lemma_skip_openers(s, b + 1, e);
    }
}

proof fn lemma_trim_trailing(s: Seq<char>, b: int, e: int)
    requires
        b <= e,
    ensures
        b <= trim_trailing(s, b, e) <= e,
    decreases e - b,
{
    if e > b && trailing_junk(s.subrange(b, e)) {
        lemma_trim_trailing(s, b, e - 1);
    }
}

proof fn lemma_token_around(s: Seq<char>, k: int, index: int)
    requires
        0 <= index,
        token_around(s, k, index) is Some,
    ensures
        ({
            let (b, e) = token_around(s, k, index).unwrap();
            0 <= b <= k < e <= s.len()
        }),
    decreases s.len() - index,
{
    if index < s.len() {
        if is_ws(s[index]) {
            lemma_token_around(s, k, index + 1);
        } else {
            let ch = s[index];
            let quoted = is_quote(ch);
            let ei = token_stop(s, index + 1, quoted, ch);
            lemma_token_stop(s, index + 1, quoted, ch);
            if !(quoted && ei >= s.len()) {
                let b = if quoted { index + 1 } else { skip_openers(s, index, ei) };
                lemma_skip_openers(s, index, ei);
                lemma_trim_trailing(s, b, ei);
                let e = if quoted { ei } else { trim_trailing(s, b, ei) };
                if !(b <= k && k < e) {
                    lemma_token_around(s, k, if quoted { ei + 1 } else { ei });
                }
            }
        }
    }
}

/// A link is the token that contains the clicked byte: a run of the row's
/// characters whose bytes start at or before the click and end after it.
pub proof fn lemma_path_contains_click(s: Seq<char>, clicked: int)
    requires
        path_at(s, clicked) is Some,
    ensures
        exists|b: int, e: int|
            0 <= b <= e <= s.len() && path_at(s, clicked) == Some(s.subrange(b, e)) && utf8_len(s.take(b))
                <= clicked < utf8_len(s.take(e)),
{
    let k = char_at_byte(s, clicked, 0).unwrap();
    lemma_char_at_byte(s, clicked, 0);
    let (b, e) = token_around(s, k, 0).unwrap();
    lemma_token_around(s, k, 0);
    lemma_utf8_len_prefix(s.take(k), b);
    assert(s.take(k).take(b) =~= s.take(b));
    lemma_utf8_len_prefix(s, k);
    lemma_utf8_len_prefix(s.take(e), k + 1);
    assert(s.take(e).take(k + 1) =~= s.take(k + 1));
    assert(utf8_width(s[k]) >= 1);
    assert(path_at(s, clicked) == Some(s.subrange(b, e)));
}

/// The extensions of documents and images, which open in their default
/// application; everything else, scripts and executables included, opens
/// as text in an editor.
pub open spec fn document_extensions() -> Seq<Seq<char>> {
    seq!["pdf"@, "png"@, "jpg"@, "jpeg"@, "gif"@, "webp"@, "bmp"@]
}

/// Whether a file with this extension (`Path::extension`, as text) opens in
/// its default application: the ASCII-lowercased extension is one of
/// `document_extensions`.
pub fn is_document_extension(extension: &str) -> (r: bool)
    ensures
        r == document_extensions().contains(ascii_lowercase(extension@)),
{
    let raw = chars_of(extension);
    let mut lower: Vec<char> = Vec::new();
    let mut i: usize = 0;
    while i < raw.len()
        invariant
            i <= raw@.len(),
            raw@ == extension@,
            lower@ == ascii_lowercase(raw@.take(i as int)),
        decreases raw@.len() - i,
    {
        let c = raw[i];
        let l = if 'A' <= c && c <= 'Z' { ((c as u8) + 32) as char } else { c };
        assert(l == ascii_lower(c));
        lower.push(l);
        assert(lower@ =~= ascii_lowercase(raw@.take(i + 1)));
        i += 1;
    }
    assert(raw@.take(raw@.len() as int) =~= raw@);
    let list = vec!["pdf", "png", "jpg", "jpeg", "gif", "webp", "bmp"];
    assert(list.deep_view() =~= document_extensions());
    let mut j: usize = 0;
    while j < list.len()
        invariant
            j <= list@.len(),
            list.deep_view() == document_extensions(),
            lower@ == ascii_lowercase(extension@),
            forall|q: int| 0 <= q < j ==> document_extensions()[q] != lower@,
        decreases list@.len() - j,
    {
        let candidate = chars_of(list[j]);
        if eq_chars(&candidate, &lower) {
            assert(document_extensions()[j as int] == lower@);
            return true;
        }
        j += 1;
    }
    false
}

/// Where a clicked local file reference points, before the filesystem is
/// asked whether it exists.
#[derive(Debug, Clone, Copy, PartialEq, Eq, Structural)]
pub enum LinkTargetKind {
    /// The local path of a `file://` URI.
    FileUri,
    /// A path under the home directory (`~/` or `~\\` dropped).
    HomeRelative,
    /// The path as written: absolute, or under the pane's directory.
    AsWritten,
}

/// The target of a clicked reference: a `file://` URI gives its local path;
/// otherwise the text without a trailing location must be an allowed path,
/// a `~/` or `~\\` path is taken under the home directory, a drive path or
/// a backslash is refused off Windows and a leading `/` on Windows, and
/// anything else stands as written.
pub open spec fn link_target_spec(v: Seq<char>, windows: bool) -> Option<(LinkTargetKind, Seq<char>)> {
    if !valid_text(v) {
        None
    } else if has_prefix(v, file_scheme()) {
        match file_uri_path(v, windows) {
            Some(p) => Some((LinkTargetKind::FileUri, p)),
            None => None,
        }
    } else {
        let w = strip_location(v);
        if !path_allowed(w) {
            None
        } else if has_prefix(w, seq!['~', '/']) || has_prefix(w, seq!['~', '\\']) {
            Some((LinkTargetKind::HomeRelative, w.skip(2)))
        } else if !windows && (windows_drive(w) || w.contains('\\')) {
            None
        } else if windows && has_prefix(w, seq!['/']) {
            None
        } else {
            Some((LinkTargetKind::AsWritten, w))
        }
    }
}

fn contains_backslash(v: &Vec<char>) -> (r: bool)
    ensures
        r == v@.contains('\\'),
{
    let mut i: usize = 0;
    while i < v.len()
        invariant
            i <= v@.len(),
            forall|q: int| 0 <= q < i ==> v@[q] != '\\',
        decreases v@.len() - i,
    {
        if v[i] == '\\' {
            assert(v@[i as int] == '\\');
            return true;
        }
        i += 1;
    }
    false
}

/// Where a clicked local file reference points.
pub fn link_target(value: &str, windows: bool) -> (r: Option<(LinkTargetKind, String)>)
    ensures
        match (r, link_target_spec(value@, windows)) {
            (Some((k, s)), Some((k2, s2))) => k == k2 && s@ == s2,
            (None, None) => true,
            _ => false,
        },
{
    proof {
        reveal_strlit("file://");
        reveal_strlit("~/");
        reveal_strlit("~\\");
        reveal_strlit("/");
        assert("file://"@ =~= file_scheme());
        assert("~/"@ =~= seq!['~', '/']);
        assert("~\\"@ =~= seq!['~', '\\']);
        assert("/"@ =~= seq!['/']);
    }
    if !valid_link_text(value) {
        return None;
    }
    let chars = chars_of(value);
    if starts_with_lit(&chars, "file://") {
        return match local_file_uri_path(value, windows) {
            Some(p) => Some((LinkTargetKind::FileUri, p)),
            None => None,
        };
    }
    let w = without_location_chars(&chars);
    if !allowed_chars(&w) {
        return None;
    }
    if starts_with_lit(&w, "~/") || starts_with_lit(&w, "~\\") {
        return Some((LinkTargetKind::HomeRelative, string_of_chars(&slice_chars(&w, 2, w.len()))));
    }
    if !windows && (is_windows_drive(&w) || contains_backslash(&w)) {
        return None;
    }
    if windows && starts_with_lit(&w, "/") {
        return None;
    }
    Some((LinkTargetKind::AsWritten, string_of_chars(&w)))
}

proof fn lemma_skip_openers_bounds(s: Seq<char>, b: int, e: int)
    requires
        b <= e,
    ensures
        b <= skip_openers(s, b, e) <= e,
    decreases e - b,
{
    if b < e && is_opener(s[b]) {
        lemma_skip_openers_bounds(s, b + 1, e);
    }
}

proof fn lemma_trim_trailing_clean(s: Seq<char>, b: int, e: int)
    requires
        b <= e,
    ensures
        b <= trim_trailing(s, b, e) <= e,
        trim_trailing(s, b, e) > b ==> !trailing_junk(s.subrange(b, trim_trailing(s, b, e))),
    decreases e - b,
{
    if e > b && trailing_junk(s.subrange(b, e)) {
        lemma_trim_trailing_clean(s, b, e - 1);
    }
}

proof fn lemma_unquoted_token_clean(s: Seq<char>, k: int, index: int)
    requires
        forall|i: int| 0 <= i < s.len() ==> !is_quote(#[trigger] s[i]),
    ensures
        token_around(s, k, index) matches Some((b, e)) ==> 0 <= b < e <= s.len() && !trailing_junk(s.subrange(b, e)),
    decreases s.len() - index,
{
    if index < 0 || index >= s.len() {
    } else if is_ws(s[index]) {
        lemma_unquoted_token_clean(s, k, index + 1);
    } else {
        let ch = s[index];
        assert(!is_quote(ch));
        let ei = token_stop(s, index + 1, false, ch);
        lemma_token_stop(s, index + 1, false, ch);
        let b = skip_openers(s, index, ei);
        lemma_skip_openers_bounds(s, index, ei);
        let e = trim_trailing(s, b, ei);
        lemma_trim_trailing_clean(s, b, ei);
        if !(b <= k && k < e) {
            lemma_unquoted_token_clean(s, k, ei);
        }
    }
}

/// Trimming the end of a token leaves no trailing punctuation: what remains
/// is empty or ends in none of `, ; . ! " ' `` ` ``.
pub proof fn lemma_trimmed_token_end(s: Seq<char>, b: int, e: int)
    requires
        0 <= b <= e <= s.len(),
    ensures
        b <= trim_trailing(s, b, e) <= e,
        ({
            let r = trim_trailing(s, b, e);
            r > b ==> s[r - 1] != ',' && s[r - 1] != ';' && s[r - 1] != '.' && s[r - 1] != '!' && s[r - 1] != '"'
                && s[r - 1] != '\'' && s[r - 1] != '`'
        }),
{
    lemma_trim_trailing_clean(s, b, e);
    let r = trim_trailing(s, b, e);
    if r > b {
        assert(s.subrange(b, r).last() == s[r - 1]);
    }
}

/// Trailing punctuation never ends a link: in a row without quotes, the
/// path link found under a click is non-empty and does not end with `,`,
/// `;`, `.` or `!`.
pub proof fn lemma_link_has_no_trailing_punctuation(s: Seq<char>, clicked: int)
    requires
        forall|i: int| 0 <= i < s.len() ==> !is_quote(#[trigger] s[i]),
    ensures
        path_at(s, clicked) matches Some(c) ==> c.len() > 0 && c.last() != ',' && c.last() != ';' && c.last() != '.'
            && c.last() != '!',
{
    if let Some(k) = char_at_byte(s, clicked, 0) {
        lemma_unquoted_token_clean(s, k, 0);
    }
}

} // verus!
