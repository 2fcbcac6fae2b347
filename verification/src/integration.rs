//! Installed integration files: the version marker they carry, how an
//! installation is judged, and the notice that asks for updates.

use vstd::prelude::*;
use crate::path_links::{lemma_next_char, next_char};
use crate::text::{
    all_digits, chars_of, decimal_text, digit_char, digits_value, has_prefix, in_class, is_digit, parse_u32,
    parse_u32_chars, push_all, push_lit, slice_chars, starts_with_chars, string_of_chars, trim_by, trim_chars,
    trim_end_by, trim_start_by, without_plus, CharClass,
};

verus! {

/// Precedes the version number inside an installed integration file.
pub const INTEGRATION_VERSION_MARKER: &'static str = "HERDR_INTEGRATION_VERSION=";

pub open spec fn version_marker() -> Seq<char> {
    INTEGRATION_VERSION_MARKER@
}

/// `s` without its leading run of `c`.
pub open spec fn strip_leading(s: Seq<char>, c: char) -> Seq<char>
    decreases s.len(),
{
    if s.len() > 0 && s[0] == c {
        strip_leading(s.drop_first(), c)
    } else {
        s
    }
}

/// A line with white space and leading `/` and `#` comment characters
/// taken off.
pub open spec fn marker_line(line: Seq<char>) -> Seq<char> {
    trim_by(
        strip_leading(strip_leading(trim_by(line, CharClass::Whitespace), '/'), '#'),
        CharClass::Whitespace,
    )
}

/// The version one line declares, if it declares one.
pub open spec fn line_version(line: Seq<char>) -> Option<u32> {
    let m = marker_line(line);
    if has_prefix(m, version_marker()) {
        parse_u32(trim_by(m.skip(version_marker().len() as int), CharClass::Whitespace))
    } else {
        None
    }
}

/// The first version declared by a line that starts at `from` or later
/// (lines end at `\n`; a `\r` before it is white space to the trim).
pub open spec fn version_from(s: Seq<char>, from: int) -> Option<u32>
    decreases s.len() - from,
{
    if from < 0 || from > s.len() {
        None
    } else {
        let e = next_char(s, '\n', from);
        match line_version(s.subrange(from, e)) {
            Some(v) => Some(v),
            None => if e < s.len() {
                proof {
                    lemma_next_char(s, '\n', from);
                }
                version_from(s, e + 1)
            } else {
                None
            },
        }
    }
}

fn strip_leading_chars(s: &Vec<char>, c: char) -> (r: Vec<char>)
    ensures
        r@ == strip_leading(s@, c),
{
    let mut i: usize = 0;
    assert(s@.subrange(0, s@.len() as int) =~= s@);
    while i < s.len() && s[i] == c
        invariant
            i <= s@.len(),
            strip_leading(s@, c) == strip_leading(s@.subrange(i as int, s@.len() as int), c),
        decreases s@.len() - i,
    {
        assert(s@.subrange(i as int, s@.len() as int).drop_first() =~= s@.subrange(i + 1, s@.len() as int));
        i += 1;
    }
    slice_chars(s, i, s.len())
}

fn line_version_chars(line: &Vec<char>, marker: &Vec<char>) -> (r: Option<u32>)
    requires
        marker@ == version_marker(),
    ensures
        r == line_version(line@),
{
    let t = trim_chars(line, CharClass::Whitespace);
    let a = strip_leading_chars(&t, '/');
    let b = strip_leading_chars(&a, '#');
    let m = trim_chars(&b, CharClass::Whitespace);
    if !starts_with_chars(&m, marker) {
        return None;
    }
    let rest = slice_chars(&m, marker.len(), m.len());
    assert(rest@ =~= m@.skip(marker@.len() as int));
    let v = trim_chars(&rest, CharClass::Whitespace);
    parse_u32_chars(&v)
}

/// The version an installed integration file declares: from the first line
/// that, trimmed of white space and of leading `/` and `#`, starts with the
/// marker followed by a number.
pub fn parse_integration_version(content: &str) -> (r: Option<u32>)
    ensures
        r == version_from(content@, 0),
{
    let s = chars_of(content);
    let marker = chars_of(INTEGRATION_VERSION_MARKER);
    let mut start: usize = 0;
    loop
        invariant
            start <= s@.len(),
            s@ == content@,
            marker@ == version_marker(),
            version_from(s@, 0) == version_from(s@, start as int),
        decreases s@.len() - start,
    {
        let mut e: usize = start;
        while e < s.len() && s[e] != '\n'
            invariant
                start <= e <= s@.len(),
                forall|j: int| start <= j < e ==> s@[j] != '\n',
            decreases s@.len() - e,
        {
            e += 1;
        }
        proof {
            lemma_next_char(s@, '\n', start as int);
        }
        assert(e == next_char(s@, '\n', start as int));
        let line = slice_chars(&s, start, e);
        let v = line_version_chars(&line, &marker);
        if v.is_some() {
            return v;
        }
        if e >= s.len() {
            return None;
        }
        start = e + 1;
    }
}

proof fn lemma_decimal_digits(n: nat)
    ensures
        decimal_text(n).len() > 0,
        all_digits(decimal_text(n)),
        digits_value(decimal_text(n)) == n,
    decreases n,
{
    if n < 10 {
        let t = decimal_text(n);
        assert(t.drop_last() =~= Seq::<char>::empty());
        assert(digit_char(n) as int - '0' as int == n);
        assert(t.last() == digit_char(n));
        assert(digits_value(t) == digits_value(t.drop_last()) * 10 + ((t.last() as int) - ('0' as int)) as nat);
        assert(digits_value(t.drop_last()) == 0);
    } else {
        lemma_decimal_digits(n / 10);
        let s = decimal_text(n / 10);
        let t = decimal_text(n);
        assert(t == s.push(digit_char(n % 10)));
        assert(t.drop_last() =~= s);
        assert(digit_char(n % 10) as int - '0' as int == n % 10);
        assert((n / 10) * 10 + n % 10 == n) by (nonlinear_arith);
        assert(t.last() == digit_char(n % 10));
        assert(digits_value(t) == digits_value(t.drop_last()) * 10 + ((t.last() as int) - ('0' as int)) as nat);
        assert forall|i: int| 0 <= i < t.len() implies is_digit(#[trigger] t[i]) by {
            if i < s.len() {
                assert(t[i] == s[i]);
            }
        }
    }
}

proof fn lemma_trim_keeps(t: Seq<char>)
    requires
        t.len() > 0,
        !in_class(t[0], CharClass::Whitespace),
        !in_class(t.last(), CharClass::Whitespace),
    ensures
        trim_by(t, CharClass::Whitespace) == t,
{
    assert(trim_start_by(t, CharClass::Whitespace) == t);
}

/// A line made of the marker and a version number reads back as that
/// version.
pub proof fn lemma_written_version_reads_back(n: u32)
    ensures
        version_from(version_marker() + decimal_text(n as nat), 0) == Some(n),
{
    reveal_strlit("HERDR_INTEGRATION_VERSION=");
    let m = version_marker();
    let d = decimal_text(n as nat);
    let line = m + d;
    lemma_decimal_digits(n as nat);
    assert(m.len() == 26);
    assert forall|i: int| 0 <= i < line.len() implies #[trigger] line[i] != '\n' by {
        if i >= m.len() {
            assert(line[i] == d[i - m.len()]);
            assert(is_digit(d[i - m.len()]));
        }
    }
    lemma_next_char(line, '\n', 0);
    assert(next_char(line, '\n', 0) == line.len());
    assert(line.subrange(0, line.len() as int) =~= line);
    assert(line[0] == 'H');
    assert(line.last() == d.last());
    assert(is_digit(d.last()));
    lemma_trim_keeps(line);
    assert(strip_leading(line, '/') == line);
    assert(strip_leading(line, '#') == line);
    assert(marker_line(line) == line);
    assert(line.subrange(0, m.len() as int) =~= m);
    assert(line.skip(m.len() as int) =~= d);
    assert(is_digit(d[0]));
    lemma_trim_keeps(d);
    assert(without_plus(d) == d);
    assert(line_version(line) == Some(n));
}

/// The state of an installed integration.
#[derive(Debug, Clone, Copy, PartialEq, Eq, Structural)]
pub enum IntegrationStatusKind {
    NotInstalled,
    Outdated,
    Current,
}

/// No primary artifact means not installed; it is current when it declares
/// at least the expected version and its companion files are valid, and
/// outdated otherwise.
pub open spec fn status_kind(
    artifact_is_file: bool,
    installed_version: Option<u32>,
    expected_version: u32,
    companions_valid: bool,
) -> IntegrationStatusKind {
    if !artifact_is_file {
        IntegrationStatusKind::NotInstalled
    } else if installed_version matches Some(v) && v >= expected_version && companions_valid {
        IntegrationStatusKind::Current
    } else {
        IntegrationStatusKind::Outdated
    }
}

/// Judges an installation from what was found of it.
pub fn integration_status_kind(
    artifact_is_file: bool,
    installed_version: Option<u32>,
    expected_version: u32,
    companions_valid: bool,
) -> (r: IntegrationStatusKind)
    ensures
        r == status_kind(artifact_is_file, installed_version, expected_version, companions_valid),
{
    if !artifact_is_file {
        return IntegrationStatusKind::NotInstalled;
    }
    match installed_version {
        Some(v) => if v >= expected_version && companions_valid {
            IntegrationStatusKind::Current
        } else {
            IntegrationStatusKind::Outdated
        },
        None => IntegrationStatusKind::Outdated,
    }
}

/// An integration can be offered where its platform is supported and its
/// agent is installed: a command of it is on the `PATH`, or its install
/// layout is present.
pub fn integration_available(supported: bool, command_on_path: bool, install_layout_present: bool) -> (r: bool)
    ensures
        r == (supported && (command_on_path || install_layout_present)),
{
    supported && (command_on_path || install_layout_present)
}

/// A recommendation is shown as available when the integration can be
/// offered, or when it is installed already in some state.
pub fn recommendation_available(available: bool, state: IntegrationStatusKind) -> (r: bool)
    ensures
        r == (available || state != IntegrationStatusKind::NotInstalled),
{
    available || !matches!(state, IntegrationStatusKind::NotInstalled)
}

/// The label an integration is installed by, `unknown` when it has none.
pub open spec fn label_or_unknown(label: Option<String>) -> Seq<char> {
    match label {
        Some(l) => l@,
        None => "unknown"@,
    }
}

pub open spec fn install_command(label: Seq<char>) -> Seq<char> {
    "`herdr integration install "@ + label + "`"@
}

/// The install commands of `labels`, separated by `, `.
pub open spec fn command_list(labels: Seq<Option<String>>) -> Seq<char>
    decreases labels.len(),
{
    if labels.len() == 0 {
        Seq::empty()
    } else if labels.len() == 1 {
        install_command(label_or_unknown(labels[0]))
    } else {
        command_list(labels.drop_last()) + ", "@ + install_command(label_or_unknown(labels.last()))
    }
}

/// Nothing for no integration, `run A` for one, `run A, B and C` for more.
pub open spec fn update_instructions(labels: Seq<Option<String>>) -> Seq<char> {
    if labels.len() == 0 {
        Seq::empty()
    } else if labels.len() == 1 {
        "run "@ + command_list(labels)
    } else {
        "run "@ + command_list(labels.drop_last()) + " and "@ + install_command(label_or_unknown(labels.last()))
    }
}

fn push_install_command(out: &mut Vec<char>, label: &Option<String>)
    ensures
        final(out)@ == old(out)@ + install_command(label_or_unknown(*label)),
{
    push_lit(out, "`herdr integration install ");
    match label {
        Some(l) => {
            let c = chars_of(l.as_str());
            push_all(out, &c);
        },
        None => push_lit(out, "unknown"),
    }
    push_lit(out, "`");
    assert(final(out)@ =~= old(out)@ + install_command(label_or_unknown(*label)));
}

/// The instructions that name the install command of each outdated
/// integration, by its label (`None` for one the registry cannot name).
pub fn integration_update_instructions(labels: &Vec<Option<String>>) -> (r: String)
    ensures
        r@ == update_instructions(labels@),
{
    let n = labels.len();
    let mut out: Vec<char> = Vec::new();
    if n == 0 {
        assert(out@ =~= update_instructions(labels@));
        return string_of_chars(&out);
    }
    push_lit(&mut out, "run ");
    assert(out@ =~= "run "@);
    let k: usize = if n == 1 { 1 } else { n - 1 };
    let mut i: usize = 0;
    while i < k
        invariant
            1 <= k <= n,
            n == labels@.len(),
            k == n || k == n - 1,
            i <= k,
            i == 0 ==> out@ == "run "@,
            i > 0 ==> out@ == "run "@ + command_list(labels@.subrange(0, i as int)),
        decreases k - i,
    {
        let ghost before = out@;
        if i > 0 {
            push_lit(&mut out, ", ");
        }
        push_install_command(&mut out, &labels[i]);
        proof {
            let sub = labels@.subrange(0, i + 1);
            assert(sub.last() == labels@[i as int]);
            if i > 0 {
                assert(sub.drop_last() =~= labels@.subrange(0, i as int));
                assert(out@ =~= "run "@ + command_list(sub));
            } else {
                assert(out@ =~= "run "@ + command_list(sub));
            }
        }
        i += 1;
    }
    if n > 1 {
        push_lit(&mut out, " and ");
        push_install_command(&mut out, &labels[n - 1]);
        assert(labels@.drop_last() =~= labels@.subrange(0, k as int));
        assert(out@ =~= update_instructions(labels@));
    } else {
        assert(labels@.subrange(0, 1) =~= labels@);
    }
    string_of_chars(&out)
}

} // verus!
