//! Deterministic input recording and replay: input events stamped with the
//! emulated frame they belong to, a digest naming a recording, and a
//! line-oriented text format that reads back what it writes.

use vstd::prelude::*;

use crate::digest::{StateDigest, fnv_fold, le_bytes_u16, le_bytes_u64, OFFSET_BASIS};
use crate::network::{hex_digit_char, hex_digit_str};

verus! {

/// Header identifying the recording format.
pub const RECORDING_HEADER: &'static str = "rumiga.input-recording.v1";

/// One input action delivered to the machine.
#[derive(Clone, Copy, Debug, PartialEq, Eq, Structural)]
pub enum InputEvent {
    /// A key press or release, using Amiga raw keycodes.
    Key {
        /// Amiga raw keycode.
        keycode: u8,
        /// `true` for press, `false` for release.
        pressed: bool,
    },
    /// Relative pointer motion.
    MouseMove {
        /// Horizontal delta.
        dx: i16,
        /// Vertical delta.
        dy: i16,
    },
    /// Pointer button state, stored only when it changes.
    MouseButtons {
        /// Left button held.
        left: bool,
        /// Right button held.
        right: bool,
    },
}

/// One event and the emulated frame it belongs to.
#[derive(Clone, Copy, Debug, PartialEq, Eq, Structural)]
pub struct RecordedInput {
    /// Emulated frame index, counted by the machine rather than by a shell.
    pub frame: u64,
    /// The action itself.
    pub event: InputEvent,
}

/// Why a recording could not be parsed.
#[derive(Clone, Copy, Debug, PartialEq, Eq, Structural)]
pub enum ReplayError {
    /// The first non-blank line is not the recording header.
    MissingHeader,
    /// A line does not have the shape its event kind requires.
    MalformedLine {
        /// One-based line number, counting the header.
        line: u32,
    },
    /// A line names an event kind this version does not define.
    UnknownEventKind {
        /// One-based line number, counting the header.
        line: u32,
    },
    /// A frame index is lower than the one before it; ordering carries
    /// meaning, so this is rejected rather than sorted.
    FramesOutOfOrder {
        /// One-based line number, counting the header.
        line: u32,
    },
}

// ---------------------------------------------------------------------------
// The text format, as characters.
// ---------------------------------------------------------------------------

/// The header line's characters.
pub open spec fn spec_header() -> Seq<char> {
    seq![
        'r', 'u', 'm', 'i', 'g', 'a', '.', 'i', 'n', 'p', 'u', 't', '-', 'r', 'e', 'c', 'o', 'r', 'd', 'i', 'n', 'g',
        '.', 'v', '1'
    ]
}

/// Lowercase hexadecimal digit `d` (also the decimal digit for `d < 10`).
pub open spec fn spec_hex_char(d: int) -> char {
    hex_digit_char(d)
}

/// Decimal digits of `n`, most significant first, without leading zeros.
pub open spec fn spec_dec(n: nat) -> Seq<char>
    decreases n,
{
    if n < 10 { seq![spec_hex_char(n as int)] } else { spec_dec(n / 10).push(spec_hex_char((n % 10) as int)) }
}

/// A signed value in decimal, with `-` before a negative one.
pub open spec fn spec_idec(x: int) -> Seq<char> {
    if x < 0 { seq!['-'] + spec_dec((-x) as nat) } else { spec_dec(x as nat) }
}

/// A byte as two lowercase hexadecimal digits.
pub open spec fn spec_hex2(k: u8) -> Seq<char> {
    seq![spec_hex_char((k / 16) as int), spec_hex_char((k % 16) as int)]
}

/// A flag as `0` or `1`.
pub open spec fn spec_flag_text(b: bool) -> Seq<char> {
    if b { seq!['1'] } else { seq!['0'] }
}

/// The text line of one event: `<frame> key <hex keycode> down|up`,
/// `<frame> mouse <dx> <dy>` or `<frame> buttons <left> <right>`.
pub open spec fn spec_event_line(r: RecordedInput) -> Seq<char> {
    let frame = spec_dec(r.frame as nat);
    match r.event {
        InputEvent::Key { keycode, pressed } => frame + seq![' ', 'k', 'e', 'y', ' '] + spec_hex2(keycode) + seq![' ']
            + if pressed { seq!['d', 'o', 'w', 'n'] } else { seq!['u', 'p'] },
        InputEvent::MouseMove { dx, dy } => frame + seq![' ', 'm', 'o', 'u', 's', 'e', ' '] + spec_idec(dx as int)
            + seq![' '] + spec_idec(dy as int),
        InputEvent::MouseButtons { left, right } => frame + seq![' ', 'b', 'u', 't', 't', 'o', 'n', 's', ' ']
            + spec_flag_text(left) + seq![' '] + spec_flag_text(right),
    }
}

/// The event lines of a recording, each ended by a newline.
pub open spec fn spec_event_text(evs: Seq<RecordedInput>) -> Seq<char>
    decreases evs.len(),
{
    if evs.len() == 0 {
        Seq::empty()
    } else {
        spec_event_text(evs.drop_last()) + spec_event_line(evs.last()) + seq!['\n']
    }
}

/// A recording in the text format: the header line, then one line per event.
pub open spec fn spec_text(evs: Seq<RecordedInput>) -> Seq<char> {
    spec_header() + seq!['\n'] + spec_event_text(evs)
}

// ---------------------------------------------------------------------------
// Reading the text format.
// ---------------------------------------------------------------------------

/// Unicode white space, as `char::is_whitespace` defines it.
pub open spec fn spec_is_ws(c: char) -> bool {
    let v = c as int;
    (9 <= v <= 13) || v == 32 || v == 0x85 || v == 0xA0 || v == 0x1680 || (0x2000 <= v <= 0x200A) || v == 0x2028
        || v == 0x2029 || v == 0x202F || v == 0x205F || v == 0x3000
}

/// The first newline at or after `i`, or the end of the text.
pub open spec fn spec_find_nl(t: Seq<char>, i: int) -> int
    decreases t.len() - i,
{
    if i >= t.len() {
        t.len() as int
    } else if t[i] == '\n' {
        i
    } else {
        spec_find_nl(t, i + 1)
    }
}

/// The first character at or after `i` that is not white space, or the end.
pub open spec fn spec_skip_ws(t: Seq<char>, i: int) -> int
    decreases t.len() - i,
{
    if i >= t.len() {
        t.len() as int
    } else if !spec_is_ws(t[i]) {
        i
    } else {
        spec_skip_ws(t, i + 1)
    }
}

/// The first white space character at or after `i`, or the end.
pub open spec fn spec_skip_word(t: Seq<char>, i: int) -> int
    decreases t.len() - i,
{
    if i >= t.len() {
        t.len() as int
    } else if spec_is_ws(t[i]) {
        i
    } else {
        spec_skip_word(t, i + 1)
    }
}

/// The three scans stop between their start (clamped at 0) and the end.
pub proof fn lemma_scan_bounds(t: Seq<char>, i: int)
    requires
        0 <= i,
    ensures
        i <= spec_find_nl(t, i) || i > t.len(),
        spec_find_nl(t, i) <= t.len(),
        i <= spec_skip_ws(t, i) || i > t.len(),
        spec_skip_ws(t, i) <= t.len(),
        i <= spec_skip_word(t, i) || i > t.len(),
        spec_skip_word(t, i) <= t.len(),
    decreases t.len() - i,
{
    if i < t.len() {
        lemma_scan_bounds(t, i + 1);
    }
}

/// The lines of the text from `start`: split at newlines, with no empty line
/// after a final newline.
pub open spec fn spec_lines_from(t: Seq<char>, start: int) -> Seq<Seq<char>>
    decreases t.len() + 1 - start,
{
    if start < 0 || start >= t.len() {
        Seq::empty()
    } else {
        let k = spec_find_nl(t, start);
        proof {
            lemma_scan_bounds(t, start);
        }
        seq![t.subrange(start, k)] + spec_lines_from(t, k + 1)
    }
}

/// The lines of a text.
pub open spec fn spec_lines(t: Seq<char>) -> Seq<Seq<char>> {
    spec_lines_from(t, 0)
}

/// The white-space separated fields of the text from `i`.
pub open spec fn spec_fields_from(t: Seq<char>, i: int) -> Seq<Seq<char>>
    decreases t.len() - i,
{
    if i < 0 {
        Seq::empty()
    } else {
        let s = spec_skip_ws(t, i);
        proof {
            lemma_scan_bounds(t, i);
        }
        if s >= t.len() {
            Seq::empty()
        } else {
            let e = spec_skip_word(t, s);
            proof {
                lemma_scan_bounds(t, s);
                lemma_scan_bounds(t, s + 1);
            }
            seq![t.subrange(s, e)] + spec_fields_from(t, e)
        }
    }
}

/// The white-space separated fields of a line.
pub open spec fn spec_fields(t: Seq<char>) -> Seq<Seq<char>> {
    spec_fields_from(t, 0)
}

/// Whether `c` is a decimal digit.
pub open spec fn spec_is_digit(c: char) -> bool {
    48 <= c as int <= 57
}

/// Value of a hexadecimal digit (either case), or -1.
pub open spec fn spec_hex_value(c: char) -> int {
    let v = c as int;
    if 48 <= v <= 57 {
        v - 48
    } else if 97 <= v <= 102 {
        v - 87
    } else if 65 <= v <= 70 {
        v - 55
    } else {
        -1
    }
}

/// Value of a string of digits in base `radix`.
pub open spec fn spec_digits_value(s: Seq<char>, radix: int) -> int
    decreases s.len(),
{
    if s.len() == 0 {
        0
    } else {
        spec_digits_value(s.drop_last(), radix) * radix + spec_hex_value(s.last())
    }
}

/// Whether every character of `s` is a digit in base `radix` (10 or 16).
pub open spec fn spec_all_digits(s: Seq<char>, radix: int) -> bool {
    forall|i: int| 0 <= i < s.len() ==> 0 <= #[trigger] spec_hex_value(s[i]) < radix
}

/// `s` without one leading `+`.
pub open spec fn spec_strip_plus(s: Seq<char>) -> Seq<char> {
    if s.len() > 0 && s[0] == '+' { s.drop_first() } else { s }
}

/// An unsigned number in base `radix` at most `max`: an optional `+` and at
/// least one digit.
pub open spec fn spec_parse_unsigned(s: Seq<char>, radix: int, max: int) -> Option<int> {
    let d = spec_strip_plus(s);
    if d.len() > 0 && spec_all_digits(d, radix) && spec_digits_value(d, radix) <= max {
        Some(spec_digits_value(d, radix))
    } else {
        None
    }
}

/// A frame number: decimal `u64`.
pub open spec fn spec_parse_u64(s: Seq<char>) -> Option<u64> {
    match spec_parse_unsigned(s, 10, u64::MAX as int) {
        Some(v) => Some(v as u64),
        None => None,
    }
}

/// A keycode: hexadecimal `u8`.
pub open spec fn spec_parse_hex_u8(s: Seq<char>) -> Option<u8> {
    match spec_parse_unsigned(s, 16, 255) {
        Some(v) => Some(v as u8),
        None => None,
    }
}

/// A pointer delta: decimal `i16` with an optional sign.
pub open spec fn spec_parse_i16(s: Seq<char>) -> Option<i16> {
    if s.len() > 0 && s[0] == '-' {
        let d = s.drop_first();
        if d.len() > 0 && spec_all_digits(d, 10) && spec_digits_value(d, 10) <= 32768 {
            Some((-spec_digits_value(d, 10)) as i16)
        } else {
            None
        }
    } else {
        match spec_parse_unsigned(s, 10, 32767) {
            Some(v) => Some(v as i16),
            None => None,
        }
    }
}

/// A button flag: `0` or `1`.
pub open spec fn spec_parse_flag(s: Seq<char>) -> Option<bool> {
    if s == seq!['0'] {
        Some(false)
    } else if s == seq!['1'] {
        Some(true)
    } else {
        None
    }
}

/// The one-based number of line `i`, saturating at `u32::MAX`.
pub open spec fn spec_line_no(i: int) -> u32 {
    if i + 1 <= u32::MAX { (i + 1) as u32 } else { u32::MAX }
}

/// The event on a line with fields `f` (line number `line`), given the
/// previous frame: the frame, which must not decrease, the kind, its
/// arguments, and nothing more.
pub open spec fn spec_parse_fields(f: Seq<Seq<char>>, prev: u64, line: u32) -> Result<RecordedInput, ReplayError> {
    let malformed = ReplayError::MalformedLine { line };
    match spec_parse_u64(f[0]) {
        None => Err(malformed),
        Some(frame) => {
            if frame < prev {
                Err(ReplayError::FramesOutOfOrder { line })
            } else if f.len() < 2 {
                Err(malformed)
            } else if f[1] == seq!['k', 'e', 'y'] {
                if f.len() < 3 {
                    Err(malformed)
                } else {
                    match spec_parse_hex_u8(f[2]) {
                        None => Err(malformed),
                        Some(keycode) => {
                            if f.len() < 4 {
                                Err(malformed)
                            } else if f[3] != seq!['d', 'o', 'w', 'n'] && f[3] != seq!['u', 'p'] {
                                Err(malformed)
                            } else if f.len() > 4 {
                                Err(malformed)
                            } else {
                                Ok(
                                    RecordedInput {
                                        frame,
                                        event: InputEvent::Key { keycode, pressed: f[3] == seq!['d', 'o', 'w', 'n'] },
                                    },
                                )
                            }
                        },
                    }
                }
            } else if f[1] == seq!['m', 'o', 'u', 's', 'e'] {
                if f.len() < 3 || spec_parse_i16(f[2]) is None || f.len() < 4 || spec_parse_i16(f[3]) is None
                    || f.len() > 4 {
                    Err(malformed)
                } else {
                    Ok(
                        RecordedInput {
                            frame,
                            event: InputEvent::MouseMove {
                                dx: spec_parse_i16(f[2]).unwrap(),
                                dy: spec_parse_i16(f[3]).unwrap(),
                            },
                        },
                    )
                }
            } else if f[1] == seq!['b', 'u', 't', 't', 'o', 'n', 's'] {
                if f.len() < 3 || spec_parse_flag(f[2]) is None || f.len() < 4 || spec_parse_flag(f[3]) is None
                    || f.len() > 4 {
                    Err(malformed)
                } else {
                    Ok(
                        RecordedInput {
                            frame,
                            event: InputEvent::MouseButtons {
                                left: spec_parse_flag(f[2]).unwrap(),
                                right: spec_parse_flag(f[3]).unwrap(),
                            },
                        },
                    )
                }
            } else {
                Err(ReplayError::UnknownEventKind { line })
            }
        },
    }
}

/// Whether a line carries no event: blank, or a comment starting with `#`.
pub open spec fn spec_skipped_line(f: Seq<Seq<char>>) -> bool {
    f.len() == 0 || f[0][0] == '#'
}

/// Parse the event lines from line `i` on, after events `acc` ending at frame `prev`.
pub open spec fn spec_parse_events(ls: Seq<Seq<char>>, i: int, prev: u64, acc: Seq<RecordedInput>) -> Result<
    Seq<RecordedInput>,
    ReplayError,
>
    decreases ls.len() - i,
{
    if i < 0 || i >= ls.len() {
        Ok(acc)
    } else {
        let f = spec_fields(ls[i]);
        if spec_skipped_line(f) {
            spec_parse_events(ls, i + 1, prev, acc)
        } else {
            match spec_parse_fields(f, prev, spec_line_no(i)) {
                Err(e) => Err(e),
                Ok(r) => spec_parse_events(ls, i + 1, r.frame, acc.push(r)),
            }
        }
    }
}

/// The first line from `i` on with any field, or the number of lines.
pub open spec fn spec_first_content(ls: Seq<Seq<char>>, i: int) -> int
    decreases ls.len() - i,
{
    if i < 0 || i >= ls.len() {
        ls.len() as int
    } else if spec_fields(ls[i]).len() > 0 {
        i
    } else {
        spec_first_content(ls, i + 1)
    }
}

/// A recording read from its text: the first non-blank line must be the
/// header, then every line is blank, a comment, or an event whose frame does
/// not go back.
pub open spec fn spec_parse_text(t: Seq<char>) -> Result<Seq<RecordedInput>, ReplayError> {
    let ls = spec_lines(t);
    let h = spec_first_content(ls, 0);
    if h >= ls.len() || spec_fields(ls[h]) != seq![spec_header()] {
        Err(ReplayError::MissingHeader)
    } else {
        spec_parse_events(ls, h + 1, 0, Seq::empty())
    }
}

/// Whether frames never decrease along the events.
pub open spec fn spec_frames_ordered(evs: Seq<RecordedInput>) -> bool {
    forall|i: int, j: int| 0 <= i <= j < evs.len() ==> evs[i].frame <= evs[j].frame
}


// ---------------------------------------------------------------------------
// The text format reads back what it writes.
// ---------------------------------------------------------------------------

/// Whether no character of `s` is white space.
pub open spec fn spec_no_ws(s: Seq<char>) -> bool {
    forall|i: int| 0 <= i < s.len() ==> !spec_is_ws(#[trigger] s[i])
}

/// Whether no character of `s` is a newline.
pub open spec fn spec_no_nl(s: Seq<char>) -> bool {
    forall|i: int| 0 <= i < s.len() ==> #[trigger] s[i] != '\n'
}

proof fn lemma_hex_char(d: int)
    requires
        0 <= d < 16,
    ensures
        spec_hex_value(spec_hex_char(d)) == d,
        !spec_is_ws(spec_hex_char(d)),
        spec_hex_char(d) != '\n' && spec_hex_char(d) != '+' && spec_hex_char(d) != '-' && spec_hex_char(d) != '#',
        d < 10 ==> spec_is_digit(spec_hex_char(d)),
{
    if d < 10 {
        assert(spec_hex_char(d) as int == 48 + d);
    } else {
        assert(spec_hex_char(d) as int == 87 + d);
    }
}

proof fn lemma_dec(n: nat)
    ensures
        spec_dec(n).len() > 0,
        spec_all_digits(spec_dec(n), 10),
        spec_digits_value(spec_dec(n), 10) == n,
        spec_no_ws(spec_dec(n)),
        spec_no_nl(spec_dec(n)),
        spec_dec(n)[0] != '+' && spec_dec(n)[0] != '-' && spec_dec(n)[0] != '#',
    decreases n,
{
    if n < 10 {
        lemma_hex_char(n as int);
        let d = spec_dec(n);
        assert(d.drop_last() =~= Seq::<char>::empty());
        assert(spec_digits_value(d, 10) == spec_digits_value(d.drop_last(), 10) * 10 + spec_hex_value(d.last()));
    } else {
        lemma_dec(n / 10);
        lemma_hex_char((n % 10) as int);
        let d = spec_dec(n);
        assert(d.drop_last() =~= spec_dec(n / 10));
        assert(spec_digits_value(d, 10) == spec_digits_value(d.drop_last(), 10) * 10 + spec_hex_value(d.last()));
        assert(n == (n / 10) * 10 + n % 10);
        assert forall|i: int| 0 <= i < d.len() implies 0 <= #[trigger] spec_hex_value(d[i]) < 10 && !spec_is_ws(
            d[i],
        ) && d[i] != '\n' by {
            if i < d.len() - 1 {
                assert(d[i] == spec_dec(n / 10)[i]);
            }
        }
    }
}

proof fn lemma_parse_u64_dec(n: u64)
    ensures
        spec_parse_u64(spec_dec(n as nat)) == Some(n),
{
    lemma_dec(n as nat);
}

proof fn lemma_idec(x: i16)
    ensures
        spec_parse_i16(spec_idec(x as int)) == Some(x),
        spec_idec(x as int).len() > 0,
        spec_no_ws(spec_idec(x as int)),
        spec_no_nl(spec_idec(x as int)),
{
    if x < 0 {
        let m = (-x) as nat;
        lemma_dec(m);
        let s = spec_idec(x as int);
        assert(s.drop_first() =~= spec_dec(m));
        assert forall|i: int| 0 <= i < s.len() implies !spec_is_ws(#[trigger] s[i]) && s[i] != '\n' by {
            if i > 0 {
                assert(s[i] == spec_dec(m)[i - 1]);
            }
        }
    } else {
        lemma_dec(x as nat);
    }
}

proof fn lemma_hex2(k: u8)
    ensures
        spec_parse_hex_u8(spec_hex2(k)) == Some(k),
        spec_no_ws(spec_hex2(k)),
        spec_no_nl(spec_hex2(k)),
{
    lemma_hex_char((k / 16) as int);
    lemma_hex_char((k % 16) as int);
    let h = spec_hex2(k);
    let h1 = h.drop_last();
    assert(h1 =~= seq![h[0]]);
    assert(h1.drop_last() =~= Seq::<char>::empty());
    assert(spec_digits_value(h1, 16) == spec_digits_value(h1.drop_last(), 16) * 16 + spec_hex_value(h1.last()));
    assert(spec_digits_value(h, 16) == spec_digits_value(h1, 16) * 16 + spec_hex_value(h.last()));
    assert(spec_digits_value(h, 16) == (k / 16) as int * 16 + (k % 16) as int);
}

/// Scanning for white space across a white-space-free stretch reaches its end.
proof fn lemma_skip_word_run(t: Seq<char>, i: int, j: int)
    requires
        0 <= i <= j <= t.len(),
        forall|k: int| i <= k < j ==> !spec_is_ws(#[trigger] t[k]),
        j == t.len() || spec_is_ws(t[j]),
    ensures
        spec_skip_word(t, i) == j,
    decreases j - i,
{
    if i < j {
        lemma_skip_word_run(t, i + 1, j);
    }
}

/// The scans of `a + b` from inside `b` are those of `b`, shifted.
proof fn lemma_scan_shift(a: Seq<char>, b: Seq<char>, j: int)
    requires
        0 <= j,
    ensures
        spec_find_nl(a + b, a.len() + j) == a.len() + spec_find_nl(b, j),
        spec_skip_ws(a + b, a.len() + j) == a.len() + spec_skip_ws(b, j),
        spec_skip_word(a + b, a.len() + j) == a.len() + spec_skip_word(b, j),
    decreases b.len() - j,
{
    if j < b.len() {
        lemma_scan_shift(a, b, j + 1);
        assert((a + b)[a.len() + j] == b[j]);
    }
}

proof fn lemma_fields_shift(a: Seq<char>, b: Seq<char>, j: int)
    requires
        0 <= j,
    ensures
        spec_fields_from(a + b, a.len() + j) == spec_fields_from(b, j),
    decreases b.len() - j,
{
    lemma_scan_shift(a, b, j);
    lemma_scan_bounds(b, j);
    let s = spec_skip_ws(b, j);
    if s < b.len() {
        lemma_scan_shift(a, b, s);
        lemma_scan_bounds(b, s);
        lemma_scan_bounds(b, s + 1);
        let e = spec_skip_word(b, s);
        assert((a + b).subrange(a.len() + s, a.len() + e) =~= b.subrange(s, e));
        lemma_fields_shift(a, b, e);
    }
}

proof fn lemma_lines_shift(a: Seq<char>, b: Seq<char>, j: int)
    requires
        0 <= j,
    ensures
        spec_lines_from(a + b, a.len() + j) == spec_lines_from(b, j),
    decreases b.len() + 1 - j,
{
    if j < b.len() {
        lemma_scan_shift(a, b, j);
        lemma_scan_bounds(b, j);
        let k = spec_find_nl(b, j);
        assert((a + b).subrange(a.len() + j, a.len() + k) =~= b.subrange(j, k));
        lemma_lines_shift(a, b, k + 1);
    }
}

/// The fields of a white-space-free word followed by a space and more text.
proof fn lemma_fields_cons(w: Seq<char>, rest: Seq<char>)
    requires
        w.len() > 0,
        spec_no_ws(w),
    ensures
        spec_fields(w + seq![' '] + rest) == seq![w] + spec_fields(rest),
{
    let t = w + seq![' '] + rest;
    assert(t[w.len() as int] == ' ');
    assert(spec_is_ws(' '));
    lemma_skip_word_run(t, 0, w.len() as int);
    assert(!spec_is_ws(t[0]));
    assert(t.subrange(0, w.len() as int) =~= w);
    assert(t =~= w + (seq![' '] + rest));
    lemma_fields_shift(w, seq![' '] + rest, 0);
    let u = seq![' '] + rest;
    assert(spec_skip_ws(u, 0) == spec_skip_ws(u, 1));
    lemma_fields_shift(seq![' '], rest, 0);
    assert(u =~= seq![' '] + rest);
    lemma_scan_bounds(u, 1);
    lemma_fields_from_ws(u);
}

proof fn lemma_fields_from_ws(u: Seq<char>)
    requires
        u.len() > 0,
        spec_is_ws(u[0]),
    ensures
        spec_fields_from(u, 0) == spec_fields_from(u, 1),
{
    lemma_scan_bounds(u, 1);
    assert(spec_skip_ws(u, 0) == spec_skip_ws(u, 1));
    let s = spec_skip_ws(u, 1);
    if s < u.len() {
        lemma_scan_bounds(u, s);
        lemma_scan_bounds(u, s + 1);
    }
}

/// The fields of a single white-space-free word.
proof fn lemma_fields_single(w: Seq<char>)
    requires
        w.len() > 0,
        spec_no_ws(w),
    ensures
        spec_fields(w) == seq![w],
{
    lemma_skip_word_run(w, 0, w.len() as int);
    assert(w.subrange(0, w.len() as int) =~= w);
    assert(spec_fields_from(w, w.len() as int) =~= Seq::<Seq<char>>::empty()) by {
        lemma_scan_bounds(w, w.len() as int);
    }
}

proof fn lemma_no_ws_literal(w: Seq<char>)
    requires
        forall|i: int| 0 <= i < w.len() ==> 97 <= (#[trigger] w[i]) as int <= 122,
    ensures
        spec_no_ws(w),
        spec_no_nl(w),
{
}

/// The fields of an event's line.
proof fn lemma_event_fields(r: RecordedInput)
    ensures
        spec_fields(spec_event_line(r)) == (match r.event {
            InputEvent::Key { keycode, pressed } => seq![
                spec_dec(r.frame as nat),
                seq!['k', 'e', 'y'],
                spec_hex2(keycode),
                if pressed { seq!['d', 'o', 'w', 'n'] } else { seq!['u', 'p'] },
            ],
            InputEvent::MouseMove { dx, dy } => seq![
                spec_dec(r.frame as nat),
                seq!['m', 'o', 'u', 's', 'e'],
                spec_idec(dx as int),
                spec_idec(dy as int),
            ],
            InputEvent::MouseButtons { left, right } => seq![
                spec_dec(r.frame as nat),
                seq!['b', 'u', 't', 't', 'o', 'n', 's'],
                spec_flag_text(left),
                spec_flag_text(right),
            ],
        }),
        spec_no_nl(spec_event_line(r)),
{
    let frame = spec_dec(r.frame as nat);
    lemma_dec(r.frame as nat);
    match r.event {
        InputEvent::Key { keycode, pressed } => {
            let hx = spec_hex2(keycode);
            lemma_hex2(keycode);
            let pw = if pressed { seq!['d', 'o', 'w', 'n'] } else { seq!['u', 'p'] };
            lemma_no_ws_literal(pw);
            assert(spec_event_line(r) =~= frame + seq![' '] + seq!['k', 'e', 'y'] + seq![' '] + hx + seq![' '] + pw);
            lemma_four_fields(frame, seq!['k', 'e', 'y'], hx, pw);
        },
        InputEvent::MouseMove { dx, dy } => {
            lemma_idec(dx);
            lemma_idec(dy);
            let xs = spec_idec(dx as int);
            let ys = spec_idec(dy as int);
            assert(spec_event_line(r) =~= frame + seq![' '] + seq!['m', 'o', 'u', 's', 'e'] + seq![' '] + xs + seq![' ']
                + ys);
            lemma_four_fields(frame, seq!['m', 'o', 'u', 's', 'e'], xs, ys);
        },
        InputEvent::MouseButtons { left, right } => {
            let ls = spec_flag_text(left);
            let rs = spec_flag_text(right);
            assert(spec_no_ws(ls) && spec_no_ws(rs) && spec_no_nl(ls) && spec_no_nl(rs));
            assert(spec_event_line(r) =~= frame + seq![' '] + seq!['b', 'u', 't', 't', 'o', 'n', 's'] + seq![' '] + ls
                + seq![' '] + rs);
            lemma_four_fields(frame, seq!['b', 'u', 't', 't', 'o', 'n', 's'], ls, rs);
        },
    }
}

/// Four white-space-free, newline-free words joined by single spaces.
proof fn lemma_four_fields(a: Seq<char>, kw: Seq<char>, c: Seq<char>, d: Seq<char>)
    requires
        a.len() > 0 && c.len() > 0 && d.len() > 0,
        spec_no_ws(a) && spec_no_ws(c) && spec_no_ws(d),
        spec_no_nl(a) && spec_no_nl(c) && spec_no_nl(d),
        kw.len() > 0,
        forall|i: int| 0 <= i < kw.len() ==> 97 <= (#[trigger] kw[i]) as int <= 122,
    ensures
        spec_fields(a + seq![' '] + kw + seq![' '] + c + seq![' '] + d) == seq![a, kw, c, d],
        spec_no_nl(a + seq![' '] + kw + seq![' '] + c + seq![' '] + d),
{
    lemma_no_ws_literal(kw);
    let line = a + seq![' '] + kw + seq![' '] + c + seq![' '] + d;
    assert(line =~= a + seq![' '] + (kw + seq![' '] + (c + seq![' '] + d)));
    lemma_fields_cons(a, kw + seq![' '] + (c + seq![' '] + d));
    lemma_fields_cons(kw, c + seq![' '] + d);
    lemma_fields_cons(c, d);
    lemma_fields_single(d);
    assert(spec_fields(line) =~= seq![a, kw, c, d]);
    assert forall|i: int| 0 <= i < line.len() implies #[trigger] line[i] != '\n' by {
        let p = a.len() as int;
        let q = p + 1 + kw.len();
        let r = q + 1 + c.len();
        if i < p {
            assert(line[i] == a[i]);
        } else if p < i < q {
            assert(line[i] == kw[i - p - 1]);
        } else if q < i < r {
            assert(line[i] == c[i - q - 1]);
        } else if r < i {
            assert(line[i] == d[i - r - 1]);
        }
    }
}

/// An event's line parses back to the event, whatever line number it has,
/// when its frame does not go back.
proof fn lemma_event_line_parses(r: RecordedInput, prev: u64, line: u32)
    requires
        prev <= r.frame,
    ensures
        !spec_skipped_line(spec_fields(spec_event_line(r))),
        spec_parse_fields(spec_fields(spec_event_line(r)), prev, line) == Ok::<RecordedInput, ReplayError>(r),
{
    lemma_event_fields(r);
    lemma_dec(r.frame as nat);
    lemma_parse_u64_dec(r.frame);
    match r.event {
        InputEvent::Key { keycode, pressed } => {
            lemma_hex2(keycode);
        },
        InputEvent::MouseMove { dx, dy } => {
            lemma_idec(dx);
            lemma_idec(dy);
        },
        InputEvent::MouseButtons { left, right } => {},
    }
}

/// The lines of a text that ends with a newline, followed by more text, are
/// its lines followed by the lines of the rest.
proof fn lemma_lines_append(a: Seq<char>, b: Seq<char>, i: int)
    requires
        0 <= i <= a.len(),
        a.len() == 0 || a.last() == '\n',
    ensures
        spec_lines_from(a + b, i) == spec_lines_from(a, i) + spec_lines_from(b, 0),
    decreases a.len() - i,
{
    if i == a.len() {
        lemma_lines_shift(a, b, 0);
        assert(spec_lines_from(a, i) =~= Seq::<Seq<char>>::empty());
        assert(spec_lines_from(a + b, i) =~= spec_lines_from(a, i) + spec_lines_from(b, 0));
    } else {
        lemma_find_nl_prefix(a, b, i);
        let k = spec_find_nl(a, i);
        lemma_scan_bounds(a, i);
        assert((a + b).subrange(i, k) =~= a.subrange(i, k));
        lemma_lines_append(a, b, k + 1);
        assert(spec_lines_from(a + b, i) =~= spec_lines_from(a, i) + spec_lines_from(b, 0));
    }
}

proof fn lemma_find_nl_prefix(a: Seq<char>, b: Seq<char>, i: int)
    requires
        0 <= i < a.len(),
        a.last() == '\n',
    ensures
        spec_find_nl(a + b, i) == spec_find_nl(a, i),
        spec_find_nl(a, i) < a.len(),
    decreases a.len() - i,
{
    assert((a + b)[i] == a[i]);
    if a[i] != '\n' {
        lemma_find_nl_prefix(a, b, i + 1);
    }
}

/// A newline-free line followed by a newline is one line.
proof fn lemma_lines_one(l: Seq<char>)
    requires
        spec_no_nl(l),
    ensures
        spec_lines(l + seq!['\n']) == seq![l],
{
    let t = l + seq!['\n'];
    lemma_find_nl_run(t, 0, l.len() as int);
    assert(t.subrange(0, l.len() as int) =~= l);
    assert(spec_lines_from(t, l.len() + 1int) =~= Seq::<Seq<char>>::empty());
    assert(spec_lines(t) =~= seq![l]);
}

proof fn lemma_find_nl_run(t: Seq<char>, i: int, j: int)
    requires
        0 <= i <= j < t.len(),
        forall|k: int| i <= k < j ==> #[trigger] t[k] != '\n',
        t[j] == '\n',
    ensures
        spec_find_nl(t, i) == j,
    decreases j - i,
{
    if i < j {
        lemma_find_nl_run(t, i + 1, j);
    }
}

/// The lines of the event text are the events' lines.
proof fn lemma_event_text_lines(evs: Seq<RecordedInput>)
    ensures
        spec_lines(spec_event_text(evs)) == Seq::new(evs.len(), |i: int| spec_event_line(evs[i])),
        spec_event_text(evs).len() == 0 || spec_event_text(evs).last() == '\n',
    decreases evs.len(),
{
    if evs.len() == 0 {
        assert(spec_lines(spec_event_text(evs)) =~= Seq::<Seq<char>>::empty());
    } else {
        let front = evs.drop_last();
        lemma_event_text_lines(front);
        let l = spec_event_line(evs.last());
        lemma_event_fields(evs.last());
        lemma_lines_one(l);
        let a = spec_event_text(front);
        assert(spec_event_text(evs) =~= a + (l + seq!['\n']));
        lemma_lines_append(a, l + seq!['\n'], 0);
        assert(spec_lines(spec_event_text(evs)) =~= Seq::new(evs.len(), |i: int| spec_event_line(evs[i])));
    }
}

proof fn lemma_parse_lines(ls: Seq<Seq<char>>, evs: Seq<RecordedInput>, k: int)
    requires
        spec_frames_ordered(evs),
        ls.len() == evs.len() + 1,
        forall|i: int| 0 <= i < evs.len() ==> ls[i + 1] == spec_event_line(evs[i]),
        0 <= k <= evs.len(),
    ensures
        spec_parse_events(ls, k + 1, if k == 0 { 0 } else { evs[k - 1].frame }, evs.subrange(0, k)) == Ok::<
            Seq<RecordedInput>,
            ReplayError,
        >(evs),
    decreases evs.len() - k,
{
    let prev: u64 = if k == 0 { 0 } else { evs[k - 1].frame };
    if k == evs.len() {
        assert(evs.subrange(0, k) =~= evs);
    } else {
        assert(ls[k + 1] == spec_event_line(evs[k]));
        lemma_event_line_parses(evs[k], prev, spec_line_no(k + 1));
        lemma_parse_lines(ls, evs, k + 1);
        assert(evs.subrange(0, k).push(evs[k]) =~= evs.subrange(0, k + 1));
    }
}

/// The text of a recording whose frames never decrease parses back to
/// exactly that recording.
pub proof fn law_text_round_trip(evs: Seq<RecordedInput>)
    requires
        spec_frames_ordered(evs),
    ensures
        spec_parse_text(spec_text(evs)) == Ok::<Seq<RecordedInput>, ReplayError>(evs),
{
    let h = spec_header();
    let body = spec_event_text(evs);
    lemma_no_ws_literal(h.subrange(0, 6));
    assert forall|i: int| 0 <= i < h.len() implies !spec_is_ws(#[trigger] h[i]) && h[i] != '\n' by {}
    lemma_lines_one(h);
    lemma_event_text_lines(evs);
    assert(spec_text(evs) =~= (h + seq!['\n']) + body);
    lemma_lines_append(h + seq!['\n'], body, 0);
    let ls = spec_lines(spec_text(evs));
    assert(ls =~= seq![h] + Seq::new(evs.len(), |i: int| spec_event_line(evs[i])));
    lemma_fields_single(h);
    assert(spec_first_content(ls, 0) == 0);
    lemma_parse_lines(ls, evs, 0);
    assert(evs.subrange(0, 0) =~= Seq::<RecordedInput>::empty());
}


// ---------------------------------------------------------------------------
// Recordings.
// ---------------------------------------------------------------------------

/// An ordered sequence of input events with their frames.
#[derive(Debug, PartialEq, Eq)]
pub struct InputRecording {
    events: Vec<RecordedInput>,
}

impl InputRecording {
    /// Frames never decrease along a recording.
    #[verifier::type_invariant]
    spec fn frames_ordered(self) -> bool {
        spec_frames_ordered(self.events@)
    }
}

impl View for InputRecording {
    type V = Seq<RecordedInput>;

    closed spec fn view(&self) -> Seq<RecordedInput> {
        self.events@
    }
}

impl Clone for InputRecording {
    fn clone(&self) -> (r: Self)
        ensures
            r@ == self@,
    {
        proof {
            use_type_invariant(self);
        }
        let mut events: Vec<RecordedInput> = Vec::new();
        let mut i: usize = 0;
        while i < self.events.len()
            invariant
                i <= self.events@.len(),
                events@ == self.events@.subrange(0, i as int),
            decreases self.events@.len() - i,
        {
            events.push(self.events[i]);
            i += 1;
            assert(events@ =~= self.events@.subrange(0, i as int));
        }
        assert(events@ =~= self.events@);
        InputRecording { events }
    }
}

impl Default for InputRecording {
    fn default() -> (r: Self)
        ensures
            r@ == Seq::<RecordedInput>::empty(),
    {
        InputRecording { events: Vec::new() }
    }
}

/// The one-based line of event `i` in the text form, saturating at `u32::MAX`.
pub open spec fn spec_event_line_no(i: int) -> u32 {
    if i + 2 <= u32::MAX { (i + 2) as u32 } else { u32::MAX }
}

/// The first event from `i` on whose frame is lower than the one before it
/// (the frame before the first event counting as 0), or the number of events.
pub open spec fn spec_first_disorder(evs: Seq<RecordedInput>, i: int) -> int
    decreases evs.len() - i,
{
    if i < 0 || i >= evs.len() {
        evs.len() as int
    } else if evs[i].frame < (if i == 0 { 0 } else { evs[i - 1].frame }) {
        i
    } else {
        spec_first_disorder(evs, i + 1)
    }
}

proof fn lemma_first_disorder(evs: Seq<RecordedInput>, i: int)
    requires
        0 <= i <= evs.len(),
        forall|a: int, b: int| 0 <= a <= b < i ==> evs[a].frame <= evs[b].frame,
    ensures
        spec_first_disorder(evs, i) == evs.len() <==> spec_frames_ordered(evs),
        spec_first_disorder(evs, i) <= evs.len(),
    decreases evs.len() - i,
{
    if i < evs.len() {
        if evs[i].frame < (if i == 0 { 0 } else { evs[i - 1].frame }) {
        } else {
            lemma_first_disorder(evs, i + 1);
        }
    }
}

/// Builds a recording, or names the first line whose frame goes back.
pub open spec fn spec_from_events(evs: Seq<RecordedInput>) -> Result<Seq<RecordedInput>, ReplayError> {
    let k = spec_first_disorder(evs, 0);
    if k >= evs.len() {
        Ok(evs)
    } else {
        Err(ReplayError::FramesOutOfOrder { line: spec_event_line_no(k) })
    }
}

/// The bytes a recording's digest absorbs for one event: the frame, a kind
/// tag, and the payload.
pub open spec fn spec_event_digest_bytes(r: RecordedInput) -> Seq<u8> {
    le_bytes_u64(r.frame) + match r.event {
        InputEvent::Key { keycode, pressed } => le_bytes_u16(0) + le_bytes_u16(keycode as u16) + le_bytes_u16(
            if pressed { 1 } else { 0 },
        ),
        InputEvent::MouseMove { dx, dy } => le_bytes_u16(1) + seq![((dx as u16) >> 8u16) as u8, dx as u8] + seq![
            ((dy as u16) >> 8u16) as u8,
            dy as u8,
        ],
        InputEvent::MouseButtons { left, right } => le_bytes_u16(2) + le_bytes_u16(if left { 1 } else { 0 })
            + le_bytes_u16(if right { 1 } else { 0 }),
    }
}

/// All bytes a recording's digest absorbs, event by event.
pub open spec fn spec_recording_bytes(evs: Seq<RecordedInput>) -> Seq<u8>
    decreases evs.len(),
{
    if evs.len() == 0 {
        Seq::empty()
    } else {
        spec_recording_bytes(evs.drop_last()) + spec_event_digest_bytes(evs.last())
    }
}

/// A parse result seen through the recording's view.
pub open spec fn spec_result_view(r: Result<InputRecording, ReplayError>) -> Result<Seq<RecordedInput>, ReplayError> {
    match r {
        Ok(rec) => Ok(rec@),
        Err(e) => Err(e),
    }
}

impl InputRecording {
    /// Build a recording from events that are already in non-decreasing frame
    /// order; a decreasing frame is reported with its line in the text form.
    pub fn from_events(events: Vec<RecordedInput>) -> (r: Result<Self, ReplayError>)
        ensures
            spec_result_view(r) == spec_from_events(events@),
            r is Ok <==> spec_frames_ordered(events@),
    {
        proof {
            lemma_first_disorder(events@, 0);
        }
        let mut previous: u64 = 0;
        let mut index: usize = 0;
        while index < events.len()
            invariant
                index <= events@.len(),
                previous == (if index == 0 { 0 } else { events@[index - 1].frame }),
                spec_first_disorder(events@, index as int) == spec_first_disorder(events@, 0),
            decreases events@.len() - index,
        {
            if events[index].frame < previous {
                let line = if index < (u32::MAX - 2) as usize { (index + 2) as u32 } else { u32::MAX };
                return Err(ReplayError::FramesOutOfOrder { line });
            }
            previous = events[index].frame;
            index += 1;
        }
        assert(spec_frames_ordered(events@));
        Ok(InputRecording { events })
    }

    /// Events in recording order.
    pub fn events(&self) -> (r: &[RecordedInput])
        ensures
            r@ == self@,
    {
        self.events.as_slice()
    }

    /// Number of recorded events.
    pub fn len(&self) -> (r: usize)
        ensures
            r == self@.len(),
    {
        self.events.len()
    }

    /// Whether the recording holds no events.
    pub fn is_empty(&self) -> (r: bool)
        ensures
            r == (self@.len() == 0),
    {
        self.events.len() == 0
    }

    /// Frame of the last event, if any.
    pub fn last_frame(&self) -> (r: Option<u64>)
        ensures
            self@.len() == 0 ==> r is None,
            self@.len() > 0 ==> r == Some(self@.last().frame),
    {
        if self.events.len() == 0 {
            None
        } else {
            Some(self.events[self.events.len() - 1].frame)
        }
    }

    /// Digest identifying this recording (FNV-1a over each event's frame, kind
    /// tag and payload; not cryptographic).
    #[verifier::rlimit(40)]
    #[verifier::spinoff_prover]
    pub fn digest(&self) -> (r: u64)
        ensures
            r == fnv_fold(OFFSET_BASIS, spec_recording_bytes(self@)),
    {
        let mut digest = StateDigest::new();
        let mut i: usize = 0;
        while i < self.events.len()
            invariant
                i <= self.events@.len(),
                digest@ == fnv_fold(OFFSET_BASIS, spec_recording_bytes(self.events@.subrange(0, i as int))),
            decreases self.events@.len() - i,
        {
            let recorded = self.events[i];
            let ghost before = digest@;
            let ghost pre = self.events@.subrange(0, i as int);
            digest.write_u64(recorded.frame);
            proof {
                crate::digest::lemma_fnv_fold_concat(OFFSET_BASIS, spec_recording_bytes(pre), le_bytes_u64(recorded.frame));
            }
            let ghost mid = spec_recording_bytes(pre) + le_bytes_u64(recorded.frame);
            match recorded.event {
                InputEvent::Key { keycode, pressed } => {
                    digest.write_u16(0);
                    digest.write_u16(keycode as u16);
                    digest.write_u16(if pressed { 1 } else { 0 });
                    proof {
                        crate::digest::lemma_fnv_fold_concat(OFFSET_BASIS, mid, le_bytes_u16(0));
                        crate::digest::lemma_fnv_fold_concat(OFFSET_BASIS, mid + le_bytes_u16(0), le_bytes_u16(keycode as u16));
                        crate::digest::lemma_fnv_fold_concat(
                            OFFSET_BASIS,
                            mid + le_bytes_u16(0) + le_bytes_u16(keycode as u16),
                            le_bytes_u16(if pressed { 1 } else { 0 }),
                        );
                    }
                },
                InputEvent::MouseMove { dx, dy } => {
                    digest.write_u16(1);
                    let ux = dx as u16;
                    let uy = dy as u16;
                    let bx: [u8; 2] = [(ux >> 8) as u8, dx as u8];
                    let by: [u8; 2] = [(uy >> 8) as u8, dy as u8];
                    digest.write_bytes(&bx);
                    digest.write_bytes(&by);
                    proof {
                        crate::digest::lemma_fnv_fold_concat(OFFSET_BASIS, mid, le_bytes_u16(1));
                        crate::digest::lemma_fnv_fold_concat(OFFSET_BASIS, mid + le_bytes_u16(1), bx@);
                        crate::digest::lemma_fnv_fold_concat(OFFSET_BASIS, mid + le_bytes_u16(1) + bx@, by@);
                    }
                },
                InputEvent::MouseButtons { left, right } => {
                    digest.write_u16(2);
                    digest.write_u16(if left { 1 } else { 0 });
                    digest.write_u16(if right { 1 } else { 0 });
                    proof {
                        crate::digest::lemma_fnv_fold_concat(OFFSET_BASIS, mid, le_bytes_u16(2));
                        crate::digest::lemma_fnv_fold_concat(
                            OFFSET_BASIS,
                            mid + le_bytes_u16(2),
                            le_bytes_u16(if left { 1 } else { 0 }),
                        );
                        crate::digest::lemma_fnv_fold_concat(
                            OFFSET_BASIS,
                            mid + le_bytes_u16(2) + le_bytes_u16(if left { 1 } else { 0 }),
                            le_bytes_u16(if right { 1 } else { 0 }),
                        );
                    }
                },
            }
            proof {
                let post = self.events@.subrange(0, i + 1);
                assert(post.drop_last() =~= pre);
                assert(spec_recording_bytes(post) =~= spec_recording_bytes(pre) + spec_event_digest_bytes(recorded));
                match recorded.event {
                    InputEvent::Key { keycode, pressed } => {
                        assert(spec_event_digest_bytes(recorded) =~= le_bytes_u64(recorded.frame) + le_bytes_u16(0)
                            + le_bytes_u16(keycode as u16) + le_bytes_u16(if pressed { 1 } else { 0 }));
                        assert(spec_recording_bytes(post) =~= mid + le_bytes_u16(0) + le_bytes_u16(keycode as u16)
                            + le_bytes_u16(if pressed { 1 } else { 0 }));
                    },
                    InputEvent::MouseMove { dx, dy } => {
                        assert(spec_recording_bytes(post) =~= mid + le_bytes_u16(1) + seq![
                            ((dx as u16) >> 8u16) as u8,
                            dx as u8,
                        ] + seq![((dy as u16) >> 8u16) as u8, dy as u8]);
                    },
                    InputEvent::MouseButtons { left, right } => {
                        assert(spec_recording_bytes(post) =~= mid + le_bytes_u16(2) + le_bytes_u16(
                            if left { 1 } else { 0 },
                        ) + le_bytes_u16(if right { 1 } else { 0 }));
                    },
                }
            }
            i += 1;
        }
        assert(self.events@.subrange(0, self.events@.len() as int) =~= self.events@);
        digest.finish()
    }
}


fn append_dec(text: &mut String, n: u64)
    ensures
        final(text)@ == old(text)@ + spec_dec(n as nat),
    decreases n,
{
    if n >= 10 {
        append_dec(text, n / 10);
    }
    let d = hex_digit_str((n % 10) as u8);
    text.append(d);
    proof {
        if n >= 10 {
            assert(spec_dec(n as nat) =~= spec_dec((n / 10) as nat).push(spec_hex_char((n % 10) as int)));
        }
    }
    assert(text@ =~= old(text)@ + spec_dec(n as nat));
}

/// Human-readable description of a replay error: what is wrong, and on which
/// line.
pub open spec fn spec_error_message(e: ReplayError) -> Seq<char> {
    match e {
        ReplayError::MissingHeader => "expected the header "@ + spec_header(),
        ReplayError::MalformedLine { line } => "malformed event on line "@ + spec_dec(line as nat),
        ReplayError::UnknownEventKind { line } => "unknown event kind on line "@ + spec_dec(line as nat),
        ReplayError::FramesOutOfOrder { line } => "frame index decreases on line "@ + spec_dec(line as nat),
    }
}

impl ReplayError {
    /// The error's description, for display to the user.
    pub fn message(&self) -> (r: String)
        ensures
            r@ == spec_error_message(*self),
    {
        let mut text = String::new();
        match *self {
            ReplayError::MissingHeader => {
                proof {
                    reveal_strlit("rumiga.input-recording.v1");
                }
                text.append("expected the header ");
                text.append(RECORDING_HEADER);
                assert(RECORDING_HEADER@ =~= spec_header());
            },
            ReplayError::MalformedLine { line } => {
                text.append("malformed event on line ");
                append_dec(&mut text, line as u64);
            },
            ReplayError::UnknownEventKind { line } => {
                text.append("unknown event kind on line ");
                append_dec(&mut text, line as u64);
            },
            ReplayError::FramesOutOfOrder { line } => {
                text.append("frame index decreases on line ");
                append_dec(&mut text, line as u64);
            },
        }
        text
    }
}

fn append_idec(text: &mut String, x: i16)
    ensures
        final(text)@ == old(text)@ + spec_idec(x as int),
{
    if x < 0 {
        proof {
            reveal_strlit("-");
        }
        text.append("-");
        let m = (-(x as i32)) as u64;
        append_dec(text, m);
        assert(text@ =~= old(text)@ + spec_idec(x as int));
    } else {
        append_dec(text, x as u64);
    }
}

fn append_event_line(text: &mut String, r: RecordedInput)
    ensures
        final(text)@ == old(text)@ + spec_event_line(r) + seq!['\n'],
{
    proof {
        reveal_strlit(" key ");
        reveal_strlit(" mouse ");
        reveal_strlit(" buttons ");
        reveal_strlit(" ");
        reveal_strlit("down");
        reveal_strlit("up");
        reveal_strlit("0");
        reveal_strlit("1");
        reveal_strlit("\n");
    }
    let ghost t0 = text@;
    append_dec(text, r.frame);
    match r.event {
        InputEvent::Key { keycode, pressed } => {
            text.append(" key ");
            text.append(hex_digit_str(keycode / 16));
            text.append(hex_digit_str(keycode % 16));
            text.append(" ");
            if pressed {
                text.append("down");
            } else {
                text.append("up");
            }
        },
        InputEvent::MouseMove { dx, dy } => {
            text.append(" mouse ");
            append_idec(text, dx);
            text.append(" ");
            append_idec(text, dy);
        },
        InputEvent::MouseButtons { left, right } => {
            text.append(" buttons ");
            text.append(if left { "1" } else { "0" });
            text.append(" ");
            text.append(if right { "1" } else { "0" });
        },
    }
    text.append("\n");
    assert(text@ =~= t0 + spec_event_line(r) + seq!['\n']);
}

impl InputRecording {
    /// Render the recording in the text format: the header line, then one
    /// line per event.
    pub fn to_text(&self) -> (r: String)
        ensures
            r@ == spec_text(self@),
            spec_parse_text(r@) == Ok::<Seq<RecordedInput>, ReplayError>(self@),
    {
        proof {
            use_type_invariant(self);
            law_text_round_trip(self.events@);
            reveal_strlit("rumiga.input-recording.v1");
            reveal_strlit("\n");
        }
        let mut text = String::new();
        text.append(RECORDING_HEADER);
        text.append("\n");
        assert(text@ =~= spec_header() + seq!['\n']);
        let mut i: usize = 0;
        while i < self.events.len()
            invariant
                i <= self.events@.len(),
                text@ == spec_header() + seq!['\n'] + spec_event_text(self.events@.subrange(0, i as int)),
            decreases self.events@.len() - i,
        {
            append_event_line(&mut text, self.events[i]);
            proof {
                let post = self.events@.subrange(0, i + 1);
                assert(post.drop_last() =~= self.events@.subrange(0, i as int));
            }
            assert(text@ =~= spec_header() + seq!['\n'] + spec_event_text(self.events@.subrange(0, i + 1)));
            i += 1;
        }
        assert(self.events@.subrange(0, self.events@.len() as int) =~= self.events@);
        text
    }
}


/// The character sequences held by a vector of character vectors.
pub open spec fn spec_vv(v: Seq<Vec<char>>) -> Seq<Seq<char>> {
    Seq::new(v.len(), |i: int| v[i]@)
}

fn collect_chars(text: &str) -> (r: Vec<char>)
    ensures
        r@ == text@,
{
    broadcast use vstd::string::group_string_axioms;

    let mut v: Vec<char> = Vec::new();
    for c in iter: text.chars()
        invariant
            v@ == iter.seq().subrange(0, iter.index() as int),
    {
        v.push(c);
    }
    v
}

fn sub_chars(t: &Vec<char>, a: usize, b: usize) -> (r: Vec<char>)
    requires
        a <= b <= t@.len(),
    ensures
        r@ == t@.subrange(a as int, b as int),
{
    let mut out: Vec<char> = Vec::new();
    let mut i = a;
    while i < b
        invariant
            a <= i <= b <= t@.len(),
            out@ == t@.subrange(a as int, i as int),
        decreases b - i,
    {
        out.push(t[i]);
        i += 1;
        assert(out@ =~= t@.subrange(a as int, i as int));
    }
    out
}

fn is_ws(c: char) -> (r: bool)
    ensures
        r == spec_is_ws(c),
{
    let v = c as u32;
    (9 <= v && v <= 13) || v == 32 || v == 0x85 || v == 0xA0 || v == 0x1680 || (0x2000 <= v && v <= 0x200A)
        || v == 0x2028 || v == 0x2029 || v == 0x202F || v == 0x205F || v == 0x3000
}

fn split_lines(t: &Vec<char>) -> (r: Vec<Vec<char>>)
    ensures
        spec_vv(r@) == spec_lines(t@),
{
    let mut out: Vec<Vec<char>> = Vec::new();
    let mut start: usize = 0;
    while start < t.len()
        invariant
            start <= t@.len(),
            spec_vv(out@) + spec_lines_from(t@, start as int) == spec_lines(t@),
        decreases t@.len() - start,
    {
        let mut k = start;
        while k < t.len() && t[k] != '\n'
            invariant
                start <= k <= t@.len(),
                spec_find_nl(t@, k as int) == spec_find_nl(t@, start as int),
            decreases t@.len() - k,
        {
            k += 1;
        }
        let line = sub_chars(t, start, k);
        let ghost before = spec_vv(out@);
        out.push(line);
        proof {
            assert(spec_vv(out@) =~= before.push(t@.subrange(start as int, k as int)));
            assert(spec_lines_from(t@, start as int) =~= seq![t@.subrange(start as int, k as int)] + spec_lines_from(
                t@,
                k + 1,
            ));
            assert(spec_vv(out@) + spec_lines_from(t@, k + 1) =~= spec_lines(t@));
        }
        if k == t.len() {
            proof {
                assert(spec_lines_from(t@, k + 1) =~= Seq::<Seq<char>>::empty());
                assert(spec_vv(out@) =~= spec_lines(t@));
            }
            return out;
        }
        start = k + 1;
    }
    proof {
        assert(spec_lines_from(t@, start as int) =~= Seq::<Seq<char>>::empty());
        assert(spec_vv(out@) =~= spec_lines(t@));
    }
    out
}

fn split_fields(t: &Vec<char>) -> (r: Vec<Vec<char>>)
    ensures
        spec_vv(r@) == spec_fields(t@),
{
    let mut out: Vec<Vec<char>> = Vec::new();
    let mut i: usize = 0;
    while i < t.len()
        invariant
            i <= t@.len(),
            spec_vv(out@) + spec_fields_from(t@, i as int) == spec_fields(t@),
        decreases t@.len() - i,
    {
        let ghost i0 = i as int;
        let mut s = i;
        while s < t.len() && is_ws(t[s])
            invariant
                i <= s <= t@.len(),
                spec_skip_ws(t@, s as int) == spec_skip_ws(t@, i0),
            decreases t@.len() - s,
        {
            s += 1;
        }
        if s == t.len() {
            proof {
                lemma_scan_bounds(t@, i0);
                assert(spec_fields_from(t@, i0) =~= Seq::<Seq<char>>::empty());
                assert(spec_vv(out@) =~= spec_fields(t@));
            }
            return out;
        }
        let mut e = s;
        while e < t.len() && !is_ws(t[e])
            invariant
                s <= e <= t@.len(),
                spec_skip_word(t@, e as int) == spec_skip_word(t@, s as int),
            decreases t@.len() - e,
        {
            e += 1;
        }
        let word = sub_chars(t, s, e);
        let ghost before = spec_vv(out@);
        out.push(word);
        proof {
            lemma_scan_bounds(t@, i0);
            assert(spec_vv(out@) =~= before.push(t@.subrange(s as int, e as int)));
            assert(spec_fields_from(t@, i0) =~= seq![t@.subrange(s as int, e as int)] + spec_fields_from(t@, e as int));
            assert(spec_vv(out@) + spec_fields_from(t@, e as int) =~= spec_fields(t@));
        }
        i = e;
    }
    proof {
        assert(spec_fields_from(t@, i as int) =~= Seq::<Seq<char>>::empty());
        assert(spec_vv(out@) =~= spec_fields(t@));
    }
    out
}

fn chars_eq(a: &Vec<char>, b: &[char]) -> (r: bool)
    ensures
        r == (a@ == b@),
{
    if a.len() != b.len() {
        return false;
    }
    let mut i: usize = 0;
    while i < a.len()
        invariant
            i <= a@.len() == b@.len(),
            forall|k: int| 0 <= k < i ==> a@[k] == b@[k],
        decreases a@.len() - i,
    {
        if a[i] != b[i] {
            return false;
        }
        i += 1;
    }
    assert(a@ =~= b@);
    true
}

fn hex_value(c: char) -> (r: i64)
    ensures
        r == spec_hex_value(c),
{
    let v = c as u32;
    if 48 <= v && v <= 57 {
        (v - 48) as i64
    } else if 97 <= v && v <= 102 {
        (v - 87) as i64
    } else if 65 <= v && v <= 70 {
        (v - 55) as i64
    } else {
        -1
    }
}

proof fn lemma_digits_value_nonneg(s: Seq<char>, radix: int)
    requires
        radix >= 1,
        spec_all_digits(s, radix),
    ensures
        0 <= spec_digits_value(s, radix),
    decreases s.len(),
{
    if s.len() > 0 {
        let d = s.drop_last();
        assert(spec_all_digits(d, radix)) by {
            assert forall|i: int| 0 <= i < d.len() implies 0 <= #[trigger] spec_hex_value(d[i]) < radix by {
                assert(d[i] == s[i]);
            }
        }
        lemma_digits_value_nonneg(d, radix);
        assert(0 <= spec_hex_value(s[s.len() - 1]));
        assert(0 <= spec_digits_value(d, radix) * radix) by (nonlinear_arith)
            requires
                radix >= 1,
                spec_digits_value(d, radix) >= 0,
        ;
    }
}

/// Parse the digits of `s` from `start` in base `radix`, at most `max`.
fn parse_digits(s: &Vec<char>, start: usize, radix: u64, max: u64) -> (r: Option<u64>)
    requires
        start <= s@.len(),
        radix == 10 || radix == 16,
    ensures
        ({
            let d = s@.subrange(start as int, s@.len() as int);
            r == (if d.len() > 0 && spec_all_digits(d, radix as int) && spec_digits_value(d, radix as int) <= max {
                Some(spec_digits_value(d, radix as int) as u64)
            } else {
                None
            })
        }),
        r matches Some(v) ==> v <= max && v as int == spec_digits_value(
            s@.subrange(start as int, s@.len() as int),
            radix as int,
        ),
{
    let ghost d = s@.subrange(start as int, s@.len() as int);
    if start == s.len() {
        return None;
    }
    let mut value: u128 = 0;
    let mut over = false;
    let mut i = start;
    while i < s.len()
        invariant
            start <= i <= s@.len(),
            radix == 10 || radix == 16,
            d == s@.subrange(start as int, s@.len() as int),
            spec_all_digits(s@.subrange(start as int, i as int), radix as int),
            !over ==> value == spec_digits_value(s@.subrange(start as int, i as int), radix as int) && value <= max,
            over ==> spec_digits_value(s@.subrange(start as int, i as int), radix as int) > max,
        decreases s@.len() - i,
    {
        let h = hex_value(s[i]);
        if h < 0 || h >= radix as i64 {
            proof {
                assert(!spec_all_digits(d, radix as int)) by {
                    assert(d[i - start] == s@[i as int]);
                }
            }
            return None;
        }
        let ghost p = s@.subrange(start as int, i + 1);
        proof {
            assert(p.drop_last() =~= s@.subrange(start as int, i as int));
            assert(spec_all_digits(p, radix as int)) by {
                assert forall|k: int| 0 <= k < p.len() implies 0 <= #[trigger] spec_hex_value(p[k]) < radix by {
                    if k < p.len() - 1 {
                        assert(p[k] == s@.subrange(start as int, i as int)[k]);
                    }
                }
            }
            lemma_digits_value_nonneg(p.drop_last(), radix as int);
            if over {
                assert(spec_digits_value(p.drop_last(), radix as int) <= spec_digits_value(p.drop_last(), radix as int)
                    * radix) by (nonlinear_arith)
                    requires
                        radix >= 1,
                        spec_digits_value(p.drop_last(), radix as int) >= 0,
                ;
            }
        }
        if !over {
            let next = value * (radix as u128) + (h as u128);
            if next > max as u128 {
                over = true;
            } else {
                value = next;
            }
        }
        i += 1;
    }
    proof {
        assert(s@.subrange(start as int, s@.len() as int) =~= d);
    }
    if over {
        None
    } else {
        Some(value as u64)
    }
}

fn parse_unsigned(s: &Vec<char>, radix: u64, max: u64) -> (r: Option<u64>)
    requires
        radix == 10 || radix == 16,
    ensures
        r == (match spec_parse_unsigned(s@, radix as int, max as int) {
            Some(v) => Some(v as u64),
            None => None::<u64>,
        }),
        r matches Some(v) ==> v <= max && Some(v as int) == spec_parse_unsigned(s@, radix as int, max as int),
{
    let start: usize = if s.len() > 0 && s[0] == '+' { 1 } else { 0 };
    proof {
        if start == 1 {
            assert(s@.subrange(1, s@.len() as int) =~= s@.drop_first());
        } else {
            assert(s@.subrange(0, s@.len() as int) =~= s@);
        }
    }
    parse_digits(s, start, radix, max)
}

fn parse_i16(s: &Vec<char>) -> (r: Option<i16>)
    ensures
        r == spec_parse_i16(s@),
{
    if s.len() > 0 && s[0] == '-' {
        proof {
            assert(s@.subrange(1, s@.len() as int) =~= s@.drop_first());
        }
        match parse_digits(s, 1, 10, 32768) {
            Some(v) => {
                assert(v <= 32768);
                Some((0 - (v as i32)) as i16)
            },
            None => None,
        }
    } else {
        match parse_unsigned(s, 10, 32767) {
            Some(v) => Some(v as i16),
            None => None,
        }
    }
}

fn parse_flag(s: &Vec<char>) -> (r: Option<bool>)
    ensures
        r == spec_parse_flag(s@),
{
    let zero: [char; 1] = ['0'];
    let one: [char; 1] = ['1'];
    assert(zero@ =~= seq!['0'] && one@ =~= seq!['1']);
    if chars_eq(s, &zero) {
        Some(false)
    } else if chars_eq(s, &one) {
        Some(true)
    } else {
        None
    }
}


fn parse_fields(f: &Vec<Vec<char>>, prev: u64, line: u32) -> (r: Result<RecordedInput, ReplayError>)
    requires
        f@.len() > 0,
    ensures
        r == spec_parse_fields(spec_vv(f@), prev, line),
{
    let ghost fv = spec_vv(f@);
    assert(fv[0] == f@[0]@);
    let malformed = ReplayError::MalformedLine { line };
    let frame = match parse_unsigned(&f[0], 10, u64::MAX) {
        Some(v) => v,
        None => {
            return Err(malformed);
        },
    };
    if frame < prev {
        return Err(ReplayError::FramesOutOfOrder { line });
    }
    if f.len() < 2 {
        return Err(malformed);
    }
    assert(fv[1] == f@[1]@);
    let key: [char; 3] = ['k', 'e', 'y'];
    let mouse: [char; 5] = ['m', 'o', 'u', 's', 'e'];
    let buttons: [char; 7] = ['b', 'u', 't', 't', 'o', 'n', 's'];
    let down: [char; 4] = ['d', 'o', 'w', 'n'];
    let up: [char; 2] = ['u', 'p'];
    assert(key@ =~= seq!['k', 'e', 'y'] && mouse@ =~= seq!['m', 'o', 'u', 's', 'e']);
    assert(buttons@ =~= seq!['b', 'u', 't', 't', 'o', 'n', 's']);
    assert(down@ =~= seq!['d', 'o', 'w', 'n'] && up@ =~= seq!['u', 'p']);
    if chars_eq(&f[1], &key) {
        if f.len() < 3 {
            return Err(malformed);
        }
        assert(fv[2] == f@[2]@);
        let keycode = match parse_unsigned(&f[2], 16, 255) {
            Some(v) => v as u8,
            None => {
                return Err(malformed);
            },
        };
        if f.len() < 4 {
            return Err(malformed);
        }
        assert(fv[3] == f@[3]@);
        let is_down = chars_eq(&f[3], &down);
        let is_up = chars_eq(&f[3], &up);
        if !is_down && !is_up {
            return Err(malformed);
        }
        if f.len() > 4 {
            return Err(malformed);
        }
        Ok(RecordedInput { frame, event: InputEvent::Key { keycode, pressed: is_down } })
    } else if chars_eq(&f[1], &mouse) {
        if f.len() < 3 {
            return Err(malformed);
        }
        assert(fv[2] == f@[2]@);
        let dx = match parse_i16(&f[2]) {
            Some(v) => v,
            None => {
                return Err(malformed);
            },
        };
        if f.len() < 4 {
            return Err(malformed);
        }
        assert(fv[3] == f@[3]@);
        let dy = match parse_i16(&f[3]) {
            Some(v) => v,
            None => {
                return Err(malformed);
            },
        };
        if f.len() > 4 {
            return Err(malformed);
        }
        Ok(RecordedInput { frame, event: InputEvent::MouseMove { dx, dy } })
    } else if chars_eq(&f[1], &buttons) {
        if f.len() < 3 {
            return Err(malformed);
        }
        assert(fv[2] == f@[2]@);
        let left = match parse_flag(&f[2]) {
            Some(v) => v,
            None => {
                return Err(malformed);
            },
        };
        if f.len() < 4 {
            return Err(malformed);
        }
        assert(fv[3] == f@[3]@);
        let right = match parse_flag(&f[3]) {
            Some(v) => v,
            None => {
                return Err(malformed);
            },
        };
        if f.len() > 4 {
            return Err(malformed);
        }
        Ok(RecordedInput { frame, event: InputEvent::MouseButtons { left, right } })
    } else {
        Err(ReplayError::UnknownEventKind { line })
    }
}

fn line_no(i: usize) -> (r: u32)
    ensures
        r == spec_line_no(i as int),
{
    if i < (u32::MAX as usize) {
        (i + 1) as u32
    } else {
        u32::MAX
    }
}

impl InputRecording {
    /// Parse the text format. Blank lines and lines starting with `#` are
    /// ignored, so a recording can carry comments; an error names the
    /// offending line.
    pub fn parse(text: &str) -> (r: Result<Self, ReplayError>)
        ensures
            spec_result_view(r) == spec_parse_text(text@),
    {
        let chars = collect_chars(text);
        let lines = split_lines(&chars);
        let ghost ls = spec_lines(text@);
        let mut h: usize = 0;
        while h < lines.len()
            invariant
                h <= lines@.len(),
                ls == spec_vv(lines@),
                spec_first_content(ls, h as int) == spec_first_content(ls, 0),
            ensures
                h <= lines@.len(),
                spec_first_content(ls, h as int) == spec_first_content(ls, 0),
                h < lines@.len() ==> spec_fields(ls[h as int]).len() > 0,
            decreases lines@.len() - h,
        {
            let f = split_fields(&lines[h]);
            assert(ls[h as int] == lines@[h as int]@);
            if f.len() > 0 {
                break;
            }
            h += 1;
        }
        if h >= lines.len() {
            return Err(ReplayError::MissingHeader);
        }
        let hf = split_fields(&lines[h]);
        assert(ls[h as int] == lines@[h as int]@);
        proof {
            reveal_strlit("rumiga.input-recording.v1");
        }
        let header: Vec<char> = collect_chars(RECORDING_HEADER);
        assert(header@ =~= spec_header());
        let is_header = hf.len() == 1 && chars_eq(&hf[0], header.as_slice());
        proof {
            let fv = spec_vv(hf@);
            if is_header {
                assert(fv =~= seq![spec_header()]);
            } else if hf@.len() == 1 {
                assert(fv[0] == hf@[0]@);
                assert(fv != seq![spec_header()]);
            }
        }
        if !is_header {
            return Err(ReplayError::MissingHeader);
        }
        assert(spec_first_content(ls, 0) == h);
        let mut events: Vec<RecordedInput> = Vec::new();
        let mut previous: u64 = 0;
        let mut i: usize = h + 1;
        while i < lines.len()
            invariant
                h < i <= lines@.len(),
                ls == spec_vv(lines@),
                ls == spec_lines(text@),
                spec_first_content(ls, 0) == h,
                spec_fields(ls[h as int]) == seq![spec_header()],
                spec_parse_events(ls, i as int, previous, events@) == spec_parse_events(
                    ls,
                    h + 1,
                    0,
                    Seq::empty(),
                ),
            decreases lines@.len() - i,
        {
            let f = split_fields(&lines[i]);
            assert(ls[i as int] == lines@[i as int]@);
            let skipped = f.len() == 0 || (f[0].len() > 0 && f[0][0] == '#');
            proof {
                let fv = spec_vv(f@);
                if f@.len() > 0 {
                    assert(fv[0] == f@[0]@);
                    assert(f@[0]@.len() > 0) by {
                        lemma_fields_nonempty(ls[i as int]);
                    }
                }
            }
            proof {
                assert(skipped == spec_skipped_line(spec_fields(ls[i as int])));
            }
            if !skipped {
                match parse_fields(&f, previous, line_no(i)) {
                    Ok(r) => {
                        previous = r.frame;
                        events.push(r);
                    },
                    Err(e) => {
                        assert(spec_parse_events(ls, i as int, previous, events@) == Err::<
                            Seq<RecordedInput>,
                            ReplayError,
                        >(e));
                        return Err(e);
                    },
                }
            }
            i += 1;
        }
        proof {
            lemma_parse_events_ordered(ls, h + 1, 0, Seq::empty());
        }
        Ok(InputRecording { events })
    }
}

proof fn lemma_parse_fields_frame(f: Seq<Seq<char>>, prev: u64, line: u32)
    ensures
        spec_parse_fields(f, prev, line) matches Ok(r) ==> r.frame >= prev,
{
}

proof fn lemma_parse_events_ordered(ls: Seq<Seq<char>>, i: int, prev: u64, acc: Seq<RecordedInput>)
    requires
        spec_frames_ordered(acc),
        forall|k: int| 0 <= k < acc.len() ==> #[trigger] acc[k].frame <= prev,
    ensures
        spec_parse_events(ls, i, prev, acc) matches Ok(res) ==> spec_frames_ordered(res),
    decreases ls.len() - i,
{
    if 0 <= i < ls.len() {
        let f = spec_fields(ls[i]);
        if spec_skipped_line(f) {
            lemma_parse_events_ordered(ls, i + 1, prev, acc);
        } else {
            lemma_parse_fields_frame(f, prev, spec_line_no(i));
            match spec_parse_fields(f, prev, spec_line_no(i)) {
                Err(e) => {},
                Ok(r) => {
                    let acc2 = acc.push(r);
                    assert forall|a: int, b: int| 0 <= a <= b < acc2.len() implies acc2[a].frame <= acc2[b].frame by {
                        if b == acc.len() && a < acc.len() {
                            assert(acc[a].frame <= prev);
                        }
                    }
                    lemma_parse_events_ordered(ls, i + 1, r.frame, acc2);
                },
            }
        }
    }
}

proof fn lemma_skip_ws_stops(t: Seq<char>, i: int)
    requires
        0 <= i,
    ensures
        spec_skip_ws(t, i) < t.len() ==> !spec_is_ws(t[spec_skip_ws(t, i)]),
    decreases t.len() - i,
{
    if i < t.len() && spec_is_ws(t[i]) {
        lemma_skip_ws_stops(t, i + 1);
    }
}

proof fn lemma_fields_nonempty(t: Seq<char>)
    ensures
        forall|k: int| 0 <= k < spec_fields(t).len() ==> #[trigger] spec_fields(t)[k].len() > 0,
{
    lemma_fields_from_nonempty(t, 0);
}

proof fn lemma_fields_from_nonempty(t: Seq<char>, i: int)
    ensures
        forall|k: int| 0 <= k < spec_fields_from(t, i).len() ==> #[trigger] spec_fields_from(t, i)[k].len() > 0,
    decreases t.len() - i,
{
    if i >= 0 {
        lemma_scan_bounds(t, i);
        let s = spec_skip_ws(t, i);
        if s < t.len() {
            lemma_scan_bounds(t, s);
            lemma_scan_bounds(t, s + 1);
            let e = spec_skip_word(t, s);
            lemma_skip_ws_stops(t, i);
            lemma_fields_from_nonempty(t, e);
            let head = t.subrange(s, e);
            assert(head.len() > 0);
            let fs = spec_fields_from(t, i);
            assert(fs =~= seq![head] + spec_fields_from(t, e));
            assert forall|k: int| 0 <= k < fs.len() implies #[trigger] fs[k].len() > 0 by {
                if k > 0 {
                    assert(fs[k] == spec_fields_from(t, e)[k - 1]);
                }
            }
        }
    }
}


/// Collects input as it is delivered to the machine. Button state is stored
/// only when it changes, and zero pointer motion not at all.
#[derive(Clone, Debug)]
pub struct InputRecorder {
    events: Vec<RecordedInput>,
    last_buttons: Option<(bool, bool)>,
}

/// Abstract state of a recorder: the events so far and the last button state stored.
pub struct RecorderView {
    pub events: Seq<RecordedInput>,
    pub last_buttons: Option<(bool, bool)>,
}

impl View for InputRecorder {
    type V = RecorderView;

    closed spec fn view(&self) -> RecorderView {
        RecorderView { events: self.events@, last_buttons: self.last_buttons }
    }
}

impl Default for InputRecorder {
    fn default() -> (r: Self)
        ensures
            r@.events.len() == 0,
            r@.last_buttons is None,
    {
        InputRecorder { events: Vec::new(), last_buttons: None }
    }
}

impl InputRecorder {
    /// Create an empty recorder.
    pub fn new() -> (r: Self)
        ensures
            r@.events.len() == 0,
            r@.last_buttons is None,
    {
        InputRecorder { events: Vec::new(), last_buttons: None }
    }

    /// Record a key event for `frame`.
    pub fn key(&mut self, frame: u64, keycode: u8, pressed: bool)
        ensures
            final(self)@.events == old(self)@.events.push(
                RecordedInput { frame, event: InputEvent::Key { keycode, pressed } },
            ),
            final(self)@.last_buttons == old(self)@.last_buttons,
    {
        self.events.push(RecordedInput { frame, event: InputEvent::Key { keycode, pressed } });
    }

    /// Record pointer motion for `frame`, ignoring a zero delta.
    pub fn mouse_move(&mut self, frame: u64, dx: i16, dy: i16)
        ensures
            dx == 0 && dy == 0 ==> final(self)@ == old(self)@,
            !(dx == 0 && dy == 0) ==> final(self)@.events == old(self)@.events.push(
                RecordedInput { frame, event: InputEvent::MouseMove { dx, dy } },
            ),
            final(self)@.last_buttons == old(self)@.last_buttons,
    {
        if dx == 0 && dy == 0 {
            return;
        }
        self.events.push(RecordedInput { frame, event: InputEvent::MouseMove { dx, dy } });
    }

    /// Record button state for `frame` only if it differs from the last
    /// recorded state.
    pub fn mouse_buttons(&mut self, frame: u64, left: bool, right: bool)
        ensures
            old(self)@.last_buttons == Some((left, right)) ==> final(self)@ == old(self)@,
            old(self)@.last_buttons != Some((left, right)) ==> final(self)@.events == old(self)@.events.push(
                RecordedInput { frame, event: InputEvent::MouseButtons { left, right } },
            ) && final(self)@.last_buttons == Some((left, right)),
    {
        let same = match self.last_buttons {
            Some((l, r)) => l == left && r == right,
            None => false,
        };
        if same {
            return;
        }
        self.last_buttons = Some((left, right));
        self.events.push(RecordedInput { frame, event: InputEvent::MouseButtons { left, right } });
    }

    /// Events recorded so far.
    pub fn events(&self) -> (r: &[RecordedInput])
        ensures
            r@ == self@.events,
    {
        self.events.as_slice()
    }

    /// Finish recording; frames recorded out of order are reported as for
    /// [`InputRecording::from_events`].
    pub fn finish(self) -> (r: Result<InputRecording, ReplayError>)
        ensures
            spec_result_view(r) == spec_from_events(self@.events),
    {
        InputRecording::from_events(self.events)
    }
}

/// Each event feeds the digest fourteen bytes.
proof fn lemma_event_bytes_len(r: RecordedInput)
    ensures
        spec_event_digest_bytes(r).len() == 14,
{
}

/// A recording's digest input is its events' fourteen-byte blocks in order.
proof fn lemma_recording_bytes_blocks(evs: Seq<RecordedInput>)
    ensures
        spec_recording_bytes(evs).len() == 14 * evs.len(),
        forall|k: int, j: int|
            0 <= k < evs.len() && 0 <= j < 14 ==> #[trigger] spec_recording_bytes(evs)[14 * k + j]
                == spec_event_digest_bytes(evs[k])[j],
    decreases evs.len(),
{
    if evs.len() > 0 {
        let p = evs.drop_last();
        lemma_recording_bytes_blocks(p);
        lemma_event_bytes_len(evs.last());
        let bytes = spec_recording_bytes(evs);
        assert forall|k: int, j: int| 0 <= k < evs.len() && 0 <= j < 14 implies #[trigger] bytes[14 * k + j]
            == spec_event_digest_bytes(evs[k])[j] by {
            if k < p.len() {
                assert(p[k] == evs[k]);
                assert(spec_recording_bytes(p)[14 * k + j] == spec_event_digest_bytes(p[k])[j]);
            }
        }
    }
}

/// Facts of byte arithmetic the digest encoding rests on: a 64-bit value is
/// its eight little-endian bytes, a byte survives widening, and a 16-bit
/// signed value is its two bytes.
proof fn lemma_byte_decoding()
    by (bit_vector)
    ensures
        forall|f: u64, g: u64|
            #![trigger (f & 0xff) as u8, (g & 0xff) as u8]
            ((f & 0xff) as u8 == (g & 0xff) as u8 && ((f >> 8u64) & 0xff) as u8 == ((g >> 8u64) & 0xff) as u8
                && ((f >> 16u64) & 0xff) as u8 == ((g >> 16u64) & 0xff) as u8 && ((f >> 24u64) & 0xff) as u8 == ((g
                >> 24u64) & 0xff) as u8 && ((f >> 32u64) & 0xff) as u8 == ((g >> 32u64) & 0xff) as u8 && ((f
                >> 40u64) & 0xff) as u8 == ((g >> 40u64) & 0xff) as u8 && ((f >> 48u64) & 0xff) as u8 == ((g
                >> 48u64) & 0xff) as u8 && (f >> 56u64) as u8 == (g >> 56u64) as u8) ==> f == g,
        forall|t: u16| t < 256 ==> #[trigger] ((t & 0xff) as u8) == t,
        forall|t: u8| #[trigger] (((t as u16) & 0xff) as u8) == t,
        forall|d1: i16, d2: i16|
            #![trigger (d1 as u16) >> 8u16, (d2 as u16) >> 8u16]
            (((d1 as u16) >> 8u16) as u8 == ((d2 as u16) >> 8u16) as u8 && d1 as u8 == d2 as u8) ==> d1 == d2,
{
}

/// Different events feed the digest different bytes: the frame, the kind
/// and the payload can all be read back from the fourteen bytes.
proof fn lemma_event_bytes_injective(x: RecordedInput, y: RecordedInput)
    requires
        spec_event_digest_bytes(x) == spec_event_digest_bytes(y),
    ensures
        x == y,
{
    let a = spec_event_digest_bytes(x);
    let b = spec_event_digest_bytes(y);
    let f = x.frame;
    let g = y.frame;
    assert(a[0] == b[0] && a[1] == b[1] && a[2] == b[2] && a[3] == b[3] && a[4] == b[4] && a[5] == b[5] && a[6]
        == b[6] && a[7] == b[7] && a[8] == b[8] && a[9] == b[9] && a[10] == b[10] && a[11] == b[11] && a[12] == b[12]
        && a[13] == b[13]);
    lemma_byte_decoding();
    assert(le_bytes_u64(f) == le_bytes_u64(g) ==> f == g) by {
        if le_bytes_u64(f) == le_bytes_u64(g) {
            assert(le_bytes_u64(f)[0] == le_bytes_u64(g)[0] && le_bytes_u64(f)[1] == le_bytes_u64(g)[1]
                && le_bytes_u64(f)[2] == le_bytes_u64(g)[2] && le_bytes_u64(f)[3] == le_bytes_u64(g)[3]
                && le_bytes_u64(f)[4] == le_bytes_u64(g)[4] && le_bytes_u64(f)[5] == le_bytes_u64(g)[5]
                && le_bytes_u64(f)[6] == le_bytes_u64(g)[6] && le_bytes_u64(f)[7] == le_bytes_u64(g)[7]);
        }
    }
    match (x.event, y.event) {
        (InputEvent::MouseMove { dx: dx1, dy: dy1 }, InputEvent::MouseMove { dx: dx2, dy: dy2 }) => {
            assert((((dx1 as u16) >> 8u16) as u8 == ((dx2 as u16) >> 8u16) as u8 && dx1 as u8 == dx2 as u8) ==> dx1
                == dx2);
            assert((((dy1 as u16) >> 8u16) as u8 == ((dy2 as u16) >> 8u16) as u8 && dy1 as u8 == dy2 as u8) ==> dy1
                == dy2);
        },
        _ => {},
    }
}

/// The digest input determines the recording: two recordings that feed the
/// digest the same bytes hold the same events. In particular a change of
/// event kind, payload or frame changes what is digested.
pub proof fn law_digest_input_determines_recording(a: Seq<RecordedInput>, b: Seq<RecordedInput>)
    requires
        spec_recording_bytes(a) == spec_recording_bytes(b),
    ensures
        a == b,
{
    lemma_recording_bytes_blocks(a);
    lemma_recording_bytes_blocks(b);
    assert(a.len() == b.len());
    assert forall|k: int| 0 <= k < a.len() implies a[k] == b[k] by {
        let ea = spec_event_digest_bytes(a[k]);
        let eb = spec_event_digest_bytes(b[k]);
        lemma_event_bytes_len(a[k]);
        lemma_event_bytes_len(b[k]);
        assert forall|j: int| 0 <= j < 14 implies ea[j] == eb[j] by {
            assert(spec_recording_bytes(a)[14 * k + j] == ea[j]);
            assert(spec_recording_bytes(b)[14 * k + j] == eb[j]);
        }
        assert(ea =~= eb);
        lemma_event_bytes_injective(a[k], b[k]);
    }
    assert(a =~= b);
}

} // verus!
