//! The trusted items through which the library reads a `ropey::Rope`.
//!
//! What a rope holds is named `rope_chars`; its lines are stated over those
//! characters as ropey (with its default `unicode_lines` feature) counts
//! them: a line ends after LF, VT, FF, CR, NEL, LS or PS, a CR followed by LF
//! ends one line, and a text that ends with a line break has a final empty
//! line.
use vstd::prelude::*;
use ropey::Rope;

verus! {

#[verifier::external_type_specification]
#[verifier::external_body]
pub struct ExRope(Rope);

/// The characters that a `ropey::Rope` holds, in order.
pub uninterp spec fn rope_chars(rope: Rope) -> Seq<char>;

/// Whether a line break ends at `text[i]`: LF, VT, FF, NEL, LS, PS, or a CR
/// that no LF follows (a CR followed by LF ends its line at the LF).
pub open spec fn is_line_break_at(text: Seq<char>, i: int) -> bool {
    let c = text[i];
    ||| c == '\n'
    ||| c == '\u{0B}'
    ||| c == '\u{0C}'
    ||| c == '\u{85}'
    ||| c == '\u{2028}'
    ||| c == '\u{2029}'
    ||| (c == '\r' && !(i + 1 < text.len() && text[i + 1] == '\n'))
}

/// The number of line breaks among the first `n` characters.
pub open spec fn breaks_before(text: Seq<char>, n: int) -> nat
    decreases n,
{
    if n <= 0 {
        0
    } else {
        breaks_before(text, n - 1) + if is_line_break_at(text, n - 1) { 1nat } else { 0nat }
    }
}

/// The first place from `n` on before which `line` line breaks lie, or the
/// end of the text.
pub open spec fn first_place_after_breaks(text: Seq<char>, line: nat, n: int) -> int
    decreases text.len() - n,
{
    if n >= text.len() {
        text.len() as int
    } else if breaks_before(text, n) >= line {
        n
    } else {
        first_place_after_breaks(text, line, n + 1)
    }
}

/// `Rope::len_lines`: the line breaks, plus one.
pub open spec fn rope_line_count(text: Seq<char>) -> usize {
    (breaks_before(text, text.len() as int) + 1) as usize
}

/// `Rope::line_to_char`: where a line starts, just after the line break
/// that ends the line before it; one past the last line, the end of the text.
pub open spec fn rope_line_start(text: Seq<char>, line: usize) -> usize {
    first_place_after_breaks(text, line as nat, 0) as usize
}

/// `Rope::line(line).len_chars()`: the characters of a line, its line break
/// included.
pub open spec fn rope_line_len(text: Seq<char>, line: usize) -> usize {
    (rope_line_start(text, (line + 1) as usize) - rope_line_start(text, line)) as usize
}

/// `Rope::char_to_line`: the line breaks before the character.
pub open spec fn rope_char_to_line(text: Seq<char>, char_idx: usize) -> usize {
    breaks_before(text, char_idx as int) as usize
}

/// The characters whose UTF-8 bytes all lie among the first `byte_idx`
/// bytes, counted among the first `k` characters.
pub open spec fn chars_within_bytes(text: Seq<char>, byte_idx: usize, k: int) -> int
    decreases k,
{
    if k <= 0 {
        0
    } else if utf8_len(text.take(k)) <= byte_idx {
        k
    } else {
        chars_within_bytes(text, byte_idx, k - 1)
    }
}

/// `Rope::byte_to_line`: the line breaks before the character that holds
/// the byte.
pub open spec fn rope_byte_to_line(text: Seq<char>, byte_idx: usize) -> usize {
    breaks_before(text, chars_within_bytes(text, byte_idx, text.len() as int)) as usize
}

/// The number of bytes that UTF-8 takes for a character.
pub open spec fn utf8_width(c: char) -> nat {
    let u = c as u32;
    if u < 0x80 {
        1
    } else if u < 0x800 {
        2
    } else if u < 0x10000 {
        3
    } else {
        4
    }
}

/// The number of bytes of these characters in UTF-8.
pub open spec fn utf8_len(text: Seq<char>) -> nat
    decreases text.len(),
{
    if text.len() == 0 {
        0
    } else {
        utf8_len(text.drop_last()) + utf8_width(text.last())
    }
}

/// `Rope::len_chars`: the number of characters of the rope.
#[verifier::external_body]
pub(crate) fn rope_len_chars(rope: &Rope) -> (len: usize)
    ensures
        len == rope_chars(*rope).len(),
{
    rope.len_chars()
}

/// `Rope::char`: the character at `idx` (the call panics past the end, so
/// `requires` keeps `idx` in bounds).
#[verifier::external_body]
pub(crate) fn rope_char(rope: &Rope, idx: usize) -> (ch: char)
    requires
        idx < rope_chars(*rope).len(),
    ensures
        ch == rope_chars(*rope)[idx as int],
{
    rope.char(idx)
}

/// `Rope::len_lines`: the number of lines.
#[verifier::external_body]
pub(crate) fn rope_len_lines(rope: &Rope) -> (count: usize)
    ensures
        count == rope_line_count(rope_chars(*rope)),
{
    rope.len_lines()
}

/// `Rope::line_to_char`: the index of the first character of a line, at most
/// one past the end (the call panics when `line > len_lines()`).
#[verifier::external_body]
pub(crate) fn rope_line_to_char(rope: &Rope, line: usize) -> (start: usize)
    requires
        line <= rope_line_count(rope_chars(*rope)),
    ensures
        start == rope_line_start(rope_chars(*rope), line),
        start <= rope_chars(*rope).len(),
{
    rope.line_to_char(line)
}

/// `Rope::line(line).len_chars()`: the length of a line, line break included.
/// The line is a part of the rope that starts at `line_to_char(line)`, so it
/// ends inside the rope.  The call panics when `line >= len_lines()`.
#[verifier::external_body]
pub(crate) fn rope_line_len_chars(rope: &Rope, line: usize) -> (len: usize)
    requires
        line < rope_line_count(rope_chars(*rope)),
    ensures
        len == rope_line_len(rope_chars(*rope), line),
        rope_line_start(rope_chars(*rope), line) + len <= rope_chars(*rope).len(),
{
    rope.line(line).len_chars()
}

/// `Rope::char_to_line`: the line that a character is on (the call panics
/// when `char_idx > len_chars()`; one past the end gives the last line): a
/// line of the rope that starts at or before the character.
#[verifier::external_body]
pub(crate) fn rope_char_line(rope: &Rope, char_idx: usize) -> (line: usize)
    requires
        char_idx <= rope_chars(*rope).len(),
    ensures
        line == rope_char_to_line(rope_chars(*rope), char_idx),
        line < rope_line_count(rope_chars(*rope)),
        rope_line_start(rope_chars(*rope), line) <= char_idx,
{
    rope.char_to_line(char_idx)
}

/// `Rope::clone`: a rope with the same text.
#[verifier::external_body]
pub(crate) fn rope_clone(rope: &Rope) -> (copy: Rope)
    ensures
        rope_chars(copy) == rope_chars(*rope),
{
    rope.clone()
}

/// `Rope::len_bytes`: the length of the text in UTF-8.
#[verifier::external_body]
pub(crate) fn rope_len_bytes(rope: &Rope) -> (len: usize)
    ensures
        len == utf8_len(rope_chars(*rope)),
{
    rope.len_bytes()
}

/// `Rope::byte_to_line`: the line that a byte is on (the call panics when
/// `byte_idx > len_bytes()`): a line of the rope whose first character starts
/// at or before the byte.
#[verifier::external_body]
pub(crate) fn rope_byte_line(rope: &Rope, byte_idx: usize) -> (line: usize)
    requires
        byte_idx <= utf8_len(rope_chars(*rope)),
    ensures
        line == rope_byte_to_line(rope_chars(*rope), byte_idx),
        line < rope_line_count(rope_chars(*rope)),
        utf8_len(rope_chars(*rope).take(rope_line_start(rope_chars(*rope), line) as int))
            <= byte_idx,
{
    rope.byte_to_line(byte_idx)
}

/// `Rope::line_to_byte`: the byte index of the first character of a line,
/// which is the UTF-8 length of the text before it (the call panics when
/// `line > len_lines()`).
#[verifier::external_body]
pub(crate) fn rope_line_to_byte(rope: &Rope, line: usize) -> (start: usize)
    requires
        line <= rope_line_count(rope_chars(*rope)),
    ensures
        start == utf8_len(rope_chars(*rope).take(rope_line_start(rope_chars(*rope), line) as int)),
{
    rope.line_to_byte(line)
}

} // verus!
