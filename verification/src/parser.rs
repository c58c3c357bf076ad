//! A generic, line oriented syntax highlighter.
//!
//! `parse` walks the characters of a rope once and splits every line into
//! highlighted blocks.  The whole behaviour of the walk is stated by the spec
//! function `parsed_lines`, built from `parse_step`, one character at a time.
use vstd::prelude::*;
use core::ops::Range;
use fxhash::FxHashMap;
use ropey::Rope;
use crate::rope::{
    rope_char, rope_chars, rope_len_chars, rope_len_lines, rope_line_count, rope_line_len,
    rope_line_len_chars, rope_line_start, rope_line_to_char,
};
use smallvec::SmallVec;

verus! {

// ---------------------------------------------------------------------------
// Outside types and the trusted items that speak of them
// ---------------------------------------------------------------------------

#[verifier::external_type_specification]
#[verifier::external_body]
pub struct ExFxHasher(fxhash::FxHasher);

#[verifier::external_type_specification]
#[verifier::external_body]
#[verifier::reject_recursive_types(H)]
pub struct ExBuildHasherDefault<H>(std::hash::BuildHasherDefault<H>);

/// What `str::to_uppercase` returns for a string with these characters.
pub uninterp spec fn uppercase_of(text: Seq<char>) -> Seq<char>;

/// The upper case of an ASCII character: `a` to `z` become `A` to `Z`, the
/// others stay.
pub open spec fn ascii_upper(c: char) -> char {
    if 'a' <= c <= 'z' {
        ((c as u32) - 32) as char
    } else {
        c
    }
}

/// Whether a word is written in capitals: its upper case is itself.  For an
/// ASCII word that means that no letter is in `a` to `z`.
pub open spec fn is_upper_case(word: Seq<char>) -> bool {
    if forall|i: int| 0 <= i < word.len() ==> (#[trigger] word[i] as u32) < 128 {
        word.map_values(|c: char| ascii_upper(c)) == word
    } else {
        uppercase_of(word) == word
    }
}

/// `str::to_uppercase` on the string made of these characters.  The Unicode
/// upper case mapping is named `uppercase_of`; as its documentation says, on
/// ASCII text it maps each letter `a` to `z` to its capital and leaves the
/// other characters.
#[verifier::external_body]
fn chars_to_uppercase(chars: &Vec<char>) -> (upper: Vec<char>)
    ensures
        upper@ == uppercase_of(chars@),
        (forall|i: int| 0 <= i < chars@.len() ==> (#[trigger] chars@[i] as u32) < 128) ==> upper@
            == chars@.map_values(|c: char| ascii_upper(c)),
{
    chars.iter().collect::<String>().to_uppercase().chars().collect()
}

// ---------------------------------------------------------------------------
// Syntax types
// ---------------------------------------------------------------------------

#[derive(Clone, Copy, Debug, PartialEq, Eq, Structural)]
pub enum SyntaxType {
    String,
    Keyword,
    SpecialKeyword,
    Punctuation,
    Punctuation2,
    Unknown,
    Property,
    Module,
    Comment,
    SpaceMark,
}

pub open spec fn syntax_color(kind: SyntaxType) -> Seq<char> {
    match kind {
        SyntaxType::Keyword => "rgb(251, 60, 44)"@,
        SyntaxType::String => "rgb(151, 151, 26)"@,
        SyntaxType::Punctuation => "rgb(104, 157, 96)"@,
        SyntaxType::Punctuation2 => "rgb(252, 188, 61)"@,
        SyntaxType::Unknown => "rgb(223, 191, 142)"@,
        SyntaxType::Property => "rgb(152, 192, 124)"@,
        SyntaxType::Module => "rgb(250, 189, 40)"@,
        SyntaxType::SpecialKeyword => "rgb(211, 134, 155)"@,
        SyntaxType::Comment => "gray"@,
        SyntaxType::SpaceMark => "rgb(223, 191, 142, 0.2)"@,
    }
}

impl SyntaxType {
    /// The color in which text of this kind is painted.
    pub fn color(&self) -> (color: &str)
        ensures
            color@ == syntax_color(*self),
    {
        match self {
            SyntaxType::Keyword => "rgb(251, 60, 44)",
            SyntaxType::String => "rgb(151, 151, 26)",
            SyntaxType::Punctuation => "rgb(104, 157, 96)",
            SyntaxType::Punctuation2 => "rgb(252, 188, 61)",
            SyntaxType::Unknown => "rgb(223, 191, 142)",
            SyntaxType::Property => "rgb(152, 192, 124)",
            SyntaxType::Module => "rgb(250, 189, 40)",
            SyntaxType::SpecialKeyword => "rgb(211, 134, 155)",
            SyntaxType::Comment => "gray",
            SyntaxType::SpaceMark => "rgb(223, 191, 142, 0.2)",
        }
    }
}

/// What the highlighter knows of the next word: whether a `.` came before it.
#[derive(Clone, Copy, PartialEq, Eq, Debug, Structural)]
pub enum SyntaxSemantic {
    Unknown,
    PropertyAccess,
}

pub open spec fn semantic_type(semantic: SyntaxSemantic) -> SyntaxType {
    match semantic {
        SyntaxSemantic::PropertyAccess => SyntaxType::Property,
        SyntaxSemantic::Unknown => SyntaxType::Unknown,
    }
}

fn syntax_type_of(semantic: SyntaxSemantic) -> (kind: SyntaxType)
    ensures
        kind == semantic_type(semantic),
{
    match semantic {
        SyntaxSemantic::PropertyAccess => SyntaxType::Property,
        SyntaxSemantic::Unknown => SyntaxType::Unknown,
    }
}

/// A highlighted piece of a line: a range of characters of the text, or a run
/// of `len` copies of `char` that stand in for leading whitespace.
pub enum TextNode {
    Range(Range<usize>),
    LineOfChars { len: usize, char: char },
}

/// The highlighted blocks of one line.
#[verifier::external_body]
pub struct SyntaxLine {
    items: SmallVec<[(SyntaxType, TextNode); 4]>,
}

/// The blocks that a `SyntaxLine` holds, in order.
pub uninterp spec fn line_items(line: SyntaxLine) -> Seq<(SyntaxType, TextNode)>;

impl SyntaxLine {
    /// `SmallVec::new`: an empty line.
    #[verifier::external_body]
    pub fn new() -> (line: SyntaxLine)
        ensures
            line_items(line) == Seq::<(SyntaxType, TextNode)>::empty(),
    {
        SyntaxLine { items: SmallVec::new() }
    }

    /// `SmallVec::push`: appends one block at the end.
    #[verifier::external_body]
    pub fn push(&mut self, item: (SyntaxType, TextNode))
        ensures
            line_items(*final(self)) == line_items(*old(self)).push(item),
    {
        self.items.push(item)
    }

    /// `SmallVec::as_slice`: the blocks in order.
    #[verifier::external_body]
    pub fn as_slice(&self) -> (items: &[(SyntaxType, TextNode)])
        ensures
            items@ == line_items(*self),
    {
        self.items.as_slice()
    }
}

// ---------------------------------------------------------------------------
// The blocks of all lines
// ---------------------------------------------------------------------------

/// `HashMap::insert` (with `FxHasher`): the map afterwards maps `key` to `value`.
#[verifier::external_body]
fn blocks_insert(blocks: &mut FxHashMap<usize, SyntaxLine>, key: usize, value: SyntaxLine)
    ensures
        final(blocks)@ == old(blocks)@.insert(key, value),
{
    blocks.insert(key, value);
}

/// `HashMap::get` (with `FxHasher`).
#[verifier::external_body]
fn blocks_get(blocks: &FxHashMap<usize, SyntaxLine>, key: usize) -> (value: Option<&SyntaxLine>)
    ensures
        blocks@.contains_key(key) ==> value == Some(&blocks@[key]),
        !blocks@.contains_key(key) ==> value is None,
{
    blocks.get(&key)
}

/// `HashMap::len` (with `FxHasher`): the number of keys.
#[verifier::external_body]
fn blocks_len(blocks: &FxHashMap<usize, SyntaxLine>) -> (len: usize)
    ensures
        len == blocks@.dom().len(),
{
    blocks.len()
}

pub struct SyntaxBlocks {
    blocks: FxHashMap<usize, SyntaxLine>,
}

impl View for SyntaxBlocks {
    type V = Seq<Seq<(SyntaxType, TextNode)>>;

    closed spec fn view(&self) -> Seq<Seq<(SyntaxType, TextNode)>> {
        Seq::new(self.blocks@.dom().len(), |k: int| line_items(self.blocks@[k as usize]))
    }
}

impl SyntaxBlocks {
    /// The lines are stored under the keys `0..len`, with no gap.
    pub closed spec fn wf(&self) -> bool {
        &&& self.blocks@.dom().finite()
        &&& forall|k: usize| #[trigger] self.blocks@.dom().contains(k) <==> k < self.blocks@.dom().len()
    }

    pub fn new() -> (blocks: SyntaxBlocks)
        ensures
            blocks.wf(),
            blocks@ == Seq::<Seq<(SyntaxType, TextNode)>>::empty(),
    {
        let blocks = SyntaxBlocks { blocks: FxHashMap::default() };
        assert(blocks@ =~= Seq::<Seq<(SyntaxType, TextNode)>>::empty());
        blocks
    }

    pub fn push_line(&mut self, line: SyntaxLine)
        requires
            old(self).wf(),
            old(self)@.len() < usize::MAX,
        ensures
            final(self).wf(),
            final(self)@ == old(self)@.push(line_items(line)),
    {
        let ghost old_dom = self.blocks@.dom();
        let len = self.len();
        assert(!old_dom.contains(len));
        blocks_insert(&mut self.blocks, len, line);
        let ghost new_dom = self.blocks@.dom();
        assert(new_dom == old_dom.insert(len));
        assert(new_dom.len() == len + 1);
        assert forall|k: usize| #[trigger] new_dom.contains(k) <==> k < new_dom.len() by {
            if k < len {
                assert(old_dom.contains(k));
            }
        }
        assert(self@ =~= old(self)@.push(line_items(line))) by {
            assert forall|k: int| 0 <= k < len implies #[trigger] self.blocks@[k as usize] == old(self).blocks@[k as usize] by {
                assert(old_dom.contains(k as usize));
            }
        }
    }

    pub fn get_line(&self, line: usize) -> (items: &[(SyntaxType, TextNode)])
        requires
            self.wf(),
            line < self@.len(),
        ensures
            items@ == self@[line as int],
    {
        assert(self.blocks@.dom().contains(line));
        let value = blocks_get(&self.blocks, line);
        match value {
            Some(l) => l.as_slice(),
            None => {
                proof {
                    assert(false);
                }
                unreached()
            },
        }
    }

    pub fn len(&self) -> (len: usize)
        ensures
            len == self@.len(),
    {
        blocks_len(&self.blocks)
    }

    pub fn clear(&mut self)
        ensures
            final(self).wf(),
            final(self)@ == Seq::<Seq<(SyntaxType, TextNode)>>::empty(),
    {
        self.blocks.clear();
        assert(self.blocks@.dom() =~= Set::<usize>::empty());
        assert(self@ =~= Seq::<Seq<(SyntaxType, TextNode)>>::empty());
    }
}

impl Default for SyntaxBlocks {
    fn default() -> (blocks: SyntaxBlocks)
        ensures
            blocks.wf(),
            blocks@ == Seq::<Seq<(SyntaxType, TextNode)>>::empty(),
    {
        SyntaxBlocks::new()
    }
}

// ---------------------------------------------------------------------------
// The model of the walk
// ---------------------------------------------------------------------------

/// Texts of at least this many characters are not highlighted: each line
/// becomes one `Unknown` block.
pub const LARGE_FILE: usize = 45_000_000;

#[derive(Clone, Copy, PartialEq, Eq, Debug, Structural)]
pub enum CommentTracking {
    Off,
    OneLine,
    MultiLine,
}

/// `char::is_whitespace`: the Unicode `White_Space` property.
pub open spec fn is_whitespace(c: char) -> bool {
    let u = c as u32;
    ||| 0x9 <= u <= 0xD
    ||| u == 0x20
    ||| u == 0x85
    ||| u == 0xA0
    ||| u == 0x1680
    ||| 0x2000 <= u <= 0x200A
    ||| u == 0x2028
    ||| u == 0x2029
    ||| u == 0x202F
    ||| u == 0x205F
    ||| u == 0x3000
}

pub open spec fn trim_start(s: Seq<char>) -> Seq<char>
    decreases s.len(),
{
    if s.len() > 0 && is_whitespace(s[0]) {
        trim_start(s.drop_first())
    } else {
        s
    }
}

pub open spec fn trim_end(s: Seq<char>) -> Seq<char>
    decreases s.len(),
{
    if s.len() > 0 && is_whitespace(s.last()) {
        trim_end(s.drop_last())
    } else {
        s
    }
}

/// `str::trim`: the text without its leading and trailing whitespace.
pub open spec fn trim(s: Seq<char>) -> Seq<char> {
    trim_end(trim_start(s))
}

pub open spec fn chars_in(text: Seq<char>, r: Range<usize>) -> Seq<char> {
    text.subrange(r.start as int, r.end as int)
}

pub open spec fn generic_keywords() -> Seq<Seq<char>> {
    seq![
        seq!['m', 'o', 'd'], seq!['u', 's', 'e'], seq!['i', 'm', 'p', 'l'], seq!['i', 'f'],
        seq!['l', 'e', 't'], seq!['f', 'n'], seq!['s', 't', 'r', 'u', 'c', 't'],
        seq!['e', 'n', 'u', 'm'], seq!['c', 'o', 'n', 's', 't'], seq!['p', 'u', 'b'],
        seq!['c', 'r', 'a', 't', 'e'], seq!['e', 'l', 's', 'e'], seq!['m', 'u', 't'],
        seq!['f', 'o', 'r'], seq!['i', '8'], seq!['u', '8'], seq!['i', '1', '6'],
        seq!['u', '1', '6'], seq!['i', '3', '2'], seq!['u', '3', '2'], seq!['f', '3', '2'],
        seq!['i', '6', '4'], seq!['u', '6', '4'], seq!['f', '6', '4'], seq!['i', '1', '2', '8'],
        seq!['u', '1', '2', '8'], seq!['u', 's', 'i', 'z', 'e'], seq!['i', 's', 'i', 'z', 'e'],
        seq!['m', 'o', 'v', 'e'], seq!['a', 's', 'y', 'n', 'c'], seq!['i', 'n'],
        seq!['o', 'f'], seq!['d', 'y', 'n'], seq!['t', 'y', 'p', 'e'],
        seq!['m', 'a', 't', 'c', 'h'],
    ]
}

pub open spec fn special_keywords() -> Seq<Seq<char>> {
    seq![seq!['s', 'e', 'l', 'f'], seq!['S', 'e', 'l', 'f'], seq!['f', 'a', 'l', 's', 'e'], seq!['t', 'r', 'u', 'e']]
}

pub open spec fn is_special_character(c: char) -> bool {
    c == '.' || c == '=' || c == ';' || c == ':' || c == '\'' || c == ',' || c == '#' || c == '&'
        || c == '-' || c == '+' || c == '^' || c == '\\'
}

pub open spec fn is_special_character_2(c: char) -> bool {
    c == '{' || c == '}' || c == '(' || c == ')' || c == '>' || c == '<' || c == '[' || c == ']'
}

/// The state of the walk before a character is read.
pub struct ParseState {
    pub tracking_comment: CommentTracking,
    pub comment_stack: Option<Range<usize>>,
    pub tracking_string: bool,
    pub string_stack: Option<Range<usize>>,
    pub generic_stack: Option<Range<usize>>,
    pub last_semantic: SyntaxSemantic,
    pub line: Seq<(SyntaxType, TextNode)>,
    pub begining_of_line: bool,
    pub blocks: Seq<Seq<(SyntaxType, TextNode)>>,
}

pub open spec fn initial_state() -> ParseState {
    ParseState {
        tracking_comment: CommentTracking::Off,
        comment_stack: None,
        tracking_string: false,
        string_stack: None,
        generic_stack: None,
        last_semantic: SyntaxSemantic::Unknown,
        line: Seq::empty(),
        begining_of_line: true,
        blocks: Seq::empty(),
    }
}

pub open spec fn range(start: usize, end: usize) -> Range<usize> {
    Range { start, end }
}

/// Extends a range of characters up to `idx`, or starts one at `idx`.
pub open spec fn pushed_stack(stack: Option<Range<usize>>, idx: usize) -> Option<Range<usize>> {
    match stack {
        Some(r) => Some(range(r.start, (idx + 1) as usize)),
        None => Some(range(idx, (idx + 1) as usize)),
    }
}

/// The kind of a finished word, read at the character `ch` that ends it.
pub open spec fn word_kind(text: Seq<char>, wp: Range<usize>, semantic: SyntaxSemantic, ch: char) -> SyntaxType {
    let word = chars_in(text, wp);
    let trimmed = trim(word);
    let next_is_colon = wp.end + 1 < text.len() && text[wp.end + 1] == ':';
    if ch == ':' && next_is_colon {
        SyntaxType::Module
    } else if generic_keywords().contains(trimmed) {
        SyntaxType::Keyword
    } else if special_keywords().contains(trimmed) || is_upper_case(word) {
        SyntaxType::SpecialKeyword
    } else {
        semantic_type(semantic)
    }
}

/// Emits the pending word, unless it is only whitespace: the pending word,
/// the line and the semantic hint after `flush_generic_stack`.
pub open spec fn flush_generic_parts(
    text: Seq<char>,
    generic_stack: Option<Range<usize>>,
    line: Seq<(SyntaxType, TextNode)>,
    semantic: SyntaxSemantic,
    ch: char,
) -> (Option<Range<usize>>, Seq<(SyntaxType, TextNode)>, SyntaxSemantic) {
    match generic_stack {
        None => (generic_stack, line, semantic),
        Some(wp) => {
            if trim(chars_in(text, wp)).len() == 0 {
                (generic_stack, line, semantic)
            } else {
                (None, line.push((word_kind(text, wp, semantic, ch), TextNode::Range(wp))), SyntaxSemantic::Unknown)
            }
        },
    }
}

pub open spec fn flush_generic(text: Seq<char>, s: ParseState, ch: char) -> ParseState {
    let parts = flush_generic_parts(text, s.generic_stack, s.line, s.last_semantic, ch);
    ParseState { generic_stack: parts.0, line: parts.1, last_semantic: parts.2, ..s }
}

/// Emits the pending run of whitespace, if that is what is pending: the
/// pending word and the line after `flush_spaces_stack`.
pub open spec fn flush_spaces_parts(
    text: Seq<char>,
    generic_stack: Option<Range<usize>>,
    line: Seq<(SyntaxType, TextNode)>,
    begining_of_line: bool,
    line_is_ending: bool,
) -> (Option<Range<usize>>, Seq<(SyntaxType, TextNode)>) {
    match generic_stack {
        None => (generic_stack, line),
        Some(wp) => {
            if trim(chars_in(text, wp)).len() == 0 {
                let block = if !line_is_ending && begining_of_line {
                    (SyntaxType::SpaceMark, TextNode::LineOfChars { len: (wp.end - wp.start) as usize, char: '·' })
                } else {
                    (SyntaxType::Unknown, TextNode::Range(wp))
                };
                (None, line.push(block))
            } else {
                (generic_stack, line)
            }
        },
    }
}

pub open spec fn flush_spaces(text: Seq<char>, s: ParseState, line_is_ending: bool) -> ParseState {
    let parts = flush_spaces_parts(text, s.generic_stack, s.line, s.begining_of_line, line_is_ending);
    ParseState { generic_stack: parts.0, line: parts.1, ..s }
}

pub open spec fn ends_comment(text: Seq<char>, start: usize, i: int) -> bool {
    let comment = text.subrange(start as int, i + 1);
    comment.len() >= 2 && comment[comment.len() - 2] == '*' && comment[comment.len() - 1] == '/'
}

/// What the character `text[i]` does, before the end of the line is handled.
pub open spec fn read_char(text: Seq<char>, s: ParseState, i: int) -> ParseState {
    let ch = text[i];
    if s.tracking_string && ch == '"' {
        let s1 = flush_generic(text, s, ch);
        let st = match s1.string_stack {
            Some(r) => r,
            None => range(0, 0),
        };
        ParseState {
            string_stack: None,
            line: s1.line.push((SyntaxType::String, TextNode::Range(range(st.start, (st.end + 1) as usize)))),
            tracking_string: false,
            ..s1
        }
    } else if s.tracking_comment == CommentTracking::Off && ch == '"' {
        ParseState { string_stack: Some(range(i as usize, (i + 1) as usize)), tracking_string: true, ..s }
    } else if s.tracking_comment != CommentTracking::Off {
        match s.comment_stack {
            Some(ct) => {
                if ch == '/' && ends_comment(text, ct.start, i) {
                    ParseState {
                        generic_stack: None,
                        line: s.line.push((SyntaxType::Comment, TextNode::Range(range(ct.start, (i + 1) as usize)))),
                        comment_stack: None,
                        tracking_comment: CommentTracking::Off,
                        ..s
                    }
                } else {
                    ParseState { comment_stack: Some(range(ct.start, (i + 1) as usize)), ..s }
                }
            },
            None => ParseState { comment_stack: Some(range(i as usize, (i + 1) as usize)), ..s },
        }
    } else if s.tracking_string {
        ParseState { string_stack: pushed_stack(s.string_stack, i as usize), ..s }
    } else if is_special_character(ch) {
        let s1 = flush_generic(text, s, ch);
        ParseState {
            last_semantic: if ch == '.' { SyntaxSemantic::PropertyAccess } else { s1.last_semantic },
            line: s1.line.push((SyntaxType::Punctuation, TextNode::Range(range(i as usize, (i + 1) as usize)))),
            ..s1
        }
    } else if is_special_character_2(ch) {
        let s1 = flush_generic(text, s, ch);
        ParseState {
            line: s1.line.push((SyntaxType::Punctuation2, TextNode::Range(range(i as usize, (i + 1) as usize)))),
            ..s1
        }
    } else {
        // Start tracking a comment when the pending word is a single `/`.
        let s1 = if s.tracking_comment == CommentTracking::Off && (ch == '*' || ch == '/') {
            match s.generic_stack {
                Some(us) => {
                    if chars_in(text, us) == seq!['/'] {
                        ParseState {
                            comment_stack: pushed_stack(Some(us), i as usize),
                            generic_stack: None,
                            tracking_comment: if ch == '*' { CommentTracking::MultiLine } else { CommentTracking::OneLine },
                            ..s
                        }
                    } else {
                        s
                    }
                },
                None => s,
            }
        } else {
            s
        };
        let s2 = if is_whitespace(ch) { flush_generic(text, s1, ch) } else { s1 };
        ParseState { generic_stack: pushed_stack(s2.generic_stack, i as usize), ..s2 }
    }
}

/// What the end of a line (a `\n`, or the last character) does.
pub open spec fn end_line(text: Seq<char>, s: ParseState, ch: char, is_last: bool) -> ParseState {
    let s1 = if s.tracking_comment != CommentTracking::Off {
        let line = match s.comment_stack {
            Some(ct) => s.line.push((SyntaxType::Comment, TextNode::Range(ct))),
            None => s.line,
        };
        ParseState {
            line,
            comment_stack: None,
            tracking_comment: if s.tracking_comment == CommentTracking::OneLine { CommentTracking::Off } else { s.tracking_comment },
            ..s
        }
    } else {
        s
    };
    let s2 = flush_spaces(text, flush_generic(text, s1, ch), true);
    let line = match s2.string_stack {
        Some(st) => s2.line.push((SyntaxType::String, TextNode::Range(st))),
        None => s2.line,
    };
    let blocks = s2.blocks.push(line);
    ParseState {
        string_stack: None,
        line: Seq::empty(),
        blocks: if ch == '\n' && is_last { blocks.push(Seq::empty()) } else { blocks },
        begining_of_line: true,
        ..s2
    }
}

/// What the character `text[i]` does.
pub open spec fn parse_step(text: Seq<char>, s: ParseState, i: int) -> ParseState {
    let ch = text[i];
    let is_last = i == text.len() - 1;
    if ch == '\r' {
        s
    } else {
        let s1 = if !is_whitespace(ch) {
            ParseState { begining_of_line: false, ..flush_spaces(text, s, is_last) }
        } else {
            s
        };
        let s2 = read_char(text, s1, i);
        if ch == '\n' || is_last {
            end_line(text, s2, ch, is_last)
        } else {
            s2
        }
    }
}

/// The state after the first `n` characters.
pub open spec fn parse_run(text: Seq<char>, n: nat) -> ParseState
    decreases n,
{
    if n == 0 {
        initial_state()
    } else {
        parse_step(text, parse_run(text, (n - 1) as nat), n - 1)
    }
}

/// The lines of a large text: one `Unknown` block per line of the rope.
pub open spec fn large_file_lines(text: Seq<char>) -> Seq<Seq<(SyntaxType, TextNode)>> {
    Seq::new(
        rope_line_count(text) as nat,
        |n: int|
            seq![(SyntaxType::Unknown, TextNode::Range(range(
                rope_line_start(text, n as usize),
                (rope_line_start(text, n as usize) + rope_line_len(text, n as usize)) as usize,
            )))],
    )
}

/// The highlighted lines of a text.
pub open spec fn parsed_lines(text: Seq<char>) -> Seq<Seq<(SyntaxType, TextNode)>> {
    if text.len() >= LARGE_FILE {
        large_file_lines(text)
    } else {
        parse_run(text, text.len()).blocks
    }
}

// ---------------------------------------------------------------------------
// Character and word helpers
// ---------------------------------------------------------------------------

/// `char::is_whitespace`, written out over the `White_Space` code points.
pub fn char_is_whitespace(c: char) -> (ws: bool)
    ensures
        ws == is_whitespace(c),
{
    let u = c as u32;
    (0x9 <= u && u <= 0xD) || u == 0x20 || u == 0x85 || u == 0xA0 || u == 0x1680 || (0x2000 <= u
        && u <= 0x200A) || u == 0x2028 || u == 0x2029 || u == 0x202F || u == 0x205F || u == 0x3000
}

fn is_special_char(c: char) -> (special: bool)
    ensures
        special == is_special_character(c),
{
    c == '.' || c == '=' || c == ';' || c == ':' || c == '\'' || c == ',' || c == '#' || c == '&'
        || c == '-' || c == '+' || c == '^' || c == '\\'
}

fn is_special_char_2(c: char) -> (special: bool)
    ensures
        special == is_special_character_2(c),
{
    c == '{' || c == '}' || c == '(' || c == ')' || c == '>' || c == '<' || c == '[' || c == ']'
}

/// The characters `start..end` of the rope.
fn read_chars(rope: &Rope, start: usize, end: usize) -> (chars: Vec<char>)
    requires
        start <= end <= rope_chars(*rope).len(),
    ensures
        chars@ == chars_in(rope_chars(*rope), range(start, end)),
{
    let ghost text = rope_chars(*rope);
    let mut chars: Vec<char> = Vec::new();
    let mut k = start;
    while k < end
        invariant
            start <= k <= end <= text.len(),
            text == rope_chars(*rope),
            chars@ == text.subrange(start as int, k as int),
        decreases end - k,
    {
        chars.push(rope_char(rope, k));
        k = k + 1;
        assert(chars@ =~= text.subrange(start as int, k as int));
    }
    chars
}

fn chars_equal(a: &Vec<char>, b: &Vec<char>) -> (eq: bool)
    ensures
        eq == (a@ == b@),
{
    if a.len() != b.len() {
        return false;
    }
    let mut k: usize = 0;
    while k < a.len()
        invariant
            a.len() == b.len(),
            k <= a.len(),
            forall|j: int| 0 <= j < k ==> a@[j] == b@[j],
        decreases a.len() - k,
    {
        if a[k] != b[k] {
            return false;
        }
        k = k + 1;
    }
    assert(a@ =~= b@);
    true
}

fn copy_range(v: &Vec<char>, start: usize, end: usize) -> (out: Vec<char>)
    requires
        start <= end <= v.len(),
    ensures
        out@ == v@.subrange(start as int, end as int),
{
    let mut out: Vec<char> = Vec::new();
    let mut k = start;
    while k < end
        invariant
            start <= k <= end <= v.len(),
            out@ == v@.subrange(start as int, k as int),
        decreases end - k,
    {
        out.push(v[k]);
        k = k + 1;
        assert(out@ =~= v@.subrange(start as int, k as int));
    }
    out
}

/// The bounds of the text that `str::trim` leaves.
pub(crate) fn trim_bounds(word: &Vec<char>) -> (bounds: (usize, usize))
    ensures
        bounds.0 <= bounds.1 <= word.len(),
        word@.subrange(bounds.0 as int, bounds.1 as int) == trim(word@),
{
    let len = word.len();
    let mut a: usize = 0;
    assert(word@.subrange(0, len as int) =~= word@);
    while a < len && char_is_whitespace(word[a])
        invariant
            a <= len == word.len(),
            trim_start(word@) == trim_start(word@.subrange(a as int, len as int)),
        decreases len - a,
    {
        let ghost rest = word@.subrange(a as int, len as int);
        assert(rest.drop_first() =~= word@.subrange(a + 1, len as int));
        a = a + 1;
    }
    if a == len {
        assert(word@.subrange(a as int, len as int) =~= Seq::<char>::empty());
        return (a, a);
    }
    assert(trim_start(word@) == word@.subrange(a as int, len as int));
    let mut b: usize = len;
    while b > a && char_is_whitespace(word[b - 1])
        invariant
            a < len == word.len(),
            a < b <= len,
            !is_whitespace(word@[a as int]),
            trim_end(word@.subrange(a as int, len as int)) == trim_end(word@.subrange(a as int, b as int)),
        decreases b - a,
    {
        let ghost part = word@.subrange(a as int, b as int);
        assert(part.drop_last() =~= word@.subrange(a as int, b - 1));
        b = b - 1;
    }
    (a, b)
}

fn generic_keyword_list() -> (list: Vec<Vec<char>>)
    ensures
        list@.map_values(|w: Vec<char>| w@) == generic_keywords(),
{
    let list = vec![
        vec!['m', 'o', 'd'], vec!['u', 's', 'e'], vec!['i', 'm', 'p', 'l'], vec!['i', 'f'],
        vec!['l', 'e', 't'], vec!['f', 'n'], vec!['s', 't', 'r', 'u', 'c', 't'],
        vec!['e', 'n', 'u', 'm'], vec!['c', 'o', 'n', 's', 't'], vec!['p', 'u', 'b'],
        vec!['c', 'r', 'a', 't', 'e'], vec!['e', 'l', 's', 'e'], vec!['m', 'u', 't'],
        vec!['f', 'o', 'r'], vec!['i', '8'], vec!['u', '8'], vec!['i', '1', '6'],
        vec!['u', '1', '6'], vec!['i', '3', '2'], vec!['u', '3', '2'], vec!['f', '3', '2'],
        vec!['i', '6', '4'], vec!['u', '6', '4'], vec!['f', '6', '4'], vec!['i', '1', '2', '8'],
        vec!['u', '1', '2', '8'], vec!['u', 's', 'i', 'z', 'e'], vec!['i', 's', 'i', 'z', 'e'],
        vec!['m', 'o', 'v', 'e'], vec!['a', 's', 'y', 'n', 'c'], vec!['i', 'n'],
        vec!['o', 'f'], vec!['d', 'y', 'n'], vec!['t', 'y', 'p', 'e'],
        vec!['m', 'a', 't', 'c', 'h'],
    ];
    assert(list@.map_values(|w: Vec<char>| w@) =~= generic_keywords());
    list
}

fn special_keyword_list() -> (list: Vec<Vec<char>>)
    ensures
        list@.map_values(|w: Vec<char>| w@) == special_keywords(),
{
    let list = vec![vec!['s', 'e', 'l', 'f'], vec!['S', 'e', 'l', 'f'], vec!['f', 'a', 'l', 's', 'e'], vec!['t', 'r', 'u', 'e']];
    assert(list@.map_values(|w: Vec<char>| w@) =~= special_keywords());
    list
}

fn is_listed(word: &Vec<char>, list: &Vec<Vec<char>>) -> (found: bool)
    ensures
        found == list@.map_values(|w: Vec<char>| w@).contains(word@),
{
    let ghost views = list@.map_values(|w: Vec<char>| w@);
    let mut k: usize = 0;
    while k < list.len()
        invariant
            k <= list.len(),
            views == list@.map_values(|w: Vec<char>| w@),
            forall|j: int| 0 <= j < k ==> views[j] != word@,
        decreases list.len() - k,
    {
        if chars_equal(&list[k], word) {
            assert(views[k as int] == word@);
            return true;
        }
        k = k + 1;
    }
    false
}

// ---------------------------------------------------------------------------
// The walk
// ---------------------------------------------------------------------------

/// Extends the range on the stack up to `idx`, or starts one there.
pub fn push_to_stack(stack: &mut Option<Range<usize>>, idx: usize)
    requires
        idx < usize::MAX,
    ensures
        *final(stack) == pushed_stack(*old(stack), idx),
{
    match stack {
        Some(r) => {
            r.end = idx + 1;
        },
        None => {
            *stack = Some(idx..idx + 1);
        },
    }
}

pub open spec fn range_within(r: Range<usize>, len: int) -> bool {
    r.start <= r.end <= len
}

pub open spec fn stack_within(stack: Option<Range<usize>>, len: int) -> bool {
    match stack {
        Some(r) => range_within(r, len),
        None => true,
    }
}

fn flush_generic_stack(
    rope: &Rope,
    generic_stack: &mut Option<Range<usize>>,
    syntax_blocks: &mut SyntaxLine,
    last_semantic: &mut SyntaxSemantic,
    ch: char,
)
    requires
        rope_chars(*rope).len() < LARGE_FILE,
        stack_within(*old(generic_stack), rope_chars(*rope).len() as int),
    ensures
        (*final(generic_stack), line_items(*final(syntax_blocks)), *final(last_semantic))
            == flush_generic_parts(
            rope_chars(*rope),
            *old(generic_stack),
            line_items(*old(syntax_blocks)),
            *old(last_semantic),
            ch,
        ),
{
    let ghost text = rope_chars(*rope);
    let (start, end) = match &*generic_stack {
        Some(r) => (r.start, r.end),
        None => {
            return ;
        },
    };
    let word = read_chars(rope, start, end);
    let (a, b) = trim_bounds(&word);
    if a == b {
        return ;
    }
    *generic_stack = None;
    let len = rope_len_chars(rope);
    let next_is_colon = end + 1 < len && rope_char(rope, end + 1) == ':';
    let trimmed = copy_range(&word, a, b);
    let kind = if ch == ':' && next_is_colon {
        SyntaxType::Module
    } else if is_listed(&trimmed, &generic_keyword_list()) {
        SyntaxType::Keyword
    } else if is_listed(&trimmed, &special_keyword_list()) || chars_equal(
        &chars_to_uppercase(&word),
        &word,
    ) {
        SyntaxType::SpecialKeyword
    } else {
        syntax_type_of(*last_semantic)
    };
    assert(kind == word_kind(text, range(start, end), *old(last_semantic), ch));
    syntax_blocks.push((kind, TextNode::Range(start..end)));
    *last_semantic = SyntaxSemantic::Unknown;
}

fn flush_spaces_stack(
    rope: &Rope,
    generic_stack: &mut Option<Range<usize>>,
    syntax_blocks: &mut SyntaxLine,
    begining_of_line: bool,
    line_is_ending: bool,
)
    requires
        stack_within(*old(generic_stack), rope_chars(*rope).len() as int),
    ensures
        (*final(generic_stack), line_items(*final(syntax_blocks))) == flush_spaces_parts(
            rope_chars(*rope),
            *old(generic_stack),
            line_items(*old(syntax_blocks)),
            begining_of_line,
            line_is_ending,
        ),
{
    let (start, end) = match &*generic_stack {
        Some(r) => (r.start, r.end),
        None => {
            return ;
        },
    };
    let word = read_chars(rope, start, end);
    let (a, b) = trim_bounds(&word);
    if a == b {
        *generic_stack = None;
        if !line_is_ending && begining_of_line {
            syntax_blocks.push((SyntaxType::SpaceMark, TextNode::LineOfChars { len: end - start, char: '·' }));
        } else {
            syntax_blocks.push((SyntaxType::Unknown, TextNode::Range(start..end)));
        }
    }
}

pub open spec fn nodes_within(items: Seq<(SyntaxType, TextNode)>, len: int) -> bool {
    forall|k: int|
        0 <= k < items.len() ==> match #[trigger] items[k].1 {
            TextNode::Range(r) => range_within(r, len),
            TextNode::LineOfChars { .. } => true,
        }
}

pub open spec fn lines_within(lines: Seq<Seq<(SyntaxType, TextNode)>>, len: int) -> bool {
    forall|k: int| 0 <= k < lines.len() ==> nodes_within(#[trigger] lines[k], len)
}

pub open spec fn state_within(s: ParseState, n: int) -> bool {
    &&& stack_within(s.generic_stack, n)
    &&& stack_within(s.comment_stack, n)
    &&& stack_within(s.string_stack, n)
    &&& nodes_within(s.line, n)
    &&& lines_within(s.blocks, n)
}

/// The number of `\n` characters of a text.
pub open spec fn newline_count(s: Seq<char>) -> nat
    decreases s.len(),
{
    if s.len() == 0 {
        0
    } else {
        newline_count(s.drop_last()) + if s.last() == '\n' { 1nat } else { 0nat }
    }
}

/// How many lines the character `text[i]` completes.
pub open spec fn lines_completed_at(text: Seq<char>, i: int) -> nat {
    let ch = text[i];
    let is_last = i == text.len() - 1;
    if ch == '\r' {
        0
    } else if ch == '\n' && is_last {
        2
    } else if ch == '\n' || is_last {
        1
    } else {
        0
    }
}

proof fn lemma_nodes_push(items: Seq<(SyntaxType, TextNode)>, item: (SyntaxType, TextNode), len: int)
    requires
        nodes_within(items, len),
        match item.1 {
            TextNode::Range(r) => range_within(r, len),
            TextNode::LineOfChars { .. } => true,
        },
    ensures
        nodes_within(items.push(item), len),
{
    assert forall|k: int| 0 <= k < items.push(item).len() implies match #[trigger] items.push(item)[k].1 {
        TextNode::Range(r) => range_within(r, len),
        TextNode::LineOfChars { .. } => true,
    } by {
        if k < items.len() {
            assert(items.push(item)[k] == items[k]);
        }
    }
}

proof fn lemma_nodes_grow(items: Seq<(SyntaxType, TextNode)>, len: int, len2: int)
    requires
        nodes_within(items, len),
        len <= len2,
    ensures
        nodes_within(items, len2),
{
    assert forall|k: int| 0 <= k < items.len() implies match #[trigger] items[k].1 {
        TextNode::Range(r) => range_within(r, len2),
        TextNode::LineOfChars { .. } => true,
    } by {
        let n = items[k].1;
        match n {
            TextNode::Range(r) => {},
            TextNode::LineOfChars { .. } => {},
        }
    }
}

proof fn lemma_lines_grow(lines: Seq<Seq<(SyntaxType, TextNode)>>, len: int, len2: int)
    requires
        lines_within(lines, len),
        len <= len2,
    ensures
        lines_within(lines, len2),
{
    assert forall|k: int| 0 <= k < lines.len() implies nodes_within(#[trigger] lines[k], len2) by {
        lemma_nodes_grow(lines[k], len, len2);
    }
}

proof fn lemma_lines_push(lines: Seq<Seq<(SyntaxType, TextNode)>>, line: Seq<(SyntaxType, TextNode)>, len: int)
    requires
        lines_within(lines, len),
        nodes_within(line, len),
    ensures
        lines_within(lines.push(line), len),
{
    assert forall|k: int| 0 <= k < lines.push(line).len() implies nodes_within(#[trigger] lines.push(line)[k], len) by {
        if k < lines.len() {
            assert(lines.push(line)[k] == lines[k]);
        }
    }
}

proof fn lemma_flush_generic_within(text: Seq<char>, s: ParseState, ch: char, n: int)
    requires
        state_within(s, n),
    ensures
        state_within(flush_generic(text, s, ch), n),
        flush_generic(text, s, ch).blocks == s.blocks,
{
    match s.generic_stack {
        Some(wp) => {
            if trim(chars_in(text, wp)).len() != 0 {
                lemma_nodes_push(s.line, (word_kind(text, wp, s.last_semantic, ch), TextNode::Range(wp)), n);
            }
        },
        None => {},
    }
}

proof fn lemma_flush_spaces_within(text: Seq<char>, s: ParseState, ending: bool, n: int)
    requires
        state_within(s, n),
    ensures
        state_within(flush_spaces(text, s, ending), n),
        flush_spaces(text, s, ending).blocks == s.blocks,
{
    match s.generic_stack {
        Some(wp) => {
            if trim(chars_in(text, wp)).len() == 0 {
                if !ending && s.begining_of_line {
                    lemma_nodes_push(s.line, (SyntaxType::SpaceMark, TextNode::LineOfChars { len: (wp.end - wp.start) as usize, char: '·' }), n);
                } else {
                    lemma_nodes_push(s.line, (SyntaxType::Unknown, TextNode::Range(wp)), n);
                }
            }
        },
        None => {},
    }
}

proof fn lemma_state_grow(s: ParseState, n: int, n2: int)
    requires
        state_within(s, n),
        n <= n2,
    ensures
        state_within(s, n2),
{
    lemma_nodes_grow(s.line, n, n2);
    lemma_lines_grow(s.blocks, n, n2);
}

proof fn lemma_read_char_within(text: Seq<char>, s: ParseState, i: int)
    requires
        0 <= i < text.len(),
        i + 1 < usize::MAX,
        state_within(s, i),
    ensures
        state_within(read_char(text, s, i), i + 1),
        read_char(text, s, i).blocks == s.blocks,
{
    let ch = text[i];
    lemma_state_grow(s, i, i + 1);
    let n = i + 1;
    if s.tracking_string && ch == '"' {
        lemma_flush_generic_within(text, s, ch, n);
        let s1 = flush_generic(text, s, ch);
        let st = match s1.string_stack {
            Some(r) => r,
            None => range(0, 0),
        };
        lemma_nodes_push(s1.line, (SyntaxType::String, TextNode::Range(range(st.start, (st.end + 1) as usize))), n);
    } else if s.tracking_comment == CommentTracking::Off && ch == '"' {
    } else if s.tracking_comment != CommentTracking::Off {
        match s.comment_stack {
            Some(ct) => {
                if ch == '/' && ends_comment(text, ct.start, i) {
                    lemma_nodes_push(s.line, (SyntaxType::Comment, TextNode::Range(range(ct.start, (i + 1) as usize))), n);
                }
            },
            None => {},
        }
    } else if s.tracking_string {
    } else if is_special_character(ch) {
        lemma_flush_generic_within(text, s, ch, n);
        let s1 = flush_generic(text, s, ch);
        lemma_nodes_push(s1.line, (SyntaxType::Punctuation, TextNode::Range(range(i as usize, (i + 1) as usize))), n);
    } else if is_special_character_2(ch) {
        lemma_flush_generic_within(text, s, ch, n);
        let s1 = flush_generic(text, s, ch);
        lemma_nodes_push(s1.line, (SyntaxType::Punctuation2, TextNode::Range(range(i as usize, (i + 1) as usize))), n);
    } else {
        let s1 = if s.tracking_comment == CommentTracking::Off && (ch == '*' || ch == '/') {
            match s.generic_stack {
                Some(us) => {
                    if chars_in(text, us) == seq!['/'] {
                        ParseState {
                            comment_stack: pushed_stack(Some(us), i as usize),
                            generic_stack: None,
                            tracking_comment: if ch == '*' { CommentTracking::MultiLine } else { CommentTracking::OneLine },
                            ..s
                        }
                    } else {
                        s
                    }
                },
                None => s,
            }
        } else {
            s
        };
        assert(state_within(s1, n));
        if is_whitespace(ch) {
            lemma_flush_generic_within(text, s1, ch, n);
        }
    }
}

proof fn lemma_end_line_within(text: Seq<char>, s: ParseState, ch: char, is_last: bool, n: int)
    requires
        state_within(s, n),
    ensures
        state_within(end_line(text, s, ch, is_last), n),
        end_line(text, s, ch, is_last).blocks.len() == s.blocks.len() + if ch == '\n' && is_last { 2nat } else { 1nat },
{
    let s1 = if s.tracking_comment != CommentTracking::Off {
        let line = match s.comment_stack {
            Some(ct) => s.line.push((SyntaxType::Comment, TextNode::Range(ct))),
            None => s.line,
        };
        match s.comment_stack {
            Some(ct) => {
                lemma_nodes_push(s.line, (SyntaxType::Comment, TextNode::Range(ct)), n);
            },
            None => {},
        }
        ParseState {
            line,
            comment_stack: None,
            tracking_comment: if s.tracking_comment == CommentTracking::OneLine { CommentTracking::Off } else { s.tracking_comment },
            ..s
        }
    } else {
        s
    };
    assert(state_within(s1, n));
    lemma_flush_generic_within(text, s1, ch, n);
    lemma_flush_spaces_within(text, flush_generic(text, s1, ch), true, n);
    let s2 = flush_spaces(text, flush_generic(text, s1, ch), true);
    let line = match s2.string_stack {
        Some(st) => s2.line.push((SyntaxType::String, TextNode::Range(st))),
        None => s2.line,
    };
    match s2.string_stack {
        Some(st) => {
            lemma_nodes_push(s2.line, (SyntaxType::String, TextNode::Range(st)), n);
        },
        None => {},
    }
    lemma_lines_push(s2.blocks, line, n);
    if ch == '\n' && is_last {
        lemma_lines_push(s2.blocks.push(line), Seq::empty(), n);
    }
}

proof fn lemma_step_within(text: Seq<char>, s: ParseState, i: int)
    requires
        0 <= i < text.len(),
        text.len() < LARGE_FILE,
        state_within(s, i),
    ensures
        state_within(parse_step(text, s, i), i + 1),
        parse_step(text, s, i).blocks.len() == s.blocks.len() + lines_completed_at(text, i),
{
    let ch = text[i];
    let is_last = i == text.len() - 1;
    if ch == '\r' {
        lemma_state_grow(s, i, i + 1);
    } else {
        let s1 = if !is_whitespace(ch) {
            lemma_flush_spaces_within(text, s, is_last, i);
            ParseState { begining_of_line: false, ..flush_spaces(text, s, is_last) }
        } else {
            s
        };
        lemma_read_char_within(text, s1, i);
        let s2 = read_char(text, s1, i);
        if ch == '\n' || is_last {
            lemma_end_line_within(text, s2, ch, is_last, i + 1);
        }
    }
}

proof fn lemma_newline_count_take(text: Seq<char>, n: int)
    requires
        0 <= n < text.len(),
    ensures
        newline_count(text.take(n + 1)) == newline_count(text.take(n)) + if text[n] == '\n' { 1nat } else { 0nat },
{
    assert(text.take(n + 1).drop_last() =~= text.take(n));
}

proof fn lemma_newline_count_bound(s: Seq<char>)
    ensures
        newline_count(s) <= s.len(),
    decreases s.len(),
{
    if s.len() > 0 {
        lemma_newline_count_bound(s.drop_last());
    }
}

/// The walk keeps every range inside the part of the text read so far, and
/// completes one line per `\n`, plus the last line.
proof fn lemma_parse_run(text: Seq<char>, n: nat)
    requires
        n <= text.len() < LARGE_FILE,
    ensures
        state_within(parse_run(text, n), n as int),
        parse_run(text, n).blocks.len() == newline_count(text.take(n as int)) + if n == text.len() && n > 0
            && text[n - 1] != '\r' {
            1nat
        } else {
            0nat
        },
    decreases n,
{
    if n == 0 {
        assert(text.take(0) =~= Seq::<char>::empty());
    } else {
        let m = (n - 1) as nat;
        lemma_parse_run(text, m);
        lemma_step_within(text, parse_run(text, m), m as int);
        lemma_newline_count_take(text, m as int);
    }
}

/// The state of the walk that `parse` keeps between two characters.
struct Walker {
    tracking_comment: CommentTracking,
    comment_stack: Option<Range<usize>>,
    tracking_string: bool,
    string_stack: Option<Range<usize>>,
    generic_stack: Option<Range<usize>>,
    last_semantic: SyntaxSemantic,
    line: SyntaxLine,
    begining_of_line: bool,
}

impl Walker {
    spec fn model(&self, blocks: Seq<Seq<(SyntaxType, TextNode)>>) -> ParseState {
        ParseState {
            tracking_comment: self.tracking_comment,
            comment_stack: self.comment_stack,
            tracking_string: self.tracking_string,
            string_stack: self.string_stack,
            generic_stack: self.generic_stack,
            last_semantic: self.last_semantic,
            line: line_items(self.line),
            begining_of_line: self.begining_of_line,
            blocks,
        }
    }

    fn read_char(&mut self, rope: &Rope, i: usize, ch: char, Ghost(blocks): Ghost<Seq<Seq<(SyntaxType, TextNode)>>>)
        requires
            i < rope_chars(*rope).len() < LARGE_FILE,
            ch == rope_chars(*rope)[i as int],
            state_within(old(self).model(blocks), i as int),
        ensures
            final(self).model(blocks) == read_char(rope_chars(*rope), old(self).model(blocks), i as int),
    {
        let ghost text = rope_chars(*rope);
        if self.tracking_string && ch == '"' {
            flush_generic_stack(rope, &mut self.generic_stack, &mut self.line, &mut self.last_semantic, ch);
            let (start, end) = match &self.string_stack {
                Some(r) => (r.start, r.end),
                None => (0, 0),
            };
            self.string_stack = None;
            self.line.push((SyntaxType::String, TextNode::Range(start..end + 1)));
            self.tracking_string = false;
        } else if self.tracking_comment == CommentTracking::Off && ch == '"' {
            self.string_stack = Some(i..i + 1);
            self.tracking_string = true;
        } else if self.tracking_comment != CommentTracking::Off {
            let current = match &self.comment_stack {
                Some(ct) => Some(ct.start),
                None => None,
            };
            match current {
                Some(start) => {
                    // Stop a multi line comment at `*/`.
                    if ch == '/' && start < i && rope_char(rope, i - 1) == '*' {
                        assert(ends_comment(text, start, i as int));
                        self.generic_stack = None;
                        self.line.push((SyntaxType::Comment, TextNode::Range(start..i + 1)));
                        self.comment_stack = None;
                        self.tracking_comment = CommentTracking::Off;
                    } else {
                        assert(!(ch == '/' && ends_comment(text, start, i as int)));
                        self.comment_stack = Some(start..i + 1);
                    }
                },
                None => {
                    self.comment_stack = Some(i..i + 1);
                },
            }
        } else if self.tracking_string {
            push_to_stack(&mut self.string_stack, i);
        } else if is_special_char(ch) {
            flush_generic_stack(rope, &mut self.generic_stack, &mut self.line, &mut self.last_semantic, ch);
            if ch == '.' {
                self.last_semantic = SyntaxSemantic::PropertyAccess;
            }
            self.line.push((SyntaxType::Punctuation, TextNode::Range(i..i + 1)));
        } else if is_special_char_2(ch) {
            flush_generic_stack(rope, &mut self.generic_stack, &mut self.line, &mut self.last_semantic, ch);
            self.line.push((SyntaxType::Punctuation2, TextNode::Range(i..i + 1)));
        } else {
            // Start tracking a comment (both one line and multi line).
            if self.tracking_comment == CommentTracking::Off && (ch == '*' || ch == '/') {
                let slash_start = match &self.generic_stack {
                    Some(us) => {
                        if us.end - us.start == 1 && rope_char(rope, us.start) == '/' {
                            Some(us.start)
                        } else {
                            None
                        }
                    },
                    None => None,
                };
                proof {
                    let gs = self.generic_stack;
                    match gs {
                        Some(us) => {
                            if us.end - us.start == 1 && text[us.start as int] == '/' {
                                assert(chars_in(text, us) =~= seq!['/']);
                            } else if chars_in(text, us) == seq!['/'] {
                                assert(chars_in(text, us)[0] == text[us.start as int]);
                            }
                        },
                        None => {},
                    }
                }
                match slash_start {
                    Some(start) => {
                        self.generic_stack = None;
                        self.comment_stack = Some(start..i + 1);
                        if ch == '*' {
                            self.tracking_comment = CommentTracking::MultiLine;
                        } else {
                            self.tracking_comment = CommentTracking::OneLine;
                        }
                    },
                    None => {},
                }
            }
            // Flush the pending word before a whitespace.
            if char_is_whitespace(ch) {
                flush_generic_stack(rope, &mut self.generic_stack, &mut self.line, &mut self.last_semantic, ch);
            }
            push_to_stack(&mut self.generic_stack, i);
        }
    }

    fn end_line(&mut self, rope: &Rope, syntax_blocks: &mut SyntaxBlocks, ch: char, is_last: bool)
        requires
            rope_chars(*rope).len() < LARGE_FILE,
            old(syntax_blocks).wf(),
            old(syntax_blocks)@.len() + 2 < usize::MAX,
            state_within(old(self).model(old(syntax_blocks)@), rope_chars(*rope).len() as int),
        ensures
            final(syntax_blocks).wf(),
            final(self).model(final(syntax_blocks)@) == end_line(
                rope_chars(*rope),
                old(self).model(old(syntax_blocks)@),
                ch,
                is_last,
            ),
    {
        // Flush one line and multi line comments.
        if self.tracking_comment != CommentTracking::Off {
            let pending = match &self.comment_stack {
                Some(ct) => Some((ct.start, ct.end)),
                None => None,
            };
            match pending {
                Some((start, end)) => {
                    self.line.push((SyntaxType::Comment, TextNode::Range(start..end)));
                },
                None => {},
            }
            self.comment_stack = None;
            // Stop tracking one line comments at the end of the line.
            if self.tracking_comment == CommentTracking::OneLine {
                self.tracking_comment = CommentTracking::Off;
            }
        }
        flush_generic_stack(rope, &mut self.generic_stack, &mut self.line, &mut self.last_semantic, ch);
        flush_spaces_stack(rope, &mut self.generic_stack, &mut self.line, self.begining_of_line, true);
        let pending = match &self.string_stack {
            Some(st) => Some((st.start, st.end)),
            None => None,
        };
        match pending {
            Some((start, end)) => {
                self.line.push((SyntaxType::String, TextNode::Range(start..end)));
            },
            None => {},
        }
        self.string_stack = None;
        let mut line = SyntaxLine::new();
        std::mem::swap(&mut line, &mut self.line);
        syntax_blocks.push_line(line);
        // Leave an empty line at the end.
        if ch == '\n' && is_last {
            syntax_blocks.push_line(SyntaxLine::new());
        }
        self.begining_of_line = true;
    }
}

/// Splits the text of `rope` into highlighted lines, in place of what
/// `syntax_blocks` held.
pub fn parse(rope: &Rope, syntax_blocks: &mut SyntaxBlocks)
    ensures
        final(syntax_blocks).wf(),
        final(syntax_blocks)@ == parsed_lines(rope_chars(*rope)),
        lines_within(final(syntax_blocks)@, rope_chars(*rope).len() as int),
{
    let ghost text = rope_chars(*rope);
    // Clear any blocks from before.
    syntax_blocks.clear();
    let len = rope_len_chars(rope);
    if len >= LARGE_FILE {
        let lines = rope_len_lines(rope);
        let mut n: usize = 0;
        while n < lines
            invariant
                n <= lines == rope_line_count(text),
                text == rope_chars(*rope),
                len == text.len() >= LARGE_FILE,
                syntax_blocks.wf(),
                syntax_blocks@ == large_file_lines(text).take(n as int),
                lines_within(syntax_blocks@, len as int),
            decreases lines - n,
        {
            let mut line_blocks = SyntaxLine::new();
            let start = rope_line_to_char(rope, n);
            let end = rope_line_len_chars(rope, n);
            line_blocks.push((SyntaxType::Unknown, TextNode::Range(start..start + end)));
            proof {
                lemma_nodes_push(Seq::empty(), (SyntaxType::Unknown, TextNode::Range(range(start, (start + end) as usize))), len as int);
                lemma_lines_push(syntax_blocks@, line_items(line_blocks), len as int);
            }
            syntax_blocks.push_line(line_blocks);
            n = n + 1;
            assert(syntax_blocks@ =~= large_file_lines(text).take(n as int));
        }
        assert(large_file_lines(text).take(lines as int) =~= large_file_lines(text));
        return ;
    }
    let mut walker = Walker {
        tracking_comment: CommentTracking::Off,
        comment_stack: None,
        tracking_string: false,
        string_stack: None,
        generic_stack: None,
        last_semantic: SyntaxSemantic::Unknown,
        line: SyntaxLine::new(),
        begining_of_line: true,
    };
    let mut i: usize = 0;
    while i < len
        invariant
            i <= len == text.len() < LARGE_FILE,
            text == rope_chars(*rope),
            syntax_blocks.wf(),
            walker.model(syntax_blocks@) == parse_run(text, i as nat),
        decreases len - i,
    {
        proof {
            lemma_parse_run(text, i as nat);
            lemma_newline_count_bound(text.take(i as int));
            lemma_step_within(text, parse_run(text, i as nat), i as int);
        }
        let ghost before = walker.model(syntax_blocks@);
        let ch = rope_char(rope, i);
        let is_last_character = len - 1 == i;
        // Ignore the return.
        if ch == '\r' {
            i = i + 1;
            continue;
        }
        // Flush the pending whitespace before anything else.
        if !char_is_whitespace(ch) {
            flush_spaces_stack(rope, &mut walker.generic_stack, &mut walker.line, walker.begining_of_line, is_last_character);
            walker.begining_of_line = false;
        }
        let ghost s1 = walker.model(syntax_blocks@);
        proof {
            lemma_flush_spaces_within(text, before, is_last_character, i as int);
        }
        walker.read_char(rope, i, ch, Ghost(syntax_blocks@));
        let ghost s2 = walker.model(syntax_blocks@);
        proof {
            lemma_read_char_within(text, s1, i as int);
            lemma_state_grow(s2, i + 1, len as int);
        }
        if ch == '\n' || is_last_character {
            walker.end_line(rope, syntax_blocks, ch, is_last_character);
        }
        i = i + 1;
    }
    proof {
        lemma_parse_run(text, len as nat);
    }
}

/// Law: the number of highlighted lines of a text that is not large is the
/// number of its `\n` characters, plus one for the last line unless the text
/// is empty or ends with `\r`.
pub proof fn law_line_count(text: Seq<char>)
    requires
        text.len() < LARGE_FILE,
    ensures
        parsed_lines(text).len() == newline_count(text) + if text.len() > 0 && text.last() != '\r' {
            1nat
        } else {
            0nat
        },
{
    lemma_parse_run(text, text.len());
    assert(text.take(text.len() as int) =~= text);
}

/// Law: every range of characters that the highlighter emits for a text that
/// is not large lies inside the text.
pub proof fn law_ranges_within(text: Seq<char>)
    requires
        text.len() < LARGE_FILE,
    ensures
        lines_within(parsed_lines(text), text.len() as int),
{
    lemma_parse_run(text, text.len());
}


/// How a node of the highlighter is classified: a keyword is a word of the
/// keyword list (spaces around it aside), a special keyword is one of the
/// special words or a word written in capitals, and a punctuation node is one
/// punctuation character of its group.
pub open spec fn node_classified(text: Seq<char>, item: (SyntaxType, TextNode)) -> bool {
    match item.0 {
        SyntaxType::Keyword => (item.1 matches TextNode::Range(r) && generic_keywords().contains(
            trim(chars_in(text, r)),
        )),
        SyntaxType::SpecialKeyword => (item.1 matches TextNode::Range(r) && (special_keywords().contains(
            trim(chars_in(text, r)),
        ) || is_upper_case(chars_in(text, r)))),
        SyntaxType::Punctuation => (item.1 matches TextNode::Range(r) && r.start < text.len() && r.end == r.start
            + 1 && is_special_character(text[r.start as int])),
        SyntaxType::Punctuation2 => (item.1 matches TextNode::Range(r) && r.start < text.len() && r.end == r.start
            + 1 && is_special_character_2(text[r.start as int])),
        _ => true,
    }
}

pub open spec fn nodes_classified(text: Seq<char>, items: Seq<(SyntaxType, TextNode)>) -> bool {
    forall|k: int| 0 <= k < items.len() ==> node_classified(text, #[trigger] items[k])
}

pub open spec fn lines_classified(text: Seq<char>, lines: Seq<Seq<(SyntaxType, TextNode)>>) -> bool {
    forall|k: int| 0 <= k < lines.len() ==> nodes_classified(text, #[trigger] lines[k])
}

pub open spec fn state_classified(text: Seq<char>, s: ParseState) -> bool {
    nodes_classified(text, s.line) && lines_classified(text, s.blocks)
}

proof fn lemma_classified_push(text: Seq<char>, items: Seq<(SyntaxType, TextNode)>, item: (SyntaxType, TextNode))
    requires
        nodes_classified(text, items),
        node_classified(text, item),
    ensures
        nodes_classified(text, items.push(item)),
{
    assert forall|k: int| 0 <= k < items.push(item).len() implies node_classified(text, #[trigger] items.push(item)[k]) by {
        if k < items.len() {
            assert(items.push(item)[k] == items[k]);
        }
    }
}

proof fn lemma_classified_lines_push(
    text: Seq<char>,
    lines: Seq<Seq<(SyntaxType, TextNode)>>,
    line: Seq<(SyntaxType, TextNode)>,
)
    requires
        lines_classified(text, lines),
        nodes_classified(text, line),
    ensures
        lines_classified(text, lines.push(line)),
{
    assert forall|k: int| 0 <= k < lines.push(line).len() implies nodes_classified(text, #[trigger] lines.push(line)[k]) by {
        if k < lines.len() {
            assert(lines.push(line)[k] == lines[k]);
        }
    }
}

proof fn lemma_flush_generic_classified(text: Seq<char>, s: ParseState, ch: char)
    requires
        state_classified(text, s),
    ensures
        state_classified(text, flush_generic(text, s, ch)),
{
    if let Some(wp) = s.generic_stack {
        if trim(chars_in(text, wp)).len() != 0 {
            lemma_classified_push(text, s.line, (word_kind(text, wp, s.last_semantic, ch), TextNode::Range(wp)));
        }
    }
}

proof fn lemma_flush_spaces_classified(text: Seq<char>, s: ParseState, ending: bool)
    requires
        state_classified(text, s),
    ensures
        state_classified(text, flush_spaces(text, s, ending)),
{
    if let Some(wp) = s.generic_stack {
        if trim(chars_in(text, wp)).len() == 0 {
            if !ending && s.begining_of_line {
                lemma_classified_push(text, s.line, (SyntaxType::SpaceMark, TextNode::LineOfChars { len: (wp.end - wp.start) as usize, char: '·' }));
            } else {
                lemma_classified_push(text, s.line, (SyntaxType::Unknown, TextNode::Range(wp)));
            }
        }
    }
}

proof fn lemma_read_char_classified(text: Seq<char>, s: ParseState, i: int)
    requires
        0 <= i < text.len(),
        i + 1 < usize::MAX,
        state_classified(text, s),
    ensures
        state_classified(text, read_char(text, s, i)),
{
    let ch = text[i];
    if s.tracking_string && ch == '"' {
        lemma_flush_generic_classified(text, s, ch);
        let s1 = flush_generic(text, s, ch);
        let st = match s1.string_stack {
            Some(r) => r,
            None => range(0, 0),
        };
        lemma_classified_push(text, s1.line, (SyntaxType::String, TextNode::Range(range(st.start, (st.end + 1) as usize))));
    } else if s.tracking_comment == CommentTracking::Off && ch == '"' {
    } else if s.tracking_comment != CommentTracking::Off {
        if let Some(ct) = s.comment_stack {
            if ch == '/' && ends_comment(text, ct.start, i) {
                lemma_classified_push(text, s.line, (SyntaxType::Comment, TextNode::Range(range(ct.start, (i + 1) as usize))));
            }
        }
    } else if s.tracking_string {
    } else if is_special_character(ch) {
        lemma_flush_generic_classified(text, s, ch);
        let s1 = flush_generic(text, s, ch);
        lemma_classified_push(text, s1.line, (SyntaxType::Punctuation, TextNode::Range(range(i as usize, (i + 1) as usize))));
    } else if is_special_character_2(ch) {
        lemma_flush_generic_classified(text, s, ch);
        let s1 = flush_generic(text, s, ch);
        lemma_classified_push(text, s1.line, (SyntaxType::Punctuation2, TextNode::Range(range(i as usize, (i + 1) as usize))));
    } else {
        let s1 = if s.tracking_comment == CommentTracking::Off && (ch == '*' || ch == '/') {
            match s.generic_stack {
                Some(us) => {
                    if chars_in(text, us) == seq!['/'] {
                        ParseState {
                            comment_stack: pushed_stack(Some(us), i as usize),
                            generic_stack: None,
                            tracking_comment: if ch == '*' { CommentTracking::MultiLine } else { CommentTracking::OneLine },
                            ..s
                        }
                    } else {
                        s
                    }
                },
                None => s,
            }
        } else {
            s
        };
        assert(state_classified(text, s1));
        if is_whitespace(ch) {
            lemma_flush_generic_classified(text, s1, ch);
        }
    }
}

proof fn lemma_end_line_classified(text: Seq<char>, s: ParseState, ch: char, is_last: bool)
    requires
        state_classified(text, s),
    ensures
        state_classified(text, end_line(text, s, ch, is_last)),
{
    let s1 = if s.tracking_comment != CommentTracking::Off {
        let line = match s.comment_stack {
            Some(ct) => s.line.push((SyntaxType::Comment, TextNode::Range(ct))),
            None => s.line,
        };
        if let Some(ct) = s.comment_stack {
            lemma_classified_push(text, s.line, (SyntaxType::Comment, TextNode::Range(ct)));
        }
        ParseState {
            line,
            comment_stack: None,
            tracking_comment: if s.tracking_comment == CommentTracking::OneLine { CommentTracking::Off } else { s.tracking_comment },
            ..s
        }
    } else {
        s
    };
    assert(state_classified(text, s1));
    lemma_flush_generic_classified(text, s1, ch);
    lemma_flush_spaces_classified(text, flush_generic(text, s1, ch), true);
    let s2 = flush_spaces(text, flush_generic(text, s1, ch), true);
    let line = match s2.string_stack {
        Some(st) => s2.line.push((SyntaxType::String, TextNode::Range(st))),
        None => s2.line,
    };
    if let Some(st) = s2.string_stack {
        lemma_classified_push(text, s2.line, (SyntaxType::String, TextNode::Range(st)));
    }
    lemma_classified_lines_push(text, s2.blocks, line);
    if ch == '\n' && is_last {
        lemma_classified_lines_push(text, s2.blocks.push(line), Seq::empty());
    }
    assert(nodes_classified(text, Seq::<(SyntaxType, TextNode)>::empty()));
}

proof fn lemma_step_classified(text: Seq<char>, s: ParseState, i: int)
    requires
        0 <= i < text.len(),
        text.len() < LARGE_FILE,
        state_classified(text, s),
    ensures
        state_classified(text, parse_step(text, s, i)),
{
    let ch = text[i];
    let is_last = i == text.len() - 1;
    if ch != '\r' {
        let s1 = if !is_whitespace(ch) {
            lemma_flush_spaces_classified(text, s, is_last);
            ParseState { begining_of_line: false, ..flush_spaces(text, s, is_last) }
        } else {
            s
        };
        lemma_read_char_classified(text, s1, i);
        let s2 = read_char(text, s1, i);
        if ch == '\n' || is_last {
            lemma_end_line_classified(text, s2, ch, is_last);
        }
    }
}

proof fn lemma_run_classified(text: Seq<char>, n: nat)
    requires
        n <= text.len() < LARGE_FILE,
    ensures
        state_classified(text, parse_run(text, n)),
    decreases n,
{
    if n == 0 {
        assert(nodes_classified(text, Seq::<(SyntaxType, TextNode)>::empty()));
    } else {
        let m = (n - 1) as nat;
        lemma_run_classified(text, m);
        lemma_step_classified(text, parse_run(text, m), m as int);
    }
}

/// Law: every keyword that the highlighter marks is a word of the keyword
/// list, every special keyword is a special word or a word in capitals, and
/// every punctuation mark is one character of its group.
pub proof fn law_tokens_classified(text: Seq<char>)
    ensures
        lines_classified(text, parsed_lines(text)),
{
    if text.len() >= LARGE_FILE {
        let lines = large_file_lines(text);
        assert forall|k: int| 0 <= k < lines.len() implies nodes_classified(text, #[trigger] lines[k]) by {
            assert forall|j: int| 0 <= j < lines[k].len() implies node_classified(text, #[trigger] lines[k][j]) by {
                assert(lines[k][j].0 == SyntaxType::Unknown);
            }
        }
    } else {
        lemma_run_classified(text, text.len());
    }
}

/// Law: a one-line (`//`) comment ends with its line.  Right after the walk
/// passes a `\n`, no one-line comment is tracked: the tracking is off, unless
/// a multi-line comment was open, which stays open.
pub proof fn law_line_comment_ends_with_line(text: Seq<char>, i: int)
    requires
        0 <= i < text.len(),
        text[i] == '\n',
    ensures
        parse_run(text, (i + 1) as nat).tracking_comment == if parse_run(text, i as nat).tracking_comment
            == CommentTracking::MultiLine {
            CommentTracking::MultiLine
        } else {
            CommentTracking::Off
        },
        parse_run(text, (i + 1) as nat).tracking_comment != CommentTracking::OneLine,
{
    let s = parse_run(text, i as nat);
    assert(parse_run(text, (i + 1) as nat) == parse_step(text, s, i));
    let is_last = i == text.len() - 1;
    let s2 = read_char(text, s, i);
    assert(s2.tracking_comment == s.tracking_comment);
    let e = end_line(text, s2, '\n', is_last);
    assert(parse_step(text, s, i) == e);
}

/// Law: a `.` read outside strings and comments makes the next word a
/// property access.
pub proof fn law_dot_starts_property_access(text: Seq<char>, i: int)
    requires
        0 <= i < text.len(),
        i + 1 < usize::MAX,
        text[i] == '.',
        !parse_run(text, i as nat).tracking_string,
        parse_run(text, i as nat).tracking_comment == CommentTracking::Off,
    ensures
        parse_run(text, (i + 1) as nat).last_semantic == SyntaxSemantic::PropertyAccess,
{
    let s = parse_run(text, i as nat);
    assert(parse_run(text, (i + 1) as nat) == parse_step(text, s, i));
}

/// Law: what the hint of a property access does to a word.  Without the hint
/// a word is never a property; with it, the word is a property exactly when,
/// without it, it would be a plain (`Unknown`) word.
pub proof fn law_property_access_hint(text: Seq<char>, wp: Range<usize>, ch: char)
    ensures
        word_kind(text, wp, SyntaxSemantic::Unknown, ch) != SyntaxType::Property,
        (word_kind(text, wp, SyntaxSemantic::PropertyAccess, ch) == SyntaxType::Property) <==> (word_kind(
            text,
            wp,
            SyntaxSemantic::Unknown,
            ch,
        ) == SyntaxType::Unknown),
{
}

/// Law: a plain word that the walk emits after a property access hint is
/// painted as a property.
pub proof fn law_word_after_dot_is_property(text: Seq<char>, s: ParseState, ch: char, wp: Range<usize>)
    requires
        s.generic_stack == Some(wp),
        trim(chars_in(text, wp)).len() != 0,
        s.last_semantic == SyntaxSemantic::PropertyAccess,
        word_kind(text, wp, SyntaxSemantic::Unknown, ch) == SyntaxType::Unknown,
    ensures
        flush_generic(text, s, ch).line == s.line.push((SyntaxType::Property, TextNode::Range(wp))),
        flush_generic(text, s, ch).last_semantic == SyntaxSemantic::Unknown,
{
    law_property_access_hint(text, wp, ch);
}

} // verus!
