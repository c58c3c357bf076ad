//! An open text document: its rope, its cursor and its selection, and the
//! highlight that the selection paints on each line.
use vstd::prelude::*;
use ropey::Rope;
use crate::lsp::{language_of_extension, LanguageId};
use crate::paths::{path_extension, path_extension_of};
use crate::rope::{
    rope_byte_line, rope_byte_to_line, rope_char_line, rope_char_to_line, rope_chars, rope_len_bytes,
    rope_len_chars, rope_len_lines, rope_line_count, rope_line_len, rope_line_len_chars,
    rope_line_start, rope_line_to_byte, rope_line_to_char, utf8_len,
};

verus! {

/// The cursor of an editor: a line and a column in it.
#[derive(Clone, Copy, Debug, PartialEq, Eq, Structural)]
pub struct TextCursor {
    pub row: usize,
    pub col: usize,
}

impl TextCursor {
    pub fn new(row: usize, col: usize) -> (cursor: TextCursor)
        ensures
            cursor == (TextCursor { row, col }),
    {
        TextCursor { row, col }
    }

    pub fn row(&self) -> (row: usize)
        ensures
            row == self.row,
    {
        self.row
    }

    pub fn col(&self) -> (col: usize)
        ensures
            col == self.col,
    {
        self.col
    }

    pub fn move_to(&mut self, row: usize, col: usize)
        ensures
            *final(self) == (TextCursor { row, col }),
    {
        self.row = row;
        self.col = col;
    }
}

/// The language of a file, by the extension of its path (`Unknown` without one).
pub open spec fn language_of_path(path: Seq<char>) -> LanguageId {
    match path_extension_of(path) {
        Some(ext) => language_of_extension(ext),
        None => LanguageId::Unknown,
    }
}

/// The highlight that a selection `(from, to)` of characters paints on line
/// `line`, as a range of columns of that line.
///
/// Lines strictly between the two ends are highlighted whole.  On the line of
/// each end, the part between that end and the far end of the line, in the
/// direction of the other end.  When both ends are on the same line, the part
/// between them, as they come (a backwards selection gives a backwards range).
pub open spec fn highlight_of(text: Seq<char>, selected: Option<(usize, usize)>, line: usize) -> Option<(usize, usize)> {
    match selected {
        None => None,
        Some((from, to)) => {
            let to_row = rope_char_to_line(text, to);
            let from_row = rope_char_to_line(text, from);
            let line_start = rope_line_start(text, line);
            let to_col = (to - rope_line_start(text, to_row)) as usize;
            let from_col = (from - rope_line_start(text, from_row)) as usize;
            if (line > from_row && line < to_row) || (line < from_row && line > to_row) {
                Some((0usize, rope_line_len(text, line)))
            } else if from_row > to_row {
                if from_row == line {
                    Some((0usize, from_col))
                } else if to_row == line {
                    Some((to_col, rope_line_len(text, to_row)))
                } else {
                    None
                }
            } else if from_row < to_row {
                if from_row == line {
                    Some((from_col, rope_line_len(text, from_row)))
                } else if to_row == line {
                    Some((0usize, to_col))
                } else {
                    None
                }
            } else if from_row == line {
                Some(((from - line_start) as usize, (to - line_start) as usize))
            } else {
                None
            }
        },
    }
}

/// An open document.
pub struct EditorData {
    cursor: TextCursor,
    rope: Rope,
    path: String,
    pub root_path: String,
    pub language_id: LanguageId,
    /// The selected characters: where the selection started and where it ends.
    selected: Option<(usize, usize)>,
    /// Whether the text differs from what was last saved, as its history reports it.
    edited: bool,
}

impl EditorData {
    /// The characters of the document.
    pub open spec fn text(&self) -> Seq<char> {
        rope_chars(self.rope_spec())
    }

    pub closed spec fn rope_spec(&self) -> Rope {
        self.rope
    }

    pub closed spec fn path_spec(&self) -> Seq<char> {
        self.path@
    }

    pub closed spec fn cursor_spec(&self) -> TextCursor {
        self.cursor
    }

    pub closed spec fn selection(&self) -> Option<(usize, usize)> {
        self.selected
    }

    pub closed spec fn edited_spec(&self) -> bool {
        self.edited
    }

    pub closed spec fn root_path_spec(&self) -> Seq<char> {
        self.root_path@
    }

    pub closed spec fn language(&self) -> LanguageId {
        self.language_id
    }

    /// A document at `path` with the text of `rope`, its cursor at `cursor`
    /// (line and column), nothing selected, unedited, and its language
    /// taken from the extension of the path.
    pub fn new(path: String, rope: Rope, cursor: (usize, usize), root_path: String) -> (editor: Self)
        ensures
            editor.path_spec() == path@,
            editor.rope_spec() == rope,
            editor.cursor_spec() == (TextCursor { row: cursor.0, col: cursor.1 }),
            editor.selection() is None,
            !editor.edited_spec(),
            editor.root_path_spec() == root_path@,
            editor.language() == language_of_path(path@),
    {
        let language_id = match path_extension(&path) {
            Some(ext) => LanguageId::parse(ext.as_str()),
            None => LanguageId::default(),
        };
        EditorData {
            cursor: TextCursor::new(cursor.0, cursor.1),
            rope,
            path,
            root_path,
            language_id,
            selected: None,
            edited: false,
        }
    }

    pub fn path(&self) -> (path: &String)
        ensures
            path@ == self.path_spec(),
    {
        &self.path
    }

    pub fn cursor(&self) -> (cursor: TextCursor)
        ensures
            cursor == self.cursor_spec(),
    {
        self.cursor
    }

    pub fn rope(&self) -> (rope: &Rope)
        ensures
            *rope == self.rope_spec(),
    {
        &self.rope
    }

    pub fn is_edited(&self) -> (edited: bool)
        ensures
            edited == self.edited_spec(),
    {
        self.edited
    }

    /// Records whether the text differs from what was last saved; nothing
    /// else changes.
    pub fn set_edited(&mut self, edited: bool)
        ensures
            final(self).edited_spec() == edited,
            final(self).text() == old(self).text(),
            final(self).rope_spec() == old(self).rope_spec(),
            final(self).path_spec() == old(self).path_spec(),
            final(self).cursor_spec() == old(self).cursor_spec(),
            final(self).selection() == old(self).selection(),
    {
        self.edited = edited;
    }

    pub fn unhighlight(&mut self)
        ensures
            final(self).selection() is None,
            final(self).rope_spec() == old(self).rope_spec(),
            final(self).path_spec() == old(self).path_spec(),
            final(self).cursor_spec() == old(self).cursor_spec(),
            final(self).edited_spec() == old(self).edited_spec(),
    {
        self.selected = None;
    }

    // -----------------------------------------------------------------------
    // Moving the cursor to a byte of the text
    // -----------------------------------------------------------------------

    /// Whether `idx` is a byte position of the text (the end included).
    pub open spec fn is_byte_position(&self, idx: usize) -> bool {
        idx <= utf8_len(self.text())
    }

    /// Puts the cursor on the line of byte `idx`, at the byte's distance from
    /// the start of that line.
    pub fn move_cursor_to_idx(&mut self, idx: usize)
        requires
            old(self).is_byte_position(idx),
        ensures
            ({
                let text = old(self).text();
                let row = rope_byte_to_line(text, idx);
                final(self).cursor_spec() == TextCursor {
                    row,
                    col: (idx - utf8_len(text.take(rope_line_start(text, row) as int))) as usize,
                }
            }),
            final(self).rope_spec() == old(self).rope_spec(),
            final(self).path_spec() == old(self).path_spec(),
            final(self).selection() == old(self).selection(),
            final(self).edited_spec() == old(self).edited_spec(),
    {
        let row = rope_byte_line(&self.rope, idx);
        let line_idx = rope_line_to_byte(&self.rope, row);
        let col = idx - line_idx;
        self.cursor.move_to(row, col);
    }

    /// Moves the cursor to byte `idx` when it is a byte position of the text,
    /// and tells whether it did; otherwise nothing changes.
    pub fn try_move_cursor_to_idx(&mut self, idx: usize) -> (moved: bool)
        ensures
            moved == old(self).is_byte_position(idx),
            moved ==> ({
                let text = old(self).text();
                let row = rope_byte_to_line(text, idx);
                final(self).cursor_spec() == TextCursor {
                    row,
                    col: (idx - utf8_len(text.take(rope_line_start(text, row) as int))) as usize,
                }
            }),
            !moved ==> final(self).cursor_spec() == old(self).cursor_spec(),
            final(self).rope_spec() == old(self).rope_spec(),
            final(self).path_spec() == old(self).path_spec(),
            final(self).selection() == old(self).selection(),
            final(self).edited_spec() == old(self).edited_spec(),
    {
        if idx <= rope_len_bytes(&self.rope) {
            self.move_cursor_to_idx(idx);
            true
        } else {
            false
        }
    }

    // -----------------------------------------------------------------------
    // Highlights
    // -----------------------------------------------------------------------

    /// Whether the highlight of line `editor_id` can be computed: the ends of
    /// the selection are character positions of the text and the line is a
    /// line of it (or one past the last).
    pub open spec fn highlights_defined(&self, editor_id: usize) -> bool {
        match self.selection() {
            None => true,
            Some((from, to)) => from <= self.text().len() && to <= self.text().len()
                && editor_id <= rope_line_count(self.text()),
        }
    }

    /// The highlight that the selection paints on line `editor_id`.
    pub fn highlights(&self, editor_id: usize) -> (highlight: Option<(usize, usize)>)
        requires
            self.highlights_defined(editor_id),
        ensures
            highlight == highlight_of(self.text(), self.selection(), editor_id),
    {
        let (selected_from, selected_to) = match self.selected {
            Some(selected) => selected,
            None => {
                return None;
            },
        };
        let selected_to_row = rope_char_line(&self.rope, selected_to);
        let selected_from_row = rope_char_line(&self.rope, selected_from);

        let editor_row_idx = rope_line_to_char(&self.rope, editor_id);
        let selected_to_row_idx = rope_line_to_char(&self.rope, selected_to_row);
        let selected_from_row_idx = rope_line_to_char(&self.rope, selected_from_row);

        let selected_to_col_idx = selected_to - selected_to_row_idx;
        let selected_from_col_idx = selected_from - selected_from_row_idx;

        // Between the starting line and the ending line
        if (editor_id > selected_from_row && editor_id < selected_to_row) || (editor_id
            < selected_from_row && editor_id > selected_to_row) {
            let len = rope_line_len_chars(&self.rope, editor_id);
            return Some((0, len));
        }
        if selected_from_row > selected_to_row {
            // The selection goes from the bottom to the top
            if selected_from_row == editor_id {
                return Some((0, selected_from_col_idx));
            } else if selected_to_row == editor_id {
                let len = rope_line_len_chars(&self.rope, selected_to_row);
                return Some((selected_to_col_idx, len));
            }
        } else if selected_from_row < selected_to_row {
            // The selection goes from the top to the bottom
            if selected_from_row == editor_id {
                let len = rope_line_len_chars(&self.rope, selected_from_row);
                return Some((selected_from_col_idx, len));
            } else if selected_to_row == editor_id {
                return Some((0, selected_to_col_idx));
            }
        } else if selected_from_row == editor_id {
            // Both ends are on this line
            return Some((selected_from - editor_row_idx, selected_to - editor_row_idx));
        }
        None
    }

    /// The highlight of line `editor_id` when it can be computed, `None`
    /// when it cannot.
    pub fn try_highlights(&self, editor_id: usize) -> (highlight: Option<Option<(usize, usize)>>)
        ensures
            highlight is Some <==> self.highlights_defined(editor_id),
            highlight matches Some(h) ==> h == highlight_of(self.text(), self.selection(), editor_id),
    {
        match self.selected {
            None => Some(None),
            Some((from, to)) => {
                let len = rope_len_chars(&self.rope);
                if from <= len && to <= len && editor_id <= rope_len_lines(&self.rope) {
                    Some(self.highlights(editor_id))
                } else {
                    None
                }
            },
        }
    }

    /// Whether a selection from column `from` to column `to` of line
    /// `editor_id` can be made: the line is a line of the text (or one past
    /// the last) and the character positions fit in a `usize`.
    pub open spec fn highlight_text_defined(&self, from: usize, to: usize, editor_id: usize) -> bool {
        let text = self.text();
        &&& editor_id <= rope_line_count(text)
        &&& rope_line_start(text, editor_id) + to <= usize::MAX
        &&& self.selection() is None ==> rope_line_start(text, editor_id) + from <= usize::MAX
    }

    /// Selects from column `from` to column `to` of line `editor_id`; with a
    /// selection already made, only its end moves to `to`.  The cursor goes
    /// to column `to` of that line.
    pub fn highlight_text(&mut self, from: usize, to: usize, editor_id: usize)
        requires
            old(self).highlight_text_defined(from, to, editor_id),
        ensures
            ({
                let start = rope_line_start(old(self).text(), editor_id);
                final(self).selection() == match old(self).selection() {
                    None => Some(((start + from) as usize, (start + to) as usize)),
                    Some((f, _)) => Some((f, (start + to) as usize)),
                }
            }),
            final(self).cursor_spec() == (TextCursor { row: editor_id, col: to }),
            final(self).rope_spec() == old(self).rope_spec(),
            final(self).path_spec() == old(self).path_spec(),
            final(self).edited_spec() == old(self).edited_spec(),
    {
        let row_idx = rope_line_to_char(&self.rope, editor_id);
        match self.selected {
            None => {
                self.selected = Some((row_idx + from, row_idx + to));
            },
            Some((f, _)) => {
                self.selected = Some((f, row_idx + to));
            },
        }
        self.cursor.move_to(editor_id, to);
    }

    /// Selects as `highlight_text` does when that can be done, and tells
    /// whether it did; otherwise nothing changes.
    pub fn try_highlight_text(&mut self, from: usize, to: usize, editor_id: usize) -> (done: bool)
        ensures
            done == old(self).highlight_text_defined(from, to, editor_id),
            done ==> ({
                let start = rope_line_start(old(self).text(), editor_id);
                final(self).selection() == match old(self).selection() {
                    None => Some(((start + from) as usize, (start + to) as usize)),
                    Some((f, _)) => Some((f, (start + to) as usize)),
                }
            }),
            done ==> final(self).cursor_spec() == (TextCursor { row: editor_id, col: to }),
            !done ==> final(self).selection() == old(self).selection(),
            !done ==> final(self).cursor_spec() == old(self).cursor_spec(),
            final(self).rope_spec() == old(self).rope_spec(),
            final(self).path_spec() == old(self).path_spec(),
            final(self).edited_spec() == old(self).edited_spec(),
    {
        if editor_id > rope_len_lines(&self.rope) {
            return false;
        }
        let row_idx = rope_line_to_char(&self.rope, editor_id);
        if to > usize::MAX - row_idx {
            return false;
        }
        if self.selected.is_none() && from > usize::MAX - row_idx {
            return false;
        }
        self.highlight_text(from, to, editor_id);
        true
    }

    // -----------------------------------------------------------------------
    // The selection follows the cursor
    // -----------------------------------------------------------------------

    /// Whether the character position of the cursor can be computed: its line
    /// is a line of the text (or one past the last) and the position fits in
    /// a `usize`.
    pub open spec fn cursor_pos_defined(&self) -> bool {
        &&& self.cursor_spec().row <= rope_line_count(self.text())
        &&& rope_line_start(self.text(), self.cursor_spec().row) + self.cursor_spec().col <= usize::MAX
    }

    /// The character position of the cursor: the start of its line and its column.
    pub open spec fn cursor_pos_spec(&self) -> usize {
        (rope_line_start(self.text(), self.cursor_spec().row) + self.cursor_spec().col) as usize
    }

    pub fn cursor_pos(&self) -> (pos: usize)
        requires
            self.cursor_pos_defined(),
        ensures
            pos == self.cursor_pos_spec(),
    {
        let line_begining = rope_line_to_char(&self.rope, self.cursor.row);
        line_begining + self.cursor.col
    }

    /// Moves the end of the selection to the cursor; with nothing selected,
    /// selects the empty range at the cursor.
    pub fn move_highlight_to_cursor(&mut self)
        requires
            old(self).cursor_pos_defined(),
        ensures
            final(self).selection() == match old(self).selection() {
                None => Some((old(self).cursor_pos_spec(), old(self).cursor_pos_spec())),
                Some((f, _)) => Some((f, old(self).cursor_pos_spec())),
            },
            final(self).cursor_spec() == old(self).cursor_spec(),
            final(self).rope_spec() == old(self).rope_spec(),
            final(self).path_spec() == old(self).path_spec(),
            final(self).edited_spec() == old(self).edited_spec(),
    {
        let pos = self.cursor_pos();
        match self.selected {
            Some((f, _)) => {
                self.selected = Some((f, pos));
            },
            None => {
                self.selected = Some((pos, pos));
            },
        }
    }

    /// Moves the selection to the cursor as `move_highlight_to_cursor` does
    /// when the cursor's position can be computed, and tells whether it did;
    /// otherwise nothing changes.
    pub fn try_move_highlight_to_cursor(&mut self) -> (done: bool)
        ensures
            done == old(self).cursor_pos_defined(),
            done ==> final(self).selection() == match old(self).selection() {
                None => Some((old(self).cursor_pos_spec(), old(self).cursor_pos_spec())),
                Some((f, _)) => Some((f, old(self).cursor_pos_spec())),
            },
            !done ==> final(self).selection() == old(self).selection(),
            final(self).cursor_spec() == old(self).cursor_spec(),
            final(self).rope_spec() == old(self).rope_spec(),
            final(self).path_spec() == old(self).path_spec(),
            final(self).edited_spec() == old(self).edited_spec(),
    {
        if self.cursor.row > rope_len_lines(&self.rope) {
            return false;
        }
        let start = rope_line_to_char(&self.rope, self.cursor.row);
        if self.cursor.col > usize::MAX - start {
            return false;
        }
        self.move_highlight_to_cursor();
        true
    }
}

// ---------------------------------------------------------------------------
// Keys pressed in an editor
// ---------------------------------------------------------------------------

/// The key of a key press, as far as the editor tells keys apart.
pub enum EditKey {
    Escape,
    Character(String),
    Other,
}

/// The physical key of a key press, as far as the editor tells them apart.
#[derive(Clone, Copy, PartialEq, Eq, Debug, Structural)]
pub enum EditCode {
    KeyZ,
    KeyY,
    Other,
}

/// What an editor does with a key press.
#[derive(Clone, Copy, PartialEq, Eq, Debug, Structural)]
pub enum EditKeyAction {
    /// The key is left to the application: `Esc`, and `Alt` with `+`, `-` or `e`.
    Ignore,
    /// `Ctrl Z` or `Meta Z`
    Undo,
    /// `Ctrl Y` or `Meta Y`
    Redo,
    /// Any other key edits the text.
    Edit,
}

pub open spec fn is_character(key: EditKey, c: Seq<char>) -> bool {
    match key {
        EditKey::Character(s) => s@ == c,
        _ => false,
    }
}

pub open spec fn edit_key_action_spec(key: EditKey, code: EditCode, alt: bool, control: bool, meta: bool) -> EditKeyAction {
    let app_key = is_character(key, "+"@) || is_character(key, "-"@) || is_character(key, "e"@);
    if key is Escape || (alt && app_key) {
        EditKeyAction::Ignore
    } else if (control || meta) && code == EditCode::KeyZ {
        EditKeyAction::Undo
    } else if (control || meta) && code == EditCode::KeyY {
        EditKeyAction::Redo
    } else {
        EditKeyAction::Edit
    }
}

fn is_one_char(key: &EditKey, c: char) -> (found: bool)
    ensures
        found == is_character(*key, seq![c]),
{
    match key {
        EditKey::Character(s) => {
            let expected: [char; 1] = [c];
            assert(expected@ =~= seq![c]);
            crate::chars::str_is(s.as_str(), &expected)
        },
        _ => false,
    }
}

/// What an editor does with a key press (`alt`, `control` and `meta` tell
/// whether those modifiers are held; Meta stands in for Control).
pub fn edit_key_action(key: &EditKey, code: EditCode, alt: bool, control: bool, meta: bool) -> (action: EditKeyAction)
    ensures
        action == edit_key_action_spec(*key, code, alt, control, meta),
{
    proof {
        reveal_strlit("+");
        reveal_strlit("-");
        reveal_strlit("e");
        assert(seq!['+'] =~= "+"@);
        assert(seq!['-'] =~= "-"@);
        assert(seq!['e'] =~= "e"@);
    }
    let is_plus = is_one_char(key, '+');
    let is_minus = is_one_char(key, '-');
    let is_e = is_one_char(key, 'e');
    let is_escape = match key {
        EditKey::Escape => true,
        _ => false,
    };
    if is_escape || (alt && (is_plus || is_minus || is_e)) {
        return EditKeyAction::Ignore;
    }
    if control || meta {
        if code == EditCode::KeyZ {
            return EditKeyAction::Undo;
        } else if code == EditCode::KeyY {
            return EditKeyAction::Redo;
        }
    }
    EditKeyAction::Edit
}

/// Whether a selection covers any text (its ends differ).
pub fn has_any_highlight(selected: Option<(usize, usize)>) -> (any: bool)
    ensures
        any == (selected matches Some((from, to)) && from != to),
{
    match selected {
        Some((from, to)) => from != to,
        None => false,
    }
}

/// A selection paints nothing on a line outside the lines of its two ends,
/// and paints every line strictly between them whole.
pub proof fn law_highlight_within_selected_lines(text: Seq<char>, from: usize, to: usize, line: usize)
    ensures
        ({
            let from_row = rope_char_to_line(text, from);
            let to_row = rope_char_to_line(text, to);
            let low = if from_row <= to_row { from_row } else { to_row };
            let high = if from_row <= to_row { to_row } else { from_row };
            &&& (line < low || line > high) ==> highlight_of(text, Some((from, to)), line) is None
            &&& (low < line < high) ==> highlight_of(text, Some((from, to)), line) == Some(
                (0usize, rope_line_len(text, line)),
            )
        }),
{
}

/// Without a selection no line is highlighted.
pub proof fn law_no_selection_no_highlight(text: Seq<char>, line: usize)
    ensures
        highlight_of(text, None, line) is None,
{
}

/// A selection whose ends are on different lines paints the same highlight on
/// every line whichever end it started from.
pub proof fn law_highlight_either_direction(text: Seq<char>, a: usize, b: usize, line: usize)
    requires
        rope_char_to_line(text, a) != rope_char_to_line(text, b),
    ensures
        highlight_of(text, Some((a, b)), line) == highlight_of(text, Some((b, a)), line),
{
}

/// A selection whose two ends are on one line paints, on that line, the
/// columns of its ends (each end's distance from the start of the line), in
/// the order the ends come: made right to left, it paints the same columns
/// swapped.
pub proof fn law_highlight_same_line(text: Seq<char>, a: usize, b: usize)
    requires
        a <= text.len(),
        b <= text.len(),
        rope_char_to_line(text, a) == rope_char_to_line(text, b),
    ensures
        ({
            let line = rope_char_to_line(text, a);
            let start = rope_line_start(text, line);
            &&& highlight_of(text, Some((a, b)), line) == Some(((a - start) as usize, (b - start) as usize))
            &&& highlight_of(text, Some((b, a)), line) == Some(((b - start) as usize, (a - start) as usize))
        }),
{
}

/// A selection always paints the lines of both of its ends.
pub proof fn law_selection_paints_its_ends(text: Seq<char>, from: usize, to: usize)
    ensures
        highlight_of(text, Some((from, to)), rope_char_to_line(text, from)) is Some,
        highlight_of(text, Some((from, to)), rope_char_to_line(text, to)) is Some,
{
}

} // verus!
