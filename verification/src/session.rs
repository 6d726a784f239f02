//! One run of the menu: the search text, the cursor in it and the rows on the screen, and what
//! each key does to them.
use vstd::prelude::*;
use vstd::utf8::*;

use crate::edit::{byte_len, lemma_width_between_boundaries};

verus! {

/// A key that the user pressed.
pub enum Key {
    Escape,
    ArrowUp,
    ArrowDown,
    ArrowLeft,
    ArrowRight,
    Tab,
    BackTab,
    Enter,
    Backspace,
    Char(char),
    /// Any other key.
    Other,
}

/// What has to happen after a key.
pub enum Action {
    /// The menu is drawn again and the next key is read.
    Continue,
    /// The history is searched for the text, the menu takes the results and goes on.
    Search(String),
    /// The interaction ends without a result; the menu is cleared first if `clear` says so.
    Quit { clear: bool },
    /// The interaction ends with a row.
    Select {
        /// The number of the row.
        index: usize,
        /// Its text.
        item: String,
        /// Whether the menu is cleared first.
        clear: bool,
        /// The prompt and the text that are then confirmed, if they are.
        confirmation: Option<(String, String)>,
    },
}

/// The state of one run of the menu.
pub struct Session {
    /// The text that is searched for.
    pub search_term: String,
    /// The cursor: a byte position in the search text.
    pub position: usize,
    /// The selected row.
    pub selection: Option<usize>,
    /// The first row that is shown.
    pub starting_row: usize,
    /// The number of rows that fit on the screen.
    pub visible_rows: usize,
    /// Whether the user may end the run without selecting a row.
    pub allow_quit: bool,
}

/// The state of one run of the menu, with the search text as bytes.
pub struct SessionView {
    pub text: Seq<u8>,
    pub position: int,
    pub selection: Option<usize>,
    pub starting_row: int,
    pub visible_rows: int,
    pub allow_quit: bool,
}

impl View for Session {
    type V = SessionView;

    open spec fn view(&self) -> SessionView {
        SessionView {
            text: encode_utf8(self.search_term@),
            position: self.position as int,
            selection: self.selection,
            starting_row: self.starting_row as int,
            visible_rows: self.visible_rows as int,
            allow_quit: self.allow_quit,
        }
    }
}

/// The larger of two numbers.
pub open spec fn larger(a: int, b: int) -> int {
    if a < b {
        b
    } else {
        a
    }
}

/// A row number as a signed number of 64 bits, in which the way up is counted.
pub open spec fn signed(row: usize) -> int {
    if row <= i64::MAX {
        row as int
    } else {
        row - 0x1_0000_0000_0000_0000
    }
}

/// The remainder of a division that rounds towards zero, as an unsigned number of 64 bits.
pub open spec fn unsigned_remainder(number: int, divisor: int) -> int {
    if number >= 0 {
        number % divisor
    } else if (-number) % divisor == 0 {
        0
    } else {
        0x1_0000_0000_0000_0000 - (-number) % divisor
    }
}

/// The row above the selected one among `count` rows, from the first one round to the last.
pub open spec fn row_above(selection: Option<usize>, count: int) -> int {
    match selection {
        None => count - 1,
        Some(row) => unsigned_remainder(signed(row) - 1 + count, count),
    }
}

/// The row above the selected one can be counted: no step leaves the signed numbers of 64 bits.
pub open spec fn has_row_above(selection: Option<usize>, count: int) -> bool {
    selection is Some ==> {
        &&& count <= i64::MAX
        &&& i64::MIN <= signed(selection->0) - 1
        &&& signed(selection->0) - 1 + count <= i64::MAX
    }
}

/// The row below the selected one among `count` rows, from the last one round to the first.
pub open spec fn row_below(selection: Option<usize>, count: int) -> int {
    match selection {
        None => 0,
        Some(row) => (row + 1) % count,
    }
}

/// The text with a character put in front of the byte at `position`.
pub open spec fn with_char(text: Seq<u8>, position: int, ch: char) -> Seq<u8> {
    text.subrange(0, position) + encode_scalar(ch as u32) + text.subrange(
        position,
        text.len() as int,
    )
}

/// An ASCII control character.
pub open spec fn is_control(ch: char) -> bool {
    ch <= '\u{1f}' || ch == '\u{7f}'
}

impl SessionView {
    /// The cursor lies in the text, and the rows of the screen can be numbered.
    pub open spec fn wf(self) -> bool {
        &&& valid_utf8(self.text)
        &&& 0 <= self.position <= self.text.len()
        &&& 0 <= self.starting_row
        &&& 0 <= self.visible_rows
        &&& self.starting_row + self.visible_rows <= usize::MAX
    }

    /// After moving up among `count` rows.
    pub open spec fn moved_up(self, count: int) -> SessionView {
        SessionView {
            selection: Some(row_above(self.selection, count) as usize),
            starting_row: if self.selection == Some(0usize) {
                larger(count, self.visible_rows) - self.visible_rows
            } else if self.selection is Some && self.selection->0 == self.starting_row {
                self.starting_row - 1
            } else {
                self.starting_row
            },
            ..self
        }
    }

    /// After moving down among `count` rows.
    pub open spec fn moved_down(self, count: int) -> SessionView {
        let row = row_below(self.selection, count);
        SessionView {
            selection: Some(row as usize),
            starting_row: if row == self.visible_rows + self.starting_row {
                self.starting_row + 1
            } else if row == 0 {
                0
            } else {
                self.starting_row
            },
            ..self
        }
    }

    /// After typing a character at a place where a character may begin.
    pub open spec fn typed(self, ch: char) -> SessionView {
        SessionView {
            text: with_char(self.text, self.position, ch),
            position: self.position + 1,
            selection: Some(0),
            starting_row: 0,
            ..self
        }
    }

    /// After erasing the byte in front of the cursor.
    pub open spec fn erased(self) -> SessionView {
        SessionView {
            text: self.text.remove(self.position - 1),
            position: self.position - 1,
            ..self
        }
    }

    /// The state after a key, with `count` rows in the menu.
    pub open spec fn after(self, key: Key, count: int) -> SessionView {
        match key {
            Key::ArrowUp | Key::BackTab => if count > 0 {
                self.moved_up(count)
            } else {
                self
            },
            Key::ArrowDown | Key::Tab => if count > 0 {
                self.moved_down(count)
            } else {
                self
            },
            Key::ArrowLeft => if self.position > 0 {
                SessionView { position: self.position - 1, ..self }
            } else {
                self
            },
            Key::ArrowRight => if self.position < self.text.len() {
                SessionView { position: self.position + 1, ..self }
            } else {
                self
            },
            Key::Backspace => if self.erases() {
                self.erased()
            } else {
                self
            },
            Key::Char(ch) => if self.types(ch) {
                self.typed(ch)
            } else {
                self
            },
            _ => self,
        }
    }

    /// Whether Backspace changes the text: there is something in front of the cursor, and the
    /// cursor is not inside a character.
    pub open spec fn erases(self) -> bool {
        self.position > 0 && is_char_boundary(self.text, self.position)
    }

    /// Whether a key ends the run without a row: Escape does, and so does `q` as long as there is
    /// no text that it would be a letter of, if the user may end the run.
    pub open spec fn quits(self, key: Key) -> bool {
        self.allow_quit && (key is Escape || key == Key::Char('q') && self.text.len() == 0)
    }

    /// Whether a character is taken into the text: it is no control character and does not end
    /// the run, and the cursor is not inside a character.
    pub open spec fn types(self, ch: char) -> bool {
        !is_control(ch) && !self.quits(Key::Char(ch)) && is_char_boundary(self.text, self.position)
    }

    /// Whether the history is searched again after a key.
    pub open spec fn searches(self, key: Key) -> bool {
        match key {
            Key::Backspace => self.erases(),
            Key::Char(ch) => self.types(ch),
            _ => false,
        }
    }

    /// Whether a key has a meaning in this state, with `count` rows in the menu.
    ///
    /// Backspace has none behind a character of more than one byte, Enter has none on a selection
    /// beyond the last row, and a row number next to the end of the integers has no neighbour.
    pub open spec fn accepts(self, key: Key, count: int) -> bool {
        match key {
            Key::ArrowUp | Key::BackTab => count > 0 ==> has_row_above(self.selection, count),
            Key::ArrowDown | Key::Tab => count > 0 && self.selection is Some
                ==> self.selection->0 < u64::MAX,
            Key::Enter => count > 0 && self.selection is Some ==> self.selection->0 < count,
            Key::Backspace => self.erases() ==> is_char_boundary(self.text, self.position - 1),
            _ => true,
        }
    }
}

/// Decides whether the row above the selected one can be counted.
pub(crate) fn can_move_up(selection: Option<usize>, count: usize) -> (answer: bool)
    ensures
        answer == has_row_above(selection, count as int),
{
    match selection {
        Some(row) => {
            let row: i128 = if row as u64 <= i64::MAX as u64 {
                row as i128
            } else {
                row as i128 - 0x1_0000_0000_0000_0000
            };
            let limit: i128 = i64::MAX as i128;
            count as i128 <= limit && i64::MIN as i128 <= row - 1 && row - 1 + count as i128 <= limit
        },
        None => true,
    }
}

/// The row above a row.
fn above(row: usize, count: usize) -> (row_above_it: usize)
    requires
        count > 0,
        has_row_above(Some(row), count as int),
    ensures
        row_above_it == row_above(Some(row), count as int),
{
    if row as u64 <= i64::MAX as u64 {
        ((row as i64 - 1 + count as i64) % (count as i64)) as usize
    } else {
        // As a signed number the row and the step from it are this far below zero.
        let depth: u64 = u64::MAX - row as u64 + 2;
        if count as u64 >= depth {
            ((count as u64 - depth) % (count as u64)) as usize
        } else {
            let rest: u64 = (depth - count as u64) % (count as u64);
            if rest == 0 {
                0
            } else {
                usize::MAX - (rest as usize - 1)
            }
        }
    }
}

impl Session {
    /// The state is well-formed.
    pub open spec fn wf(self) -> bool {
        self@.wf()
    }

    /// Moves the selection one row up.
    pub(crate) fn move_up(&mut self, count: usize)
        requires
            old(self).wf(),
            count > 0,
            has_row_above(old(self).selection, count as int),
        ensures
            final(self)@ == old(self)@.moved_up(count as int),
            final(self).wf(),
    {
        match self.selection {
            None => {
                self.selection = Some(count - 1);
            },
            Some(row) => {
                if row == 0 {
                    self.starting_row = if count < self.visible_rows {
                        0
                    } else {
                        count - self.visible_rows
                    };
                } else if row == self.starting_row {
                    self.starting_row = self.starting_row - 1;
                }
                self.selection = Some(above(row, count));
            },
        }
    }

    /// Moves the selection one row down.
    pub(crate) fn move_down(&mut self, count: usize)
        requires
            old(self).wf(),
            count > 0,
            old(self).selection is Some ==> old(self).selection->0 < u64::MAX,
        ensures
            final(self)@ == old(self)@.moved_down(count as int),
            final(self).wf(),
    {
        let row: usize = match self.selection {
            None => 0,
            Some(row) => ((row as u64 + 1) % (count as u64)) as usize,
        };
        self.selection = Some(row);
        if row == self.visible_rows + self.starting_row {
            self.starting_row = self.starting_row + 1;
        } else if row == 0 {
            self.starting_row = 0;
        }
    }

    /// Moves the cursor one byte to the left.
    pub(crate) fn move_left(&mut self)
        requires
            old(self).wf(),
        ensures
            final(self)@ == old(self)@.after(Key::ArrowLeft, 0),
            final(self).wf(),
    {
        if self.position > 0 {
            self.position = self.position - 1;
        }
    }

    /// Moves the cursor one byte to the right.
    pub(crate) fn move_right(&mut self)
        requires
            old(self).wf(),
        ensures
            final(self)@ == old(self)@.after(Key::ArrowRight, 0),
            final(self).wf(),
    {
        if self.position < byte_len(self.search_term.as_str()) {
            self.position = self.position + 1;
        }
    }

    /// Decides whether a character ends the run.
    pub(crate) fn quits_by(&self, ch: char) -> (answer: bool)
        ensures
            answer == self@.quits(Key::Char(ch)),
    {
        self.allow_quit && ch == 'q' && byte_len(self.search_term.as_str()) == 0
    }

    /// Puts a character into the text, unless it ends the run or the cursor is inside a
    /// character.
    pub(crate) fn type_char(&mut self, ch: char) -> (searched: bool)
        requires
            old(self).wf(),
        ensures
            searched == old(self)@.types(ch),
            final(self)@ == old(self)@.after(Key::Char(ch), 0),
            final(self).wf(),
    {
        let control = ch <= '\u{1f}' || ch == '\u{7f}';
        if !control && !self.quits_by(ch) && self.search_term.as_str().is_char_boundary(self.position) {
            self.search_term.insert(self.position, ch);
            proof {
                char_is_scalar(ch);
                encode_utf8_valid_utf8(self.search_term@);
            }
            let end: usize = byte_len(self.search_term.as_str());
            assert(self.position < end);
            self.position = self.position + 1;
            self.selection = Some(0);
            self.starting_row = 0;
            true
        } else {
            false
        }
    }

    /// Takes the character in front of the cursor out of the text, unless the cursor is inside a
    /// character.
    pub(crate) fn erase(&mut self) -> (searched: bool)
        requires
            old(self).wf(),
            old(self)@.accepts(Key::Backspace, 0),
        ensures
            searched == old(self)@.erases(),
            final(self)@ == old(self)@.after(Key::Backspace, 0),
            final(self).wf(),
    {
        if self.position > 0 && self.search_term.as_str().is_char_boundary(self.position) {
            let ghost text = encode_utf8(self.search_term@);
            self.position = self.position - 1;
            let removed = self.search_term.remove(self.position);
            proof {
                let index = self.position as int;
                let code = encode_scalar(removed as u32);
                assert(text.subrange(index, index + code.len()) == code);
                lemma_width_between_boundaries(text, index, removed);
                assert(encode_utf8(self.search_term@) == text.remove(index));
                encode_utf8_valid_utf8(self.search_term@);
            }
            true
        } else {
            false
        }
    }
}

} // verus!
