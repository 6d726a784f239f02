//! The fuzzy selector: its settings, its rows and how it answers to keys.
use vstd::prelude::*;
use vstd::utf8::*;

use crate::edit::byte_len;
use crate::session::{can_move_up, Action, Key, Session};
use crate::text::chars_of;

verus! {

/// `dialoguer::theme::SimpleTheme`, the theme of a menu that was given none.
#[verifier::external_type_specification]
#[verifier::external_body]
pub struct ExSimpleTheme(dialoguer::theme::SimpleTheme);

/// The value of the unit struct `dialoguer::theme::SimpleTheme`. Nothing is claimed of it.
#[verifier::external_body]
fn simple_theme() -> (theme: dialoguer::theme::SimpleTheme) {
    dialoguer::theme::SimpleTheme
}

/// A menu over the lines of the shell history that is narrowed by a search text.
///
/// `T` is the theme that the menu is drawn with; it is carried along and never looked at.
pub struct FuzzyHistorySelect<T> {
    /// The row that is selected when the menu opens.
    pub default: Option<usize>,
    /// The rows of the menu.
    pub items: Vec<String>,
    /// The text in front of the search text.
    pub prompt: String,
    /// Whether the selected value is reported after the interaction.
    pub report: bool,
    /// Whether the menu is cleared after the interaction.
    pub clear: bool,
    /// Whether the matched letters of a row are highlighted.
    pub highlight_matches: bool,
    /// The largest number of rows that are shown at once.
    pub max_length: Option<usize>,
    /// The theme of the menu.
    pub theme: T,
    /// Search string that a fuzzy search starts with.
    /// Defaults to an empty string.
    pub initial_text: String,
}

/// A row of the menu that is on the screen.
pub struct ShownRow {
    /// The number of the row in the menu.
    pub index: usize,
    /// Its text.
    pub text: String,
    /// Whether it is the selected one.
    pub active: bool,
}

/// The number of rows that are left of a terminal's height beside the prompt, and no more than
/// `max_length`. Of a terminal of less than three rows one is used anyway.
pub open spec fn rows_for_items(term_rows: u16, max_length: Option<usize>) -> int {
    let available = if term_rows < 3 {
        1
    } else {
        term_rows - 2
    };
    match max_length {
        Some(limit) => if limit < available {
            limit as int
        } else {
            available
        },
        None => available,
    }
}

/// The menu as it is when nothing has been set.
pub open spec fn is_fresh<T>(menu: FuzzyHistorySelect<T>) -> bool {
    &&& menu.default is None
    &&& menu.items@ == Seq::<String>::empty()
    &&& menu.prompt@ == Seq::<char>::empty()
    &&& menu.report
    &&& menu.clear
    &&& menu.highlight_matches
    &&& menu.max_length is None
    &&& menu.initial_text@ == Seq::<char>::empty()
}

impl Default for FuzzyHistorySelect<dialoguer::theme::SimpleTheme> {
    /// The same as `new`.
    fn default() -> (menu: Self)
        ensures
            is_fresh(menu),
    {
        Self::new()
    }
}

impl FuzzyHistorySelect<dialoguer::theme::SimpleTheme> {
    /// Creates the menu with the default theme.
    pub fn new() -> (menu: Self)
        ensures
            is_fresh(menu),
    {
        Self::with_theme(simple_theme())
    }
}

impl<T> FuzzyHistorySelect<T> {
    /// Same as `new` but with a specific theme.
    pub fn with_theme(theme: T) -> (menu: Self)
        ensures
            is_fresh(menu),
            menu.theme == theme,
    {
        FuzzyHistorySelect {
            default: None,
            items: Vec::new(),
            prompt: String::new(),
            report: true,
            clear: true,
            highlight_matches: true,
            max_length: None,
            theme,
            initial_text: String::new(),
        }
    }

    /// Sets the clear behavior of the menu.
    ///
    /// The default is to clear the menu.
    pub fn clear(&mut self, val: bool) -> (menu: &mut Self)
        ensures
            *menu == (FuzzyHistorySelect { clear: val, ..*old(self) }),
            *final(self) == *final(menu),
    {
        self.clear = val;
        self
    }

    /// Add a single item to the fuzzy selector.
    pub fn item(&mut self, item: &str) -> (menu: &mut Self)
        ensures
            menu.items@.len() == old(self).items@.len() + 1,
            menu.items@.drop_last() == old(self).items@,
            menu.items@.last()@ == item@,
            *menu == (FuzzyHistorySelect { items: menu.items, ..*old(self) }),
            *final(self) == *final(menu),
    {
        self.items.push(item.to_owned());
        self
    }

    /// Adds multiple items to the fuzzy selector.
    pub fn items(&mut self, items: &[String]) -> (menu: &mut Self)
        ensures
            menu.items@ == old(self).items@ + items@,
            *menu == (FuzzyHistorySelect { items: menu.items, ..*old(self) }),
            *final(self) == *final(menu),
    {
        let count: usize = items.len();
        let mut next: usize = 0;
        while next < count
            invariant
                next <= count == items@.len(),
                self.items@ == old(self).items@ + items@.take(next as int),
                *self == (FuzzyHistorySelect { items: self.items, ..*old(self) }),
            decreases count - next,
        {
            self.items.push(items[next].clone());
            next = next + 1;
            assert(items@.take(next as int) == items@.take(next - 1).push(items@[next - 1]));
        }
        assert(items@.take(count as int) == items@);
        self
    }

    /// Replaces the items by what a search found.
    pub fn set_items_from_search(&mut self, results: Vec<String>) -> (menu: &mut Self)
        ensures
            *menu == (FuzzyHistorySelect { items: results, ..*old(self) }),
            *final(self) == *final(menu),
    {
        self.items = results;
        self
    }

    /// Sets the search text that a fuzzy search starts with.
    pub fn with_initial_text(&mut self, initial_text: String) -> (menu: &mut Self)
        ensures
            *menu == (FuzzyHistorySelect { initial_text, ..*old(self) }),
            *final(self) == *final(menu),
    {
        self.initial_text = initial_text;
        self
    }

    /// Prefaces the menu with a prompt.
    ///
    /// When a prompt is set the system also prints out a confirmation after
    /// the fuzzy selection.
    pub fn with_prompt(&mut self, prompt: String) -> (menu: &mut Self)
        ensures
            *menu == (FuzzyHistorySelect { prompt, ..*old(self) }),
            *final(self) == *final(menu),
    {
        self.prompt = prompt;
        self
    }

    /// Indicates whether to report the selected value after interaction.
    ///
    /// The default is to report the selection.
    pub fn report(&mut self, val: bool) -> (menu: &mut Self)
        ensures
            *menu == (FuzzyHistorySelect { report: val, ..*old(self) }),
            *final(self) == *final(menu),
    {
        self.report = val;
        self
    }

    /// Indicates whether to highlight matched indices
    ///
    /// The default is to highlight the indices
    pub fn highlight_matches(&mut self, val: bool) -> (menu: &mut Self)
        ensures
            *menu == (FuzzyHistorySelect { highlight_matches: val, ..*old(self) }),
            *final(self) == *final(menu),
    {
        self.highlight_matches = val;
        self
    }

    /// Sets the maximum number of visible options.
    ///
    /// The default is the height of the terminal minus 2.
    pub fn max_length(&mut self, rows: usize) -> (menu: &mut Self)
        ensures
            *menu == (FuzzyHistorySelect { max_length: Some(rows), ..*old(self) }),
            *final(self) == *final(menu),
    {
        self.max_length = Some(rows);
        self
    }

    /// The state in which a run of the menu begins on a terminal of `term_rows` rows: the cursor
    /// stands behind the initial text, and the first row is at the top.
    pub fn begin(&self, term_rows: u16, allow_quit: bool) -> (session: Session)
        ensures
            session.wf(),
            session.search_term@ == self.initial_text@,
            session.position == encode_utf8(self.initial_text@).len(),
            session.selection == self.default,
            session.starting_row == 0,
            session.visible_rows == rows_for_items(term_rows, self.max_length),
            session.allow_quit == allow_quit,
    {
        proof {
            encode_utf8_valid_utf8(self.initial_text@);
        }
        // Two rows are kept for the prompt.
        let available: usize = if term_rows < 3 {
            1
        } else {
            term_rows as usize - 2
        };
        let visible_rows: usize = match self.max_length {
            Some(limit) => if limit < available {
                limit
            } else {
                available
            },
            None => available,
        };
        Session {
            search_term: self.initial_text.clone(),
            position: byte_len(self.initial_text.as_str()),
            selection: self.default,
            starting_row: 0,
            visible_rows,
            allow_quit,
        }
    }

    /// The lengths of the items in bytes.
    pub fn item_sizes(&self) -> (sizes: Vec<usize>)
        ensures
            sizes@.len() == self.items@.len(),
            forall|i: int|
                0 <= i < sizes@.len() ==> #[trigger] sizes@[i] == encode_utf8(
                    self.items@[i]@,
                ).len(),
    {
        let mut sizes: Vec<usize> = Vec::new();
        let count: usize = self.items.len();
        let mut next: usize = 0;
        while next < count
            invariant
                next <= count == self.items@.len(),
                sizes@.len() == next,
                forall|i: int|
                    0 <= i < next ==> #[trigger] sizes@[i] == encode_utf8(self.items@[i]@).len(),
            decreases count - next,
        {
            sizes.push(byte_len(self.items[next].as_str()));
            next = next + 1;
        }
        sizes
    }

    /// The number of the row behind the last one that is on the screen.
    pub open spec fn shown_end(&self, session: Session) -> int {
        if session.starting_row + session.visible_rows < self.items@.len() {
            session.starting_row + session.visible_rows
        } else {
            self.items@.len() as int
        }
    }

    /// The rows that are on the screen, from the top.
    pub fn shown_rows(&self, session: &Session) -> (rows: Vec<ShownRow>)
        requires
            session.wf(),
        ensures
            session.starting_row <= self.shown_end(*session) ==> rows@.len() == self.shown_end(
                *session,
            ) - session.starting_row,
            session.starting_row > self.shown_end(*session) ==> rows@.len() == 0,
            session.starting_row + session.visible_rows <= self.items@.len() ==> rows@.len()
                == session.visible_rows,
            session.starting_row <= self.items@.len() < session.starting_row + session.visible_rows
                ==> rows@.len() == self.items@.len() - session.starting_row,
            forall|i: int|
                #![trigger rows@[i]]
                0 <= i < rows@.len() ==> rows@[i].index == session.starting_row + i && rows@[i].text
                    == self.items@[session.starting_row + i] && rows@[i].active == (
                session.selection == Some(rows@[i].index)),
    {
        let mut rows: Vec<ShownRow> = Vec::new();
        let last: usize = session.starting_row + session.visible_rows;
        let end: usize = if last < self.items.len() {
            last
        } else {
            self.items.len()
        };
        let mut index: usize = session.starting_row;
        while index < end
            invariant
                session.starting_row <= index,
                session.starting_row <= end ==> index <= end,
                session.starting_row > end ==> index == session.starting_row,
                end <= self.items@.len(),
                session.starting_row + rows@.len() == index,
                forall|i: int|
                    #![trigger rows@[i]]
                    0 <= i < rows@.len() ==> rows@[i].index == session.starting_row + i
                        && rows@[i].text == self.items@[session.starting_row + i] && rows@[i].active
                        == (session.selection == Some(rows@[i].index)),
            decreases end - index,
        {
            let active = match session.selection {
                Some(row) => row == index,
                None => false,
            };
            rows.push(ShownRow { index, text: self.items[index].clone(), active });
            index = index + 1;
        }
        rows
    }

    /// Whether a key has a meaning in the state that the run is in.
    pub fn accepts(&self, session: &Session, key: &Key) -> (accepted: bool)
        requires
            session.wf(),
        ensures
            accepted == session@.accepts(*key, self.items@.len() as int),
    {
        let count: usize = self.items.len();
        match key {
            Key::ArrowUp | Key::BackTab => count == 0 || can_move_up(session.selection, count),
            Key::ArrowDown | Key::Tab => match session.selection {
                Some(row) => count == 0 || (row as u64) < u64::MAX,
                None => true,
            },
            Key::Enter => match session.selection {
                Some(row) => count == 0 || row < count,
                None => true,
            },
            Key::Backspace => {
                let text = session.search_term.as_str();
                session.position == 0 || !text.is_char_boundary(session.position)
                    || text.is_char_boundary(session.position - 1)
            },
            _ => true,
        }
    }

    /// The row that Enter selects, if it selects one.
    pub open spec fn entered_row(&self, selection: Option<usize>) -> Option<usize> {
        match selection {
            Some(row) => if row < self.items@.len() {
                Some(row)
            } else {
                None
            },
            None => None,
        }
    }

    /// The number of the row that Enter selects: the selected one, if the menu has it.
    pub fn selected_index(&self, session: &Session) -> (index: Option<usize>)
        ensures
            index == self.entered_row(session.selection),
    {
        match session.selection {
            Some(row) => if row < self.items.len() {
                Some(row)
            } else {
                None
            },
            None => None,
        }
    }

    /// What is confirmed after an item was selected: the prompt and the item, if there is a
    /// prompt and the selected value is reported.
    pub open spec fn confirms(
        &self,
        confirmation: Option<(String, String)>,
        item: Seq<char>,
    ) -> bool {
        &&& confirmation is Some <==> self.report && self.prompt@.len() > 0
        &&& confirmation matches Some(texts) ==> texts.0@ == self.prompt@ && texts.1@ == item
    }

    /// Gives the prompt and the item to be confirmed after the item was selected.
    pub fn confirmation(&self, item: &str) -> (texts: Option<(String, String)>)
        ensures
            self.confirms(texts, item@),
    {
        if self.report && chars_of(self.prompt.as_str()).len() > 0 {
            Some((self.prompt.clone(), item.to_owned()))
        } else {
            None
        }
    }

    /// Answers to a key.
    ///
    /// After `Action::Search` the menu takes the results by `set_items_from_search`.
    pub fn handle_key(&self, session: &mut Session, key: Key) -> (action: Action)
        requires
            old(session).wf(),
            old(session)@.accepts(key, self.items@.len() as int),
        ensures
            final(session).wf(),
            final(session)@ == old(session)@.after(key, self.items@.len() as int),
            action is Quit <==> old(session)@.quits(key),
            key is Enter && old(session).selection is Some && old(session).selection->0
                < self.items@.len() ==> action is Select && action->index
                == old(session).selection->0 && action->item
                == self.items@[old(session).selection->0 as int],
            action is Select ==> old(session).selection == Some(action->index),
            match action {
                Action::Quit { clear } => clear == self.clear,
                Action::Select { index, item, clear, confirmation } => {
                    &&& key is Enter
                    &&& self.entered_row(old(session).selection) == Some(index)
                    &&& item == self.items@[index as int]
                    &&& clear == self.clear
                    &&& self.confirms(confirmation, item@)
                },
                Action::Search(term) => {
                    &&& old(session)@.searches(key)
                    &&& term@ == final(session).search_term@
                },
                Action::Continue => {
                    &&& !(key is Enter && self.entered_row(old(session).selection) is Some)
                    &&& !old(session)@.searches(key)
                },
            },
    {
        let count: usize = self.items.len();
        match key {
            Key::Escape => if session.allow_quit {
                Action::Quit { clear: self.clear }
            } else {
                Action::Continue
            },
            Key::ArrowUp | Key::BackTab => {
                if count > 0 {
                    session.move_up(count);
                }
                Action::Continue
            },
            Key::ArrowDown | Key::Tab => {
                if count > 0 {
                    session.move_down(count);
                }
                Action::Continue
            },
            Key::ArrowLeft => {
                session.move_left();
                Action::Continue
            },
            Key::ArrowRight => {
                session.move_right();
                Action::Continue
            },
            Key::Enter => match self.selected_index(session) {
                Some(index) => {
                    let item = self.items[index].clone();
                    let confirmation = self.confirmation(item.as_str());
                    Action::Select { index, item, clear: self.clear, confirmation }
                },
                None => Action::Continue,
            },
            Key::Backspace => if session.erase() {
                Action::Search(session.search_term.clone())
            } else {
                Action::Continue
            },
            Key::Char(ch) => if session.quits_by(ch) {
                Action::Quit { clear: self.clear }
            } else if session.type_char(ch) {
                Action::Search(session.search_term.clone())
            } else {
                Action::Continue
            },
            Key::Other => Action::Continue,
        }
    }
}

/// The menu over what a search for `text` found: it opens with that text and on the first row.
pub fn interactive_menu<T>(theme: T, text: String, results: &[String]) -> (menu:
    FuzzyHistorySelect<T>)
    ensures
        menu.items@ == results@,
        menu.default == Some(0usize),
        menu.initial_text@ == text@,
        menu.prompt@ == Seq::<char>::empty(),
        menu.report && menu.clear && menu.highlight_matches && menu.max_length is None,
        menu.theme == theme,
{
    let mut menu = FuzzyHistorySelect::with_theme(theme);
    menu.with_initial_text(text);
    menu.items(results);
    crate::preselect::Preselect::default(&mut menu, 0);
    assert(menu.items@ == results@);
    menu
}

/// Enter takes the row that is selected and no other, whichever it is, as long as the menu has
/// it: the row that is marked on the screen.
pub proof fn law_enter_takes_the_selected_row<T>(menu: FuzzyHistorySelect<T>, row: usize)
    ensures
        row < menu.items@.len() ==> menu.entered_row(Some(row)) == Some(row),
        row >= menu.items@.len() ==> menu.entered_row(Some(row)) is None,
        menu.entered_row(None) is None,
{
}

/// The screen is filled: the rows on it go on to the last one of the menu or to the last one that
/// fits, whichever comes first.
pub proof fn law_screen_is_filled<T>(menu: FuzzyHistorySelect<T>, session: Session)
    ensures
        menu.shown_end(session) <= menu.items@.len(),
        menu.shown_end(session) <= session.starting_row + session.visible_rows,
        menu.shown_end(session) == menu.items@.len() || menu.shown_end(session)
            == session.starting_row + session.visible_rows,
{
}

/// The selected value is confirmed with the prompt, both as they are, exactly if it is reported
/// and there is a prompt.
pub proof fn law_confirmation_holds_prompt_and_item<T>(
    menu: FuzzyHistorySelect<T>,
    confirmation: Option<(String, String)>,
    item: Seq<char>,
)
    requires
        menu.confirms(confirmation, item),
    ensures
        menu.report && menu.prompt@.len() > 0 ==> confirmation is Some && (confirmation->0).0@
            == menu.prompt@ && (confirmation->0).1@ == item,
        !menu.report || menu.prompt@.len() == 0 ==> confirmation is None,
{
}

/// A menu in which nothing has been set has no rows, no prompt, no text and no default, and
/// reports, clears and highlights.
pub proof fn law_fresh_menu<T>(menu: FuzzyHistorySelect<T>)
    requires
        is_fresh(menu),
    ensures
        menu.default == None::<usize>,
        menu.max_length == None::<usize>,
        menu.items@.len() == 0 && menu.prompt@.len() == 0 && menu.initial_text@.len() == 0,
        menu.report == true && menu.clear == true && menu.highlight_matches == true,
{
}

} // verus!
