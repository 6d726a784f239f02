//! Keeping count of the lines that prompts take on the terminal.
use vstd::prelude::*;

use crate::text::{chars_of, decimal, decimal_string, lemma_decimal};

verus! {

/// What `console::measure_text_width` gives for a text.
pub uninterp spec fn text_width(text: Seq<char>) -> usize;

/// `console::measure_text_width`: the width of a text in terminal characters, a value that the
/// text alone decides.
#[verifier::external_body]
fn measure_text_width(text: &str) -> (width: usize)
    ensures
        width == text_width(text@),
{
    console::measure_text_width(text)
}

/// The number of line breaks in a text.
pub open spec fn line_breaks(text: Seq<char>) -> nat
    decreases text.len(),
{
    if text.len() == 0 {
        0
    } else {
        line_breaks(text.drop_last()) + (if text.last() == '\n' {
            1nat
        } else {
            0nat
        })
    }
}

/// Counts the line breaks in a text.
fn count_line_breaks(text: &str) -> (count: usize)
    ensures
        count == line_breaks(text@),
{
    let chars = chars_of(text);
    let mut count: usize = 0;
    let mut next: usize = 0;
    assert(text@.take(0) == Seq::<char>::empty());
    while next < chars.len()
        invariant
            chars@ == text@,
            count <= next <= chars@.len(),
            count == line_breaks(text@.take(next as int)),
        decreases chars.len() - next,
    {
        assert(text@.take(next + 1).drop_last() == text@.take(next as int));
        if chars[next] == '\n' {
            count = count + 1;
        }
        next = next + 1;
    }
    assert(text@.take(next as int) == text@);
    count
}

/// The rows beyond the first that a line of `size` bytes behind a prefix of two takes on a
/// terminal of `columns` columns. A line that is no longer than a row is taken to fit. Without
/// columns a line never ends, and its rows are as many as can be counted.
pub open spec fn extra_rows(size: int, columns: int) -> int {
    if size <= columns {
        0
    } else if columns == 0 {
        usize::MAX - 1
    } else {
        (size + 2 + columns - 1) / columns - 1
    }
}

/// The rows beyond the first that the lines take together.
pub open spec fn total_extra_rows(sizes: Seq<usize>, columns: int) -> int
    decreases sizes.len(),
{
    if sizes.len() == 0 {
        0
    } else {
        total_extra_rows(sizes.drop_last(), columns) + extra_rows(sizes.last() as int, columns)
    }
}

/// The largest size of a line, with its prefix, up to which a quotient in floating point is
/// exact enough to be rounded up.
pub const LARGEST_LINE: u64 = 0x20_0000_0000_0000;

/// The paging information behind a prompt.
pub open spec fn paging_text(paging_info: (usize, usize)) -> Seq<char> {
    seq![' ', '[', 'P', 'a', 'g', 'e', ' '] + decimal(paging_info.0 as nat) + seq!['/'] + decimal(
        paging_info.1 as nat,
    ) + seq![']', ' ']
}

/// A prompt with the paging information behind it, if there is any.
pub open spec fn with_paging(formatted: Seq<char>, paging_info: Option<(usize, usize)>) -> Seq<
    char,
> {
    match paging_info {
        Some(paging_info) => formatted + paging_text(paging_info),
        None => formatted,
    }
}

/// Counts the lines that were written to the terminal, so that they can be cleared again.
///
/// The methods take a text as a theme has formatted it and give back what is to be written, or
/// they give how much is to be cleared. `prompt_written`, `cleared` and `cleared_behind_prompt`
/// take what the terminal answered. The lines of a text are counted before it is written, and
/// stay so if that fails.
pub struct TermThemeRenderer {
    /// The lines since the last prompt.
    pub height: usize,
    /// The lines of the last prompt.
    pub prompt_height: usize,
    /// Whether the lines are counted anew after a prompt.
    pub prompts_reset_height: bool,
}

impl TermThemeRenderer {
    /// The lines that a text and the line break behind it add can still be counted.
    pub open spec fn has_room_for(self, text: Seq<char>) -> bool {
        self.height + line_breaks(text) + 1 <= usize::MAX
    }

    /// The state after a line was written.
    pub open spec fn after_line(self, text: Seq<char>) -> TermThemeRenderer {
        TermThemeRenderer { height: (self.height + line_breaks(text) + 1) as usize, ..self }
    }

    /// The state after the terminal was asked to write a prompt whose lines are counted: if it
    /// did, the lines so far are those of the prompt.
    pub open spec fn after_prompt(self, written: bool) -> TermThemeRenderer {
        if written && self.prompts_reset_height {
            TermThemeRenderer { height: 0, prompt_height: self.height, ..self }
        } else {
            self
        }
    }

    /// The state after the terminal was asked to clear all that was written.
    pub open spec fn after_clear(self, done: bool) -> TermThemeRenderer {
        if done {
            TermThemeRenderer { height: 0, prompt_height: 0, ..self }
        } else {
            self
        }
    }

    /// The state after the terminal was asked to clear what was written behind the prompt.
    pub open spec fn after_clear_behind_prompt(self, done: bool) -> TermThemeRenderer {
        if done {
            TermThemeRenderer { height: 0, ..self }
        } else {
            self
        }
    }

    /// The state after a text was written without a line break behind it.
    pub open spec fn after_str(self, text: Seq<char>) -> TermThemeRenderer {
        TermThemeRenderer { height: (self.height + line_breaks(text)) as usize, ..self }
    }

    /// Nothing is written yet.
    pub fn new() -> (renderer: Self)
        ensures
            renderer.height == 0,
            renderer.prompt_height == 0,
            renderer.prompts_reset_height,
    {
        TermThemeRenderer { height: 0, prompt_height: 0, prompts_reset_height: true }
    }

    /// Sets whether the lines are counted anew after a prompt.
    pub fn set_prompts_reset_height(&mut self, val: bool)
        ensures
            *final(self) == (TermThemeRenderer { prompts_reset_height: val, ..*old(self) }),
    {
        self.prompts_reset_height = val;
    }

    /// Counts one more line.
    pub fn add_line(&mut self)
        requires
            old(self).height < usize::MAX,
        ensures
            *final(self) == (TermThemeRenderer {
                height: (old(self).height + 1) as usize,
                ..*old(self)
            }),
    {
        self.height = self.height + 1;
    }

    /// Decides whether the lines of a text can still be counted.
    pub fn has_room(&self, text: &str) -> (answer: bool)
        ensures
            answer == self.has_room_for(text@),
    {
        let lines: usize = count_line_breaks(text);
        match self.height.checked_add(lines) {
            Some(sum) => sum < usize::MAX,
            None => false,
        }
    }

    /// Decides whether the lines of a text without a line break behind it can still be counted.
    pub fn has_room_on_line(&self, text: &str) -> (answer: bool)
        ensures
            answer == (self.height + line_breaks(text@) <= usize::MAX),
    {
        self.height.checked_add(count_line_breaks(text)).is_some()
    }

    /// Counts a text that is written without a line break behind it, and gives its width.
    pub fn write_formatted_str(&mut self, formatted: &str) -> (written: (String, usize))
        requires
            old(self).height + line_breaks(formatted@) <= usize::MAX,
        ensures
            written.0@ == formatted@,
            written.1 == text_width(formatted@),
            *final(self) == old(self).after_str(formatted@),
    {
        self.height = self.height + count_line_breaks(formatted);
        (formatted.to_owned(), measure_text_width(formatted))
    }

    /// Counts a line.
    pub fn write_formatted_line(&mut self, formatted: &str) -> (line: String)
        requires
            old(self).has_room_for(formatted@),
        ensures
            line@ == formatted@,
            *final(self) == old(self).after_line(formatted@),
    {
        self.height = self.height + (count_line_breaks(formatted) + 1);
        formatted.to_owned()
    }

    /// Counts a prompt. It is one of the lines until `prompt_written`.
    pub fn write_formatted_prompt(&mut self, formatted: &str) -> (line: String)
        requires
            old(self).has_room_for(formatted@),
        ensures
            line@ == formatted@,
            *final(self) == old(self).after_line(formatted@),
    {
        self.write_formatted_line(formatted)
    }

    /// Takes the terminal's answer to a prompt: if it was written, the lines so far are those of
    /// the prompt, and the next ones are counted anew.
    pub fn prompt_written<E>(&mut self, outcome: Result<(), E>) -> (result: Result<(), E>)
        ensures
            result == outcome,
            *final(self) == old(self).after_prompt(outcome is Ok),
    {
        if outcome.is_ok() && self.prompts_reset_height {
            self.prompt_height = self.height;
            self.height = 0;
        }
        outcome
    }

    /// The paging information that stands behind a prompt.
    pub fn write_paging_info(paging_info: (usize, usize)) -> (text: String)
        ensures
            text@ == paging_text(paging_info),
    {
        proof {
            reveal_strlit(" [Page ");
            reveal_strlit("/");
            reveal_strlit("] ");
        }
        let mut text = " [Page ".to_owned();
        text.append(decimal_string(paging_info.0 as u64).as_str());
        text.append("/");
        text.append(decimal_string(paging_info.1 as u64).as_str());
        text.append("] ");
        assert(text@ == paging_text(paging_info));
        text
    }

    /// Counts a prompt with paging information.
    fn write_paged_prompt(&mut self, formatted: &str, paging_info: Option<(usize, usize)>) -> (line:
        String)
        requires
            old(self).has_room_for(formatted@),
        ensures
            line@ == with_paging(formatted@, paging_info),
            *final(self) == old(self).after_line(formatted@),
    {
        let mut text = formatted.to_owned();
        if let Some(paging_info) = paging_info {
            proof {
                lemma_paging_breaks_no_line(formatted@, paging_info);
            }
            text.append(Self::write_paging_info(paging_info).as_str());
        }
        self.write_formatted_prompt(text.as_str())
    }

    /// Counts an error message.
    pub fn error(&mut self, formatted: &str) -> (line: String)
        requires
            old(self).has_room_for(formatted@),
        ensures
            line@ == formatted@,
            *final(self) == old(self).after_line(formatted@),
    {
        self.write_formatted_line(formatted)
    }

    /// Counts a question, whose answer follows on the same line.
    pub fn confirm_prompt(&mut self, formatted: &str) -> (written: (String, usize))
        requires
            old(self).height + line_breaks(formatted@) <= usize::MAX,
        ensures
            written.0@ == formatted@,
            written.1 == text_width(formatted@),
            *final(self) == old(self).after_str(formatted@),
    {
        self.write_formatted_str(formatted)
    }

    /// Counts a question with its answer.
    pub fn confirm_prompt_selection(&mut self, formatted: &str) -> (line: String)
        requires
            old(self).has_room_for(formatted@),
        ensures
            line@ == formatted@,
            *final(self) == old(self).after_line(formatted@),
    {
        self.write_formatted_prompt(formatted)
    }

    /// Counts the search text of a fuzzy menu.
    pub fn fuzzy_select_prompt(&mut self, formatted: &str) -> (line: String)
        requires
            old(self).has_room_for(formatted@),
        ensures
            line@ == formatted@,
            *final(self) == old(self).after_line(formatted@),
    {
        self.write_formatted_prompt(formatted)
    }

    /// Counts a prompt for a text, which follows on the same line.
    pub fn input_prompt(&mut self, formatted: &str) -> (written: (String, usize))
        requires
            old(self).height + line_breaks(formatted@) <= usize::MAX,
        ensures
            written.0@ == formatted@,
            written.1 == text_width(formatted@),
            *final(self) == old(self).after_str(formatted@),
    {
        self.write_formatted_str(formatted)
    }

    /// Counts a prompt with the text that was entered.
    pub fn input_prompt_selection(&mut self, formatted: &str) -> (line: String)
        requires
            old(self).has_room_for(formatted@),
        ensures
            line@ == formatted@,
            *final(self) == old(self).after_line(formatted@),
    {
        self.write_formatted_prompt(formatted)
    }

    /// Counts a prompt for a password, which follows on the same line. The line is begun anew.
    pub fn password_prompt(&mut self, formatted: &str) -> (written: (String, usize))
        requires
            old(self).height + line_breaks(formatted@) <= usize::MAX,
        ensures
            written.0@ == seq!['\r'] + formatted@,
            written.1 == text_width(seq!['\r'] + formatted@),
            *final(self) == old(self).after_str(formatted@),
    {
        proof {
            reveal_strlit("\r");
            lemma_no_line_breaks(seq!['\r']);
            lemma_line_breaks_add(seq!['\r'], formatted@);
        }
        let mut text = "\r".to_owned();
        text.append(formatted);
        assert(text@ == seq!['\r'] + formatted@);
        self.write_formatted_str(text.as_str())
    }

    /// Counts a prompt behind which a password was entered.
    pub fn password_prompt_selection(&mut self, formatted: &str) -> (line: String)
        requires
            old(self).has_room_for(formatted@),
        ensures
            line@ == formatted@,
            *final(self) == old(self).after_line(formatted@),
    {
        self.write_formatted_prompt(formatted)
    }

    /// Counts the prompt of a menu.
    pub fn select_prompt(&mut self, formatted: &str, paging_info: Option<(usize, usize)>) -> (line: String)
        requires
            old(self).has_room_for(formatted@),
        ensures
            line@ == with_paging(formatted@, paging_info),
            *final(self) == old(self).after_line(formatted@),
    {
        self.write_paged_prompt(formatted, paging_info)
    }

    /// Counts the prompt of a menu with what was selected.
    pub fn select_prompt_selection(&mut self, formatted: &str) -> (line: String)
        requires
            old(self).has_room_for(formatted@),
        ensures
            line@ == formatted@,
            *final(self) == old(self).after_line(formatted@),
    {
        self.write_formatted_prompt(formatted)
    }

    /// Counts a row of a menu.
    pub fn select_prompt_item(&mut self, formatted: &str) -> (line: String)
        requires
            old(self).has_room_for(formatted@),
        ensures
            line@ == formatted@,
            *final(self) == old(self).after_line(formatted@),
    {
        self.write_formatted_line(formatted)
    }

    /// Counts a row of a fuzzy menu.
    pub fn fuzzy_select_prompt_item(&mut self, formatted: &str) -> (line: String)
        requires
            old(self).has_room_for(formatted@),
        ensures
            line@ == formatted@,
            *final(self) == old(self).after_line(formatted@),
    {
        self.write_formatted_line(formatted)
    }

    /// Counts the prompt of a menu with several choices.
    pub fn multi_select_prompt(&mut self, formatted: &str, paging_info: Option<(usize, usize)>) -> (line: String)
        requires
            old(self).has_room_for(formatted@),
        ensures
            line@ == with_paging(formatted@, paging_info),
            *final(self) == old(self).after_line(formatted@),
    {
        self.write_paged_prompt(formatted, paging_info)
    }

    /// Counts the prompt of a menu with what was chosen.
    pub fn multi_select_prompt_selection(&mut self, formatted: &str) -> (line: String)
        requires
            old(self).has_room_for(formatted@),
        ensures
            line@ == formatted@,
            *final(self) == old(self).after_line(formatted@),
    {
        self.write_formatted_prompt(formatted)
    }

    /// Counts a row of a menu with several choices.
    pub fn multi_select_prompt_item(&mut self, formatted: &str) -> (line: String)
        requires
            old(self).has_room_for(formatted@),
        ensures
            line@ == formatted@,
            *final(self) == old(self).after_line(formatted@),
    {
        self.write_formatted_line(formatted)
    }

    /// Counts the prompt of a list to be sorted.
    pub fn sort_prompt(&mut self, formatted: &str, paging_info: Option<(usize, usize)>) -> (line: String)
        requires
            old(self).has_room_for(formatted@),
        ensures
            line@ == with_paging(formatted@, paging_info),
            *final(self) == old(self).after_line(formatted@),
    {
        self.write_paged_prompt(formatted, paging_info)
    }

    /// Counts the prompt of a list with its order.
    pub fn sort_prompt_selection(&mut self, formatted: &str) -> (line: String)
        requires
            old(self).has_room_for(formatted@),
        ensures
            line@ == formatted@,
            *final(self) == old(self).after_line(formatted@),
    {
        self.write_formatted_prompt(formatted)
    }

    /// Counts a row of a list to be sorted.
    pub fn sort_prompt_item(&mut self, formatted: &str) -> (line: String)
        requires
            old(self).has_room_for(formatted@),
        ensures
            line@ == formatted@,
            *final(self) == old(self).after_line(formatted@),
    {
        self.write_formatted_line(formatted)
    }

    /// The number of lines that have to be cleared so that nothing is left of what was written.
    pub fn clear(&self) -> (lines: usize)
        requires
            self.height + self.prompt_height <= usize::MAX,
        ensures
            lines == self.height + self.prompt_height,
    {
        self.height + self.prompt_height
    }

    /// Takes the terminal's answer to the clearing of all that was written: if it was done, the
    /// lines are counted anew.
    pub fn cleared<E>(&mut self, outcome: Result<(), E>) -> (result: Result<(), E>)
        ensures
            result == outcome,
            *final(self) == old(self).after_clear(outcome is Ok),
    {
        if outcome.is_ok() {
            self.height = 0;
            self.prompt_height = 0;
        }
        outcome
    }

    /// The rows that the lines take can be counted.
    pub open spec fn can_count(self, size_vec: Seq<usize>, columns: u16) -> bool {
        &&& forall|i: int| 0 <= i < size_vec.len() ==> #[trigger] size_vec[i] + 2 <= LARGEST_LINE
        &&& self.height + total_extra_rows(size_vec, columns as int) <= usize::MAX
    }

    /// The number of rows that have to be cleared so that nothing but the prompt is left, if it
    /// can be counted.
    fn rows_behind_prompt(&self, size_vec: &[usize], columns: u16) -> (rows: Option<usize>)
        ensures
            rows is Some <==> self.can_count(size_vec@, columns),
            rows matches Some(rows) ==> rows == self.height + total_extra_rows(
                size_vec@,
                columns as int,
            ),
    {
        let mut rows: Option<usize> = Some(self.height);
        let mut next: usize = 0;
        assert(size_vec@.take(0) == Seq::<usize>::empty());
        while next < size_vec.len()
            invariant
                next <= size_vec@.len(),
                forall|i: int| 0 <= i < next ==> #[trigger] size_vec@[i] + 2 <= LARGEST_LINE,
                total_extra_rows(size_vec@.take(next as int), columns as int) >= 0,
                rows is Some <==> self.height + total_extra_rows(
                    size_vec@.take(next as int),
                    columns as int,
                ) <= usize::MAX,
                rows matches Some(rows) ==> rows == self.height + total_extra_rows(
                    size_vec@.take(next as int),
                    columns as int,
                ),
            decreases size_vec.len() - next,
        {
            assert(size_vec@.take(next + 1).drop_last() == size_vec@.take(next as int));
            let size: u64 = size_vec[next] as u64;
            if size > LARGEST_LINE - 2 {
                assert(size_vec@[next as int] + 2 > LARGEST_LINE);
                return None;
            }
            let extra: u64 = if size <= columns as u64 {
                0
            } else if columns == 0 {
                usize::MAX as u64 - 1
            } else {
                let prefixed: u64 = size + 2;
                let columns: u64 = columns as u64;
                proof {
                    lemma_extra_rows(size as int, columns as int);
                }
                (prefixed + columns - 1) / columns - 1
            };
            rows = match rows {
                Some(rows) => if extra <= usize::MAX as u64 {
                    rows.checked_add(extra as usize)
                } else {
                    None
                },
                None => None,
            };
            next = next + 1;
        }
        assert(size_vec@.take(next as int) == size_vec@);
        rows
    }

    /// Decides whether the rows that the lines take can be counted.
    pub fn counts(&self, size_vec: &[usize], columns: u16) -> (answer: bool)
        ensures
            answer == self.can_count(size_vec@, columns),
    {
        self.rows_behind_prompt(size_vec, columns).is_some()
    }

    /// The number of rows that have to be cleared so that nothing but the prompt is left, with
    /// lines of the given sizes on a terminal of the given width.
    pub fn clear_preserve_prompt(&self, size_vec: &[usize], columns: u16) -> (rows: usize)
        requires
            self.can_count(size_vec@, columns),
        ensures
            rows == self.height + total_extra_rows(size_vec@, columns as int),
    {
        match self.rows_behind_prompt(size_vec, columns) {
            Some(rows) => rows,
            None => 0,
        }
    }

    /// Takes the terminal's answer to the clearing of what stands behind the prompt: if it was
    /// done, the lines behind the prompt are counted anew.
    pub fn cleared_behind_prompt<E>(&mut self, outcome: Result<(), E>) -> (result: Result<(), E>)
        ensures
            result == outcome,
            *final(self) == old(self).after_clear_behind_prompt(outcome is Ok),
    {
        if outcome.is_ok() {
            self.height = 0;
        }
        outcome
    }
}

/// A line takes at least one row.
proof fn lemma_extra_rows(size: int, columns: int)
    requires
        0 < columns < size,
    ensures
        1 <= (size + 2 + columns - 1) / columns,
{
    assert(1 <= (size + 2 + columns - 1) / columns) by (nonlinear_arith)
        requires
            0 < columns < size,
    ;
}

/// The line breaks of two texts add up.
proof fn lemma_line_breaks_add(head: Seq<char>, tail: Seq<char>)
    ensures
        line_breaks(head + tail) == line_breaks(head) + line_breaks(tail),
    decreases tail.len(),
{
    if tail.len() == 0 {
        assert(head + tail == head);
    } else {
        assert((head + tail).drop_last() == head + tail.drop_last());
        lemma_line_breaks_add(head, tail.drop_last());
    }
}

/// A text in which no line ends has no line breaks.
proof fn lemma_no_line_breaks(text: Seq<char>)
    requires
        forall|i: int| 0 <= i < text.len() ==> text[i] != '\n',
    ensures
        line_breaks(text) == 0,
    decreases text.len(),
{
    if text.len() > 0 {
        lemma_no_line_breaks(text.drop_last());
    }
}

/// Paging information breaks no line.
proof fn lemma_paging_breaks_no_line(formatted: Seq<char>, paging_info: (usize, usize))
    ensures
        line_breaks(formatted + paging_text(paging_info)) == line_breaks(formatted),
{
    let text = paging_text(paging_info);
    let page = decimal(paging_info.0 as nat);
    let pages = decimal(paging_info.1 as nat);
    lemma_decimal(paging_info.0 as nat);
    lemma_decimal(paging_info.1 as nat);
    assert forall|i: int| 0 <= i < text.len() implies text[i] != '\n' by {
        if 7 <= i < 7 + page.len() {
            assert(text[i] == page[i - 7]);
        } else if 8 + page.len() <= i < 8 + page.len() + pages.len() {
            assert(text[i] == pages[i - 8 - page.len()]);
        }
    }
    lemma_no_line_breaks(text);
    lemma_line_breaks_add(formatted, text);
}

/// The lines that the texts take when each is written as a line of its own.
pub open spec fn lines_of(texts: Seq<Seq<char>>) -> int
    decreases texts.len(),
{
    if texts.len() == 0 {
        0
    } else {
        lines_of(texts.drop_last()) + line_breaks(texts.last()) + 1
    }
}

/// The state after the texts were written as lines.
pub open spec fn after_lines(renderer: TermThemeRenderer, texts: Seq<Seq<char>>) -> TermThemeRenderer
    decreases texts.len(),
{
    if texts.len() == 0 {
        renderer
    } else {
        after_lines(renderer, texts.drop_last()).after_line(texts.last())
    }
}

/// A prompt that was written takes the lines so far for itself, in place of those of the prompt
/// before it, unless the lines are not counted anew; one that was not leaves the lines of the
/// prompt before it as they were.
pub proof fn law_prompt_is_counted_when_written(
    renderer: TermThemeRenderer,
    text: Seq<char>,
    written: bool,
)
    requires
        renderer.has_room_for(text),
    ensures
        ({
            let lines = renderer.height + line_breaks(text) + 1;
            let after = renderer.after_line(text).after_prompt(written);
            &&& written && renderer.prompts_reset_height ==> after.prompt_height == lines
                && after.height == 0
            &&& !(written && renderer.prompts_reset_height) ==> after.prompt_height
                == renderer.prompt_height && after.height == lines
            &&& after.prompts_reset_height == renderer.prompts_reset_height
        }),
{
}

/// After a clearing that was done nothing is left to clear, and behind the prompt nothing but the
/// prompt; after one that failed as much is left as before.
pub proof fn law_clearing_counts_when_done(renderer: TermThemeRenderer)
    ensures
        renderer.after_clear(true).height == 0 && renderer.after_clear(true).prompt_height == 0,
        renderer.after_clear_behind_prompt(true).height == 0,
        renderer.after_clear_behind_prompt(true).prompt_height == renderer.prompt_height,
        renderer.after_clear(false) == renderer,
        renderer.after_clear_behind_prompt(false) == renderer,
{
}

/// Clearing after a prompt and some lines takes away as many lines as they took together, and
/// clearing behind the prompt takes away those of the lines alone, as long as none of them is
/// longer than a row.
pub proof fn law_clearing_takes_away_what_was_written(
    renderer: TermThemeRenderer,
    prompt: Seq<char>,
    texts: Seq<Seq<char>>,
    sizes: Seq<usize>,
    columns: u16,
)
    requires
        renderer.height == 0,
        renderer.prompt_height == 0,
        renderer.prompts_reset_height,
        line_breaks(prompt) + 1 + lines_of(texts) <= usize::MAX,
        forall|i: int| 0 <= i < sizes.len() ==> #[trigger] sizes[i] <= columns,
    ensures
        ({
            let drawn = after_lines(renderer.after_line(prompt).after_prompt(true), texts);
            &&& drawn.height + drawn.prompt_height == line_breaks(prompt) + 1 + lines_of(texts)
            &&& drawn.height + total_extra_rows(sizes, columns as int) == lines_of(texts)
        }),
{
    lemma_after_lines(renderer.after_line(prompt).after_prompt(true), texts);
    lemma_no_extra_rows(sizes, columns);
}

proof fn lemma_after_lines(renderer: TermThemeRenderer, texts: Seq<Seq<char>>)
    requires
        renderer.height + lines_of(texts) <= usize::MAX,
    ensures
        0 <= lines_of(texts),
        after_lines(renderer, texts) == (TermThemeRenderer {
            height: (renderer.height + lines_of(texts)) as usize,
            ..renderer
        }),
    decreases texts.len(),
{
    if texts.len() > 0 {
        lemma_after_lines(renderer, texts.drop_last());
    }
}

proof fn lemma_no_extra_rows(sizes: Seq<usize>, columns: u16)
    requires
        forall|i: int| 0 <= i < sizes.len() ==> #[trigger] sizes[i] <= columns,
    ensures
        total_extra_rows(sizes, columns as int) == 0,
    decreases sizes.len(),
{
    if sizes.len() > 0 {
        assert forall|i: int| 0 <= i < sizes.drop_last().len() implies #[trigger] sizes.drop_last()[i]
            <= columns by {
            assert(sizes.drop_last()[i] == sizes[i]);
        }
        lemma_no_extra_rows(sizes.drop_last(), columns);
        assert(sizes.last() == sizes[sizes.len() - 1]);
    }
}

/// The line breaks of a text are those of its characters that break a line, each counted once.
pub proof fn law_line_breaks_are_counted(text: Seq<char>, more: Seq<char>)
    ensures
        line_breaks(text) == text.filter(|c: char| c == '\n').len(),
        line_breaks(text + more) == line_breaks(text) + line_breaks(more),
        line_breaks(seq!['\n']) == 1,
    decreases text.len(),
{
    reveal(Seq::filter);
    lemma_line_breaks_add(text, more);
    assert(seq!['\n'].drop_last() == Seq::<char>::empty());
    assert(line_breaks(Seq::<char>::empty()) == 0);
    if text.len() > 0 {
        law_line_breaks_are_counted(text.drop_last(), more);
    }
}

/// A line that is longer than a row takes as many rows as hold it with its prefix of two, and no
/// row more; one that is not takes no further row.
pub proof fn law_long_line_fills_its_rows(size: int, columns: int)
    requires
        0 <= size,
        0 <= columns,
    ensures
        size <= columns ==> extra_rows(size, columns) == 0,
        0 < columns < size ==> extra_rows(size, columns) * columns < size + 2 <= (extra_rows(
            size,
            columns,
        ) + 1) * columns,
        0 == columns < size ==> extra_rows(size, columns) == usize::MAX - 1,
{
    if 0 < columns < size {
        let total = size + 2 + columns - 1;
        let rows = total / columns;
        vstd::arithmetic::div_mod::lemma_fundamental_div_mod(total, columns);
        vstd::arithmetic::div_mod::lemma_mod_bound(total, columns);
        assert((rows - 1) * columns < size + 2 <= rows * columns) by (nonlinear_arith)
            requires
                total == columns * rows + total % columns,
                0 <= total % columns < columns,
                total == size + 2 + columns - 1,
        ;
    }
}

/// The rows of all lines count, each line's once.
pub proof fn law_rows_of_all_lines_count(sizes: Seq<usize>, size: usize, columns: int)
    ensures
        total_extra_rows(Seq::<usize>::empty(), columns) == 0,
        total_extra_rows(sizes.push(size), columns) == total_extra_rows(sizes, columns)
            + extra_rows(size as int, columns),
{
    assert(sizes.push(size).drop_last() == sizes);
}

/// Paging information stands behind the prompt, which stays as it is, and names the page and the
/// number of pages in digits.
pub proof fn law_paging_stands_behind_the_prompt(formatted: Seq<char>, page: usize, pages: usize)
    ensures
        with_paging(formatted, None) == formatted,
        with_paging(formatted, Some((page, pages))) == formatted + " [Page "@ + decimal(page as nat)
            + "/"@ + decimal(pages as nat) + "] "@,
{
    reveal_strlit(" [Page ");
    reveal_strlit("/");
    reveal_strlit("] ");
    assert(" [Page "@ == seq![' ', '[', 'P', 'a', 'g', 'e', ' ']);
    assert("/"@ == seq!['/']);
    assert("] "@ == seq![']', ' ']);
    assert(with_paging(formatted, Some((page, pages))) == formatted + " [Page "@ + decimal(
        page as nat,
    ) + "/"@ + decimal(pages as nat) + "] "@);
}

/// A line counts once more than it has line breaks, a text without a line end as often as it has
/// line breaks, and neither touches the lines of the prompt.
pub proof fn law_lines_are_counted(renderer: TermThemeRenderer, text: Seq<char>)
    requires
        renderer.height + text.filter(|c: char| c == '\n').len() < usize::MAX,
    ensures
        ({
            let breaks = text.filter(|c: char| c == '\n').len();
            let line = renderer.after_line(text);
            let string = renderer.after_str(text);
            &&& renderer.has_room_for(text)
            &&& line.height == renderer.height + breaks + 1
            &&& string.height == renderer.height + breaks
            &&& line.prompt_height == renderer.prompt_height
            &&& string.prompt_height == renderer.prompt_height
            &&& line.prompts_reset_height == renderer.prompts_reset_height
            &&& string.prompts_reset_height == renderer.prompts_reset_height
        }),
{
    law_line_breaks_are_counted(text, Seq::empty());
}

/// Lines can be counted unless there is no room for their number or one of them is too large.
pub proof fn law_lines_that_can_be_counted(
    renderer: TermThemeRenderer,
    sizes: Seq<usize>,
    columns: u16,
)
    requires
        forall|i: int|
            0 <= i < sizes.len() ==> #[trigger] sizes[i] + 2 <= 0x20_0000_0000_0000,
        renderer.height + total_extra_rows(sizes, columns as int) <= usize::MAX,
    ensures
        renderer.can_count(sizes, columns),
{
}

} // verus!
