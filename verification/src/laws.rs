//! What holds of the menu whatever keys are pressed, and of the index whatever is put into it.
use vstd::prelude::*;
use vstd::utf8::*;

use crate::document::{command_values, times_selected, FieldValue};
use crate::history::text_view;
use crate::request::{is_request_of, Request};
use crate::schema::{field_number, FieldLayout};
use crate::search::{gap, search_pattern};
use crate::select::rows_for_items;
use crate::session::{is_control, row_above, row_below, with_char, Key, Session, SessionView};
use crate::text::{decimal, law_decimal_is_read_back, number};

verus! {

/// The selected row is on the screen.
pub open spec fn shows_selection(state: SessionView) -> bool {
    &&& state.selection is Some
    &&& state.starting_row <= state.selection->0 < state.starting_row + state.visible_rows
}

/// Every byte of the search text is an ASCII character.
pub open spec fn is_ascii_text(state: SessionView) -> bool {
    forall|i: int| 0 <= i < state.text.len() ==> #[trigger] state.text[i] <= 0x7f
}

/// The row that is reached from `row` by moving down `steps` times among `count` rows.
pub open spec fn rows_down(row: usize, count: int, steps: nat) -> usize
    decreases steps,
{
    if steps == 0 {
        row
    } else {
        row_below(Some(rows_down(row, count, (steps - 1) as nat)), count) as usize
    }
}

/// The state that is reached by keys, each with the number of rows that the menu then has.
pub open spec fn after_keys(state: SessionView, keys: Seq<(Key, int)>) -> SessionView
    decreases keys.len(),
{
    if keys.len() == 0 {
        state
    } else {
        after_keys(state, keys.drop_last()).after(keys.last().0, keys.last().1)
    }
}

/// Every key keeps the cursor in the text, the text well-formed and the rows of the screen
/// numbered, Backspace where it has a meaning.
pub proof fn law_keys_keep_the_state_well_formed(state: SessionView, key: Key, count: int)
    requires
        state.wf(),
        key is Backspace ==> state.accepts(key, count),
        0 <= count <= usize::MAX,
    ensures
        state.after(key, count).wf(),
{
    match key {
        Key::ArrowUp | Key::BackTab => {},
        Key::ArrowDown | Key::Tab => {
            if count > 0 && state.selection is Some {
                vstd::arithmetic::div_mod::lemma_mod_bound(state.selection->0 + 1, count);
            }
        },
        Key::Char(ch) => {
            if state.types(ch) {
                char_is_scalar(ch);
                valid_utf8_split(state.text, state.position);
                lemma_code_is_valid(ch);
                let head = state.text.subrange(0, state.position);
                let tail = state.text.subrange(state.position, state.text.len() as int);
                valid_utf8_concat(head, encode_scalar(ch as u32));
                valid_utf8_concat(head + encode_scalar(ch as u32), tail);
            }
        },
        Key::Backspace => {
            if state.erases() {
                let place = state.position - 1;
                valid_utf8_split(state.text, place);
                valid_utf8_split(state.text, state.position);
                let head = state.text.subrange(0, place);
                let tail = state.text.subrange(state.position, state.text.len() as int);
                valid_utf8_concat(head, tail);
                assert(state.text.remove(place) == head + tail);
            }
        },
        _ => {},
    }
}

/// Whatever keys are pressed in a text of ASCII characters, as long as no character beyond ASCII
/// is typed the text stays one and Backspace has a meaning in it.
pub proof fn law_ascii_run_is_always_editable(state: SessionView, keys: Seq<(Key, int)>, count: int)
    requires
        state.wf(),
        is_ascii_text(state),
        forall|i: int| 0 <= i < keys.len() ==> 0 <= (#[trigger] keys[i]).1 <= usize::MAX,
        forall|i: int|
            0 <= i < keys.len() ==> ((#[trigger] keys[i]).0 matches Key::Char(ch) ==> ch
                <= '\u{7f}'),
    ensures
        after_keys(state, keys).wf(),
        is_ascii_text(after_keys(state, keys)),
        after_keys(state, keys).accepts(Key::Backspace, count),
    decreases keys.len(),
{
    if keys.len() > 0 {
        let first = keys.drop_last();
        let (key, rows) = keys.last();
        let place = keys.len() - 1;
        assert(keys[place] == keys.last());
        assert forall|i: int| 0 <= i < first.len() implies #[trigger] first[i] == keys[i] by {}
        law_ascii_run_is_always_editable(state, first, rows);
        let before = after_keys(state, first);
        law_ascii_text_is_always_editable(before, key, rows);
        law_keys_keep_the_state_well_formed(before, key, rows);
        law_ascii_text_is_always_editable(before.after(key, rows), key, count);
    } else {
        law_ascii_text_is_always_editable(state, Key::Other, count);
    }
}

/// The rows next to a row are the one before it and the one behind it, and from the first and the
/// last row the way goes round.
proof fn lemma_neighbours(row: int, count: int)
    requires
        0 <= row < count,
    ensures
        (row - 1 + count) % count == (if row == 0 {
            count - 1
        } else {
            row - 1
        }),
        (row + 1) % count == (if row == count - 1 {
            0
        } else {
            row + 1
        }),
{
    if row == 0 {
        vstd::arithmetic::div_mod::lemma_small_mod((count - 1) as nat, count as nat);
    } else {
        vstd::arithmetic::div_mod::lemma_mod_add_multiples_vanish(row - 1, count);
        vstd::arithmetic::div_mod::lemma_small_mod((row - 1) as nat, count as nat);
    }
    if row == count - 1 {
        vstd::arithmetic::div_mod::lemma_mod_self_0(count);
    } else {
        vstd::arithmetic::div_mod::lemma_small_mod((row + 1) as nat, count as nat);
    }
}

/// Scrolling follows the selection: while the selected row is one of the menu's, a key leaves
/// the selected row on the screen if it was there.
pub proof fn law_selection_stays_on_screen(state: SessionView, key: Key, count: int)
    requires
        state.wf(),
        shows_selection(state),
        state.selection->0 < count <= isize::MAX,
    ensures
        shows_selection(state.after(key, count)),
{
    lemma_neighbours(state.selection->0 as int, count);
}

/// The menu has as many rows at a key as at the one before, unless that one searched.
pub open spec fn rows_change_by_search(state: SessionView, keys: Seq<(Key, int)>) -> bool {
    forall|i: int|
        #![trigger keys[i]]
        0 < i < keys.len() && !after_keys(state, keys.take(i - 1)).searches(keys[i - 1].0)
            ==> keys[i].1 == keys[i - 1].1
}

/// In a run in which only typing makes the menu search, the selected row is always on the screen
/// and a row of the menu, if it is both in the beginning: it is below the number of rows where
/// there are rows, and after a search it is the first.
pub proof fn law_run_keeps_the_selection_on_screen(state: SessionView, keys: Seq<(Key, int)>)
    requires
        state.wf(),
        shows_selection(state),
        keys.len() > 0 ==> state.selection->0 < keys[0].1,
        forall|i: int| 0 <= i < keys.len() ==> 0 <= (#[trigger] keys[i]).1 <= isize::MAX,
        forall|i: int| 0 <= i < keys.len() ==> !((#[trigger] keys[i]).0 is Backspace),
        rows_change_by_search(state, keys),
    ensures
        shows_selection(after_keys(state, keys)),
        keys.len() > 0 && keys.last().1 > 0 && !after_keys(state, keys.drop_last()).searches(
            keys.last().0,
        ) ==> after_keys(state, keys).selection->0 < keys.last().1,
        keys.len() > 0 && after_keys(state, keys.drop_last()).searches(keys.last().0)
            ==> after_keys(state, keys).selection == Some(0usize),
{
    lemma_run_selects_a_row(state, keys);
}

/// The selected row is one of `count` rows, or the first of none at the top of the screen.
spec fn selects_a_row(state: SessionView, count: int) -> bool {
    &&& shows_selection(state)
    &&& state.selection->0 < count || state.selection->0 == 0 && state.starting_row == 0
}

proof fn lemma_run_selects_a_row(state: SessionView, keys: Seq<(Key, int)>)
    requires
        state.wf(),
        shows_selection(state),
        keys.len() > 0 ==> state.selection->0 < keys[0].1,
        forall|i: int| 0 <= i < keys.len() ==> 0 <= (#[trigger] keys[i]).1 <= isize::MAX,
        forall|i: int| 0 <= i < keys.len() ==> !((#[trigger] keys[i]).0 is Backspace),
        rows_change_by_search(state, keys),
    ensures
        shows_selection(after_keys(state, keys)),
        after_keys(state, keys).wf(),
        keys.len() > 0 ==> selects_a_row(after_keys(state, keys), keys.last().1) || after_keys(
            state,
            keys.drop_last(),
        ).searches(keys.last().0),
        keys.len() > 0 && after_keys(state, keys.drop_last()).searches(keys.last().0)
            ==> selects_a_row(after_keys(state, keys), 0),
    decreases keys.len(),
{
    if keys.len() > 0 {
        let first = keys.drop_last();
        let place = keys.len() - 1;
        let (key, count) = keys.last();
        assert(keys[place] == keys.last());
        assert(keys.take(place) == first);
        assert forall|i: int| 0 <= i < first.len() implies #[trigger] first[i] == keys[i] by {}
        assert forall|i: int|
            #![trigger first[i]]
            0 < i < first.len() && !after_keys(state, first.take(i - 1)).searches(first[i - 1].0)
                implies first[i].1 == first[i - 1].1 by {
            assert(first.take(i - 1) == keys.take(i - 1));
            assert(keys[i] == first[i]);
        }
        lemma_run_selects_a_row(state, first);
        let before = after_keys(state, first);
        if first.len() > 0 {
            assert(first.last() == keys[place - 1]);
            assert(keys.take(place - 1) == first.drop_last());
        }
        assert(selects_a_row(before, count));
        law_keys_keep_the_state_well_formed(before, key, count);
        if before.selection->0 < count {
            law_selection_stays_on_screen(before, key, count);
            if count > 0 {
                vstd::arithmetic::div_mod::lemma_mod_bound(before.selection->0 + 1, count);
                vstd::arithmetic::div_mod::lemma_mod_bound(before.selection->0 - 1 + count, count);
            }
        }
    }
}

/// Moving up undoes moving down, and the other way round, for every row of the menu.
pub proof fn law_up_and_down_are_inverse(row: usize, count: int)
    requires
        row < count <= isize::MAX,
    ensures
        row_above(Some(row_below(Some(row), count) as usize), count) == row,
        row_below(Some(row_above(Some(row), count) as usize), count) == row,
{
    lemma_neighbours(row as int, count);
    lemma_neighbours(row_below(Some(row), count), count);
    lemma_neighbours(row_above(Some(row), count), count);
}

/// Moving down `steps` times goes `steps` rows further, round the end of the menu; so as many
/// steps as there are rows lead back to where they began.
pub proof fn law_moving_down_goes_round(row: usize, count: int, steps: nat)
    requires
        row < count <= usize::MAX,
    ensures
        rows_down(row, count, steps) == (row + steps) % count,
        rows_down(row, count, count as nat) == row,
{
    lemma_rows_down(row, count, steps);
    lemma_rows_down(row, count, count as nat);
    assert((row + count) % count == row) by (nonlinear_arith)
        requires
            0 <= row < count,
    ;
}

proof fn lemma_rows_down(row: usize, count: int, steps: nat)
    requires
        row < count <= usize::MAX,
    ensures
        rows_down(row, count, steps) == (row + steps) % count,
    decreases steps,
{
    if steps == 0 {
        assert((row + 0) % count == row) by (nonlinear_arith)
            requires
                0 <= row < count,
        ;
    } else {
        lemma_rows_down(row, count, (steps - 1) as nat);
        let before = row + steps - 1;
        vstd::arithmetic::div_mod::lemma_add_mod_noop(before, 1, count);
        vstd::arithmetic::div_mod::lemma_mod_bound(before, count);
        vstd::arithmetic::div_mod::lemma_mod_bound(before + 1, count);
        vstd::arithmetic::div_mod::lemma_add_mod_noop(before % count, 1, count);
        vstd::arithmetic::div_mod::lemma_mod_twice(before, count);
    }
}

/// Backspace undoes an ASCII character that was typed: the text and the cursor are as before.
pub proof fn law_backspace_undoes_typing(state: SessionView, ch: char, count: int, results: int)
    requires
        state.wf(),
        state.types(ch),
        ch <= '\u{7f}',
    ensures
        ({
            let typed = state.after(Key::Char(ch), count);
            let erased = typed.after(Key::Backspace, results);
            &&& typed.accepts(Key::Backspace, results)
            &&& erased.text == state.text
            &&& erased.position == state.position
        }),
{
    let typed = state.after(Key::Char(ch), count);
    lemma_ascii_char(state, ch);
    assert(typed.text.remove(typed.position - 1) == state.text);
}

/// What typing an ASCII character does to the boundaries around the cursor.
proof fn lemma_ascii_char(state: SessionView, ch: char)
    requires
        state.wf(),
        state.types(ch),
        ch <= '\u{7f}',
    ensures
        ({
            let text = with_char(state.text, state.position, ch);
            &&& encode_scalar(ch as u32).len() == 1
            &&& encode_scalar(ch as u32)[0] <= 0x7f
            &&& valid_utf8(text)
            &&& is_char_boundary(text, state.position)
            &&& is_char_boundary(text, state.position + 1)
        }),
{
    let scalar = ch as u32;
    let head = state.text.subrange(0, state.position);
    let tail = state.text.subrange(state.position, state.text.len() as int);
    let code = encode_scalar(scalar);
    let text = with_char(state.text, state.position, ch);
    assert(leading_byte_width_1(scalar) <= 0x7f) by (bit_vector)
        requires
            scalar <= 0x7f,
    ;
    valid_utf8_split(state.text, state.position);
    lemma_code_is_valid(ch);
    valid_utf8_concat(head, code);
    valid_utf8_concat(head + code, tail);
    assert(text[state.position] == code[0]);
    is_char_boundary_iff_not_is_continuation_byte(text, state.position);
    if state.position == state.text.len() {
        assert(text.len() == state.position + 1);
        is_char_boundary_start_end_of_seq(text);
    } else {
        is_char_boundary_iff_not_is_continuation_byte(state.text, state.position);
        assert(text[state.position + 1] == state.text[state.position]);
        is_char_boundary_iff_not_is_continuation_byte(text, state.position + 1);
    }
}

/// A character of more than one byte leaves the cursor inside itself, where no further character
/// is taken and Backspace takes nothing away.
pub proof fn law_long_character_holds_the_cursor(
    state: SessionView,
    ch: char,
    next: char,
    count: int,
)
    requires
        state.wf(),
        state.types(ch),
        ch > '\u{7f}',
    ensures
        !state.after(Key::Char(ch), count).types(next),
        !state.after(Key::Char(ch), count).erases(),
{
    let scalar = ch as u32;
    let head = state.text.subrange(0, state.position);
    let tail = state.text.subrange(state.position, state.text.len() as int);
    let code = encode_scalar(scalar);
    let text = with_char(state.text, state.position, ch);
    char_is_scalar(ch);
    valid_utf8_split(state.text, state.position);
    lemma_code_is_valid(ch);
    valid_utf8_concat(head, code);
    valid_utf8_concat(head + code, tail);
    assert(is_continuation_byte(last_continuation_byte(scalar))) by (bit_vector);
    assert(is_continuation_byte(second_last_continuation_byte(scalar))) by (bit_vector);
    assert(is_continuation_byte(third_last_continuation_byte(scalar))) by (bit_vector);
    assert(text[state.position + 1] == code[1]);
    is_char_boundary_iff_not_is_continuation_byte(text, state.position + 1);
}

/// The encoding of a character is well-formed.
proof fn lemma_code_is_valid(ch: char)
    ensures
        valid_utf8(encode_scalar(ch as u32)),
{
    let code = encode_scalar(ch as u32);
    assert(encode_utf8(seq![ch]) == code + encode_utf8(seq![ch].drop_first()));
    assert(seq![ch].drop_first() == Seq::<char>::empty());
    assert(encode_utf8(seq![ch]) == code);
    encode_utf8_valid_utf8(seq![ch]);
}

/// The arrows to the left and to the right undo each other, where the first has room to move.
pub proof fn law_left_and_right_are_inverse(state: SessionView, count: int)
    requires
        state.wf(),
    ensures
        state.position > 0 ==> state.after(Key::ArrowLeft, count).after(Key::ArrowRight, count)
            == state,
        state.position < state.text.len() ==> state.after(Key::ArrowRight, count).after(
            Key::ArrowLeft,
            count,
        ) == state,
{
}

/// A text of ASCII characters stays one under every key but a character beyond ASCII, and
/// Backspace always has a meaning in it.
pub proof fn law_ascii_text_is_always_editable(state: SessionView, key: Key, count: int)
    requires
        state.wf(),
        is_ascii_text(state),
        key matches Key::Char(ch) ==> ch <= '\u{7f}',
    ensures
        state.accepts(Key::Backspace, count),
        is_ascii_text(state.after(key, count)),
{
    if state.position > 0 {
        is_char_boundary_iff_not_is_continuation_byte(state.text, state.position - 1);
        assert(state.text[state.position - 1] <= 0x7f);
    }
    match key {
        Key::Char(ch) => {
            if state.types(ch) {
                lemma_ascii_char(state, ch);
                let text = with_char(state.text, state.position, ch);
                assert forall|i: int| 0 <= i < text.len() implies #[trigger] text[i] <= 0x7f by {
                    if i < state.position {
                        assert(text[i] == state.text[i]);
                    } else if i > state.position {
                        assert(text[i] == state.text[i - 1]);
                    }
                }
            }
        },
        Key::Backspace => {
            if state.erases() {
                let text = state.erased().text;
                assert forall|i: int| 0 <= i < text.len() implies #[trigger] text[i] <= 0x7f by {
                    if i < state.position - 1 {
                        assert(text[i] == state.text[i]);
                    } else {
                        assert(text[i] == state.text[i + 1]);
                    }
                }
            }
        },
        _ => {},
    }
}

/// A character that was typed selects the first row of what the search then finds, and Enter
/// takes it.
pub proof fn law_typing_selects_the_first_result(
    state: SessionView,
    ch: char,
    count: int,
    results: int,
)
    requires
        state.wf(),
        state.types(ch),
        results > 0,
    ensures
        state.searches(Key::Char(ch)),
        state.after(Key::Char(ch), count).selection == Some(0usize),
        state.after(Key::Char(ch), count).starting_row == 0,
        state.after(Key::Char(ch), count).accepts(Key::Enter, results),
{
}

/// A key that does not search leaves the text as it is, and no key changes the number of rows on
/// the screen or whether the run may be ended.
pub proof fn law_only_a_search_changes_the_text(state: SessionView, key: Key, count: int)
    ensures
        !state.searches(key) ==> state.after(key, count).text == state.text,
        state.after(key, count).visible_rows == state.visible_rows,
        state.after(key, count).allow_quit == state.allow_quit,
{
}

/// A control character changes nothing.
pub proof fn law_control_characters_are_ignored(state: SessionView, ch: char, count: int)
    requires
        is_control(ch),
    ensures
        state.after(Key::Char(ch), count) == state,
        !state.searches(Key::Char(ch)),
{
}

/// The arguments of the program make one request: two requests that are made by the same
/// arguments are of the same kind and hold the same texts.
pub proof fn law_arguments_make_one_request(a: Request, b: Request, args: Seq<String>)
    requires
        is_request_of(a, args),
        is_request_of(b, args),
    ensures
        match (a, b) {
            (Request::Add(a), Request::Add(b)) => a@ == b@,
            (
                Request::Search { fd_path: a_path, initial_input: a_input },
                Request::Search { fd_path: b_path, initial_input: b_input },
            ) => a_path@ == b_path@ && a_input@ == b_input@,
            (Request::Import { path: a }, Request::Import { path: b }) => text_view(a) == text_view(
                b,
            ),
            (Request::Init, Request::Init) => true,
            (Request::UnsupportedShell, Request::UnsupportedShell) => true,
            (Request::DeleteIndex, Request::DeleteIndex) => true,
            (Request::Help, Request::Help) => true,
            _ => false,
        },
{
    reveal_strlit("add");
    reveal_strlit("search");
    reveal_strlit("import");
    reveal_strlit("init");
    reveal_strlit("delete_index");
    assert("add"@.len() == 3);
    assert("search"@.len() == 6 && "search"@[0] == 's');
    assert("import"@.len() == 6 && "import"@[0] == 'i');
    assert("init"@.len() == 4);
    assert("delete_index"@.len() == 12);
}

/// A command that is run again in the same directory is kept under the same id, and is counted
/// once more than the index knows of.
pub proof fn law_same_command_is_counted(
    fields: Seq<FieldLayout>,
    directory: Seq<char>,
    command: Seq<char>,
    exit_code: u64,
    again_exit_code: u64,
    previous: Option<u64>,
    timestamp: u64,
    again_timestamp: u64,
)
    requires
        times_selected(previous) < u64::MAX,
    ensures
        ({
            let times = times_selected(previous) as u64;
            let first = command_values(fields, directory, command, exit_code, previous, timestamp);
            let again = command_values(
                fields,
                directory,
                command,
                again_exit_code,
                Some(times),
                again_timestamp,
            );
            &&& again[0] == first[0]
            &&& first[2].0 == again[2].0 == field_number(fields, "times_selected"@) as u32
            &&& first[2].1 == FieldValue::Number(times)
            &&& again[2].1 == FieldValue::Number((times + 1) as u64)
        }),
{
}

/// How often a command was selected by the index after it was added `times` times.
pub open spec fn known_times(times: nat) -> Option<u64>
    decreases times,
{
    if times == 0 {
        None
    } else {
        Some(times_selected(known_times((times - 1) as nat)) as u64)
    }
}

/// A command that was added `times` times is known to have been selected so often.
pub proof fn law_every_addition_counts(times: nat)
    requires
        0 < times <= u64::MAX,
    ensures
        known_times(times) == Some(times as u64),
    decreases times,
{
    if times > 1 {
        law_every_addition_counts((times - 1) as nat);
    } else {
        assert(known_times(0) is None);
    }
}

/// The text that asks for an id stands for that id and no other.
pub proof fn law_id_query_asks_for_the_id(id: u64, other: u64)
    ensures
        number(decimal(id as nat)) == Some(id),
        decimal(id as nat) == decimal(other as nat) ==> id == other,
{
    law_decimal_is_read_back(id);
    law_decimal_is_read_back(other);
}

/// A letter behind a search text adds itself and a gap to the pattern.
pub proof fn law_longer_text_makes_a_longer_pattern(text: Seq<char>, letter: char)
    ensures
        text.len() > 0 ==> search_pattern(text.push(letter)) == search_pattern(text) + seq![letter]
            + gap(),
        text.len() == 0 ==> search_pattern(text.push(letter)) == gap() + seq![letter] + gap(),
{
    let longer = text.push(letter);
    assert(longer.drop_last() == text);
    if text.len() > 0 {
        assert(search_pattern(longer) == search_pattern(text) + seq![letter] + gap());
    } else {
        assert(longer == seq![letter]);
    }
}

/// The menu takes all of the terminal but two rows, unless it was limited to less; one row is
/// shown at least, unless it was limited to none.
pub proof fn law_rows_on_the_screen(term_rows: u16, limit: usize)
    ensures
        term_rows >= 3 ==> rows_for_items(term_rows, None) == term_rows - 2,
        term_rows < 3 ==> rows_for_items(term_rows, None) == 1,
        rows_for_items(term_rows, None) >= 1,
        rows_for_items(term_rows, Some(limit)) <= limit,
        rows_for_items(term_rows, Some(limit)) <= rows_for_items(term_rows, None),
        limit >= rows_for_items(term_rows, None) ==> rows_for_items(term_rows, Some(limit))
            == rows_for_items(term_rows, None),
        limit <= rows_for_items(term_rows, None) ==> rows_for_items(term_rows, Some(limit))
            == limit,
        limit > 0 ==> rows_for_items(term_rows, Some(limit)) >= 1,
{
}

/// A character that is typed comes in front of what stands behind the cursor and behind what
/// stands in front of it, all of which stays; the cursor goes on by one byte, the first row is
/// selected and at the top, and the history is searched.
pub proof fn law_typing_puts_the_character_at_the_cursor(state: SessionView, ch: char, count: int)
    requires
        state.wf(),
        ch as u32 >= 0x20,
        ch as u32 != 0x7f,
        ch != 'q' || state.text.len() > 0 || !state.allow_quit,
        is_char_boundary(state.text, state.position),
    ensures
        ({
            let after = state.after(Key::Char(ch), count);
            &&& after.text == state.text.take(state.position) + encode_scalar(ch as u32)
                + state.text.skip(state.position)
            &&& after.position == state.position + 1
            &&& after.selection == Some(0usize)
            &&& after.starting_row == 0
            &&& state.searches(Key::Char(ch))
        }),
{
    assert(state.text.take(state.position) == state.text.subrange(0, state.position));
    assert(state.text.skip(state.position) == state.text.subrange(
        state.position,
        state.text.len() as int,
    ));
}

/// A character that is not taken, because it is a control character, ends the run or would come
/// into another one, changes nothing.
pub proof fn law_refused_characters_change_nothing(state: SessionView, ch: char, count: int)
    requires
        (ch as u32) < 0x20 || ch as u32 == 0x7f || ch == 'q' && state.text.len() == 0
            && state.allow_quit || !is_char_boundary(state.text, state.position),
    ensures
        state.after(Key::Char(ch), count) == state,
        !state.searches(Key::Char(ch)),
{
}

/// Backspace takes away the byte in front of the cursor and nothing else, and the history is
/// searched; at the beginning and inside a character it changes nothing. The selection stays.
pub proof fn law_backspace_takes_one_byte(state: SessionView, count: int)
    requires
        state.wf(),
    ensures
        ({
            let after = state.after(Key::Backspace, count);
            let erases = state.position > 0 && is_char_boundary(state.text, state.position);
            &&& erases ==> after.text == state.text.take(state.position - 1) + state.text.skip(
                state.position,
            ) && after.position == state.position - 1
            &&& !erases ==> after == state
            &&& state.searches(Key::Backspace) == erases
            &&& after.selection == state.selection
            &&& after.starting_row == state.starting_row
        }),
{
    if state.position > 0 {
        assert(state.text.remove(state.position - 1) == state.text.take(state.position - 1)
            + state.text.skip(state.position));
    }
}

/// The arrows to the sides move the cursor by one byte up to the ends of the text, and change
/// nothing else.
pub proof fn law_arrows_move_the_cursor(state: SessionView, count: int)
    requires
        state.wf(),
    ensures
        ({
            let left = state.after(Key::ArrowLeft, count);
            let right = state.after(Key::ArrowRight, count);
            &&& left.position == (if state.position == 0 {
                0
            } else {
                state.position - 1
            })
            &&& right.position == (if state.position == state.text.len() {
                state.position
            } else {
                state.position + 1
            })
            &&& left.text == state.text && right.text == state.text
            &&& left.selection == state.selection && right.selection == state.selection
            &&& left.starting_row == state.starting_row && right.starting_row
                == state.starting_row
        }),
{
}

/// Up selects the row before the selected one, and the last row from the first one or from none;
/// the screen then begins so that the last row is the lowest on it, or one row earlier where the
/// selected row was the first on it. Nothing else changes.
pub proof fn law_up_selects_the_row_before(state: SessionView, count: int)
    requires
        0 < count <= isize::MAX,
        state.selection is Some ==> state.selection->0 < count,
        0 <= state.starting_row,
        0 <= state.visible_rows,
    ensures
        ({
            let after = state.after(Key::ArrowUp, count);
            let first = state.selection is None || state.selection->0 == 0;
            &&& first ==> after.selection == Some((count - 1) as usize)
            &&& !first ==> after.selection == Some((state.selection->0 - 1) as usize)
            &&& state.selection == Some(0usize) && count > state.visible_rows
                ==> after.starting_row + state.visible_rows == count
            &&& state.selection == Some(0usize) && count <= state.visible_rows
                ==> after.starting_row == 0
            &&& !first && state.selection->0 == state.starting_row ==> after.starting_row
                == state.starting_row - 1
            &&& state.selection != Some(0usize) && (state.selection is None || state.selection->0
                != state.starting_row) ==> after.starting_row == state.starting_row
            &&& after.text == state.text && after.position == state.position
            &&& state.after(Key::BackTab, count) == after
        }),
{
    if state.selection is Some {
        lemma_neighbours(state.selection->0 as int, count);
    }
}

/// Down selects the row behind the selected one, and the first row from the last one or from
/// none; the screen then begins one row later where the row was below it, and with the first row
/// where that is selected. Nothing else changes.
pub proof fn law_down_selects_the_row_behind(state: SessionView, count: int)
    requires
        0 < count <= usize::MAX,
        state.selection is Some ==> state.selection->0 < count,
        0 <= state.starting_row,
        0 < state.visible_rows,
    ensures
        ({
            let after = state.after(Key::ArrowDown, count);
            let last = state.selection is None || state.selection->0 == count - 1;
            &&& last ==> after.selection == Some(0usize) && after.starting_row == 0
            &&& !last ==> after.selection == Some((state.selection->0 + 1) as usize)
            &&& !last && state.selection->0 + 1 == state.starting_row + state.visible_rows
                ==> after.starting_row == state.starting_row + 1
            &&& !last && state.selection->0 + 1 != state.starting_row + state.visible_rows
                ==> after.starting_row == state.starting_row
            &&& after.text == state.text && after.position == state.position
            &&& state.after(Key::Tab, count) == after
        }),
{
    if state.selection is Some {
        lemma_neighbours(state.selection->0 as int, count);
    }
}

/// From a row beyond the menu, up and down lead to a row of it: as many rows on as if the menu
/// were repeated.
pub proof fn law_rows_beyond_the_menu_are_counted_round(row: usize, count: int, rounds: nat)
    requires
        0 < count,
        row + count - 1 <= i64::MAX,
        row <= isize::MAX,
        row < count + rounds * count,
        rounds * count <= row,
    ensures
        row_below(Some(row), count) == (if row - rounds * count + 1 == count {
            0
        } else {
            row - rounds * count + 1
        }),
        row_above(Some(row), count) == (if row == rounds * count {
            count - 1
        } else {
            row - rounds * count - 1
        }),
{
    let rest = row - rounds * count;
    lemma_neighbours(rest, count);
    vstd::arithmetic::div_mod::lemma_mod_multiples_vanish(rounds as int, rest + 1, count);
    vstd::arithmetic::div_mod::lemma_mod_multiples_vanish(rounds as int, rest - 1 + count, count);
    vstd::arithmetic::mul::lemma_mul_is_commutative(rounds as int, count);
}

/// A row number beyond the signed numbers counts as the negative number with the same bits: up
/// from it leads to the remainder of a division that rounds towards zero, and so to a row of the
/// menu or again to such a number.
pub proof fn law_rows_above_negative_numbers(row: usize, count: int)
    requires
        0 < count <= i64::MAX,
        row > i64::MAX,
    ensures
        ({
            let from = row - 0x1_0000_0000_0000_0000 - 1 + count;
            let above = row_above(Some(row), count);
            let signed = if above == 0 {
                0
            } else {
                above - 0x1_0000_0000_0000_0000
            };
            &&& from >= 0 ==> above == from
            &&& from < 0 ==> -count < signed <= 0 && (from - signed) % count == 0
        }),
{
    let from = row - 0x1_0000_0000_0000_0000 - 1 + count;
    if from >= 0 {
        vstd::arithmetic::div_mod::lemma_small_mod(from as nat, count as nat);
    } else {
        vstd::arithmetic::div_mod::lemma_mod_bound(-from, count);
        vstd::arithmetic::div_mod::lemma_fundamental_div_mod(-from, count);
        let times = (-from) / count;
        assert(from + (-from) % count == (-times) * count) by (nonlinear_arith)
            requires
                -from == count * times + (-from) % count,
        ;
        vstd::arithmetic::div_mod::lemma_mod_multiples_basic(-times, count);
    }
}

/// Escape, Enter and the other keys leave the state as it is, and so do up and down in a menu
/// without rows.
pub proof fn law_other_keys_change_nothing(state: SessionView, count: int)
    ensures
        state.after(Key::Escape, count) == state,
        state.after(Key::Enter, count) == state,
        state.after(Key::Other, count) == state,
        state.after(Key::ArrowUp, 0) == state,
        state.after(Key::BackTab, 0) == state,
        state.after(Key::ArrowDown, 0) == state,
        state.after(Key::Tab, 0) == state,
{
}

/// The run is ended by Escape, and by `q` as long as there is no text, and by no other key, if it
/// may be ended at all.
pub proof fn law_escape_and_q_end_the_run(state: SessionView, ch: char)
    ensures
        state.quits(Key::Escape) == state.allow_quit,
        state.quits(Key::Char(ch)) == (state.allow_quit && ch as u32 == 113 && state.text.len()
            == 0),
        !state.quits(Key::Enter) && !state.quits(Key::Backspace) && !state.quits(Key::Other),
        !state.quits(Key::ArrowUp) && !state.quits(Key::ArrowDown) && !state.quits(Key::ArrowLeft)
            && !state.quits(Key::ArrowRight) && !state.quits(Key::Tab) && !state.quits(
            Key::BackTab,
        ),
{
}

/// The control characters are those of ASCII.
pub proof fn law_control_characters_of_ascii(ch: char)
    ensures
        is_control(ch) <==> (ch as u32) < 0x20 || ch as u32 == 0x7f,
{
}

/// Every key has a meaning but for these: Enter beyond the last row, Backspace behind a character
/// of more than one byte, and up and down from rows next to the ends of the integers.
pub proof fn law_keys_have_a_meaning(state: SessionView, ch: char, count: int)
    requires
        0 <= count,
    ensures
        state.accepts(Key::Escape, count) && state.accepts(Key::Other, count),
        state.accepts(Key::ArrowLeft, count) && state.accepts(Key::ArrowRight, count),
        state.accepts(Key::Char(ch), count),
        state.accepts(Key::Enter, count) <==> count == 0 || state.selection is None
            || state.selection->0 < count,
        state.accepts(Key::Backspace, count) <==> state.position <= 0 || !is_char_boundary(
            state.text,
            state.position,
        ) || is_char_boundary(state.text, state.position - 1),
        state.accepts(Key::ArrowDown, count) <==> count == 0 || state.selection is None
            || state.selection->0 < 0xffff_ffff_ffff_ffff,
        state.accepts(Key::Tab, count) == state.accepts(Key::ArrowDown, count),
        state.accepts(Key::BackTab, count) == state.accepts(Key::ArrowUp, count),
        state.selection is None || state.selection->0 + count <= i64::MAX ==> state.accepts(
            Key::ArrowUp,
            count,
        ),
{
}

/// The state of a run is seen as it is, with the search text in bytes, and it is well-formed
/// exactly if the text is, the cursor lies in it and the rows of the screen can be numbered.
pub proof fn law_run_is_seen_as_it_is(session: Session)
    ensures
        session@.text == encode_utf8(session.search_term@),
        session@.position == session.position,
        session@.selection == session.selection,
        session@.starting_row == session.starting_row,
        session@.visible_rows == session.visible_rows,
        session@.allow_quit == session.allow_quit,
        session.wf() <==> session.position <= encode_utf8(session.search_term@).len()
            && session.starting_row + session.visible_rows <= usize::MAX,
{
    encode_utf8_valid_utf8(session.search_term@);
}

} // verus!
