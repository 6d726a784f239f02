use dialoguer::theme::SimpleTheme;
use fzh::preselect::Preselect;
use fzh::select::{interactive_menu, FuzzyHistorySelect};
use fzh::session::{Action, Key, Session};

fn strings(texts: &[&str]) -> Vec<String> {
    texts.iter().map(|text| text.to_string()).collect()
}

fn rows(count: usize) -> Vec<String> {
    (0..count).map(|row| format!("row {}", row)).collect()
}

/// Presses a key that must have a meaning.
fn press<T>(menu: &FuzzyHistorySelect<T>, session: &mut Session, key: Key) -> Action {
    assert!(menu.accepts(session, &key));
    menu.handle_key(session, key)
}

fn go_on<T>(menu: &FuzzyHistorySelect<T>, session: &mut Session, key: Key) {
    assert!(matches!(press(menu, session, key), Action::Continue));
}

fn place(session: &Session) -> (Option<usize>, usize) {
    (session.selection, session.starting_row)
}

#[test]
fn new_menu_is_empty() {
    let menu = FuzzyHistorySelect::new();
    assert_eq!(menu.default, None);
    assert!(menu.items.is_empty());
    assert_eq!(menu.prompt, "");
    assert!(menu.report && menu.clear && menu.highlight_matches);
    assert_eq!(menu.max_length, None);
    assert_eq!(menu.initial_text, "");
    let menu: FuzzyHistorySelect<SimpleTheme> = Default::default();
    assert_eq!(menu.default, None);
    assert!(menu.items.is_empty());
    assert_eq!(menu.prompt, "");
    assert!(menu.report && menu.clear && menu.highlight_matches);
    assert_eq!(menu.max_length, None);
    assert_eq!(menu.initial_text, "");
}

#[test]
fn settings_are_kept() {
    let mut menu = FuzzyHistorySelect::with_theme(7);
    menu.clear(false)
        .report(false)
        .highlight_matches(false)
        .max_length(4)
        .default(2)
        .with_prompt("p".to_string())
        .with_initial_text("t".to_string());
    assert!(!menu.clear && !menu.report && !menu.highlight_matches);
    assert_eq!(menu.max_length, Some(4));
    assert_eq!(menu.default, Some(2));
    assert_eq!(menu.prompt, "p");
    assert_eq!(menu.initial_text, "t");
    assert_eq!(menu.theme, 7);
}

#[test]
fn items_are_kept_in_their_order() {
    let selections = strings(&[
        "Ice Cream",
        "Vanilla Cupcake",
        "Chocolate Muffin",
        "A Pile of sweet, sweet mustard",
    ]);
    let mut menu = FuzzyHistorySelect::new();
    menu.default(0).items(&selections);
    assert_eq!(menu.items, selections);
    menu.item("a").items(&strings(&["b", "c"]));
    assert_eq!(menu.items.len(), 7);
    assert_eq!(menu.items[4..], strings(&["a", "b", "c"])[..]);
    menu.set_items_from_search(strings(&["d"]));
    assert_eq!(menu.items, strings(&["d"]));
}

#[test]
fn interactive_menu_opens_on_the_first_result() {
    let menu = interactive_menu((), "ls".to_string(), &rows(3));
    let session = menu.begin(24, true);
    assert_eq!(menu.items, rows(3));
    assert_eq!(session.search_term, "ls");
    assert_eq!(session.position, 2);
    assert_eq!(place(&session), (Some(0), 0));
    assert_eq!(session.visible_rows, 22);
    assert!(session.allow_quit);
}

#[test]
fn cursor_begins_behind_the_text_in_bytes() {
    let menu = interactive_menu((), "h\u{e9}".to_string(), &[]);
    assert_eq!(menu.begin(24, true).position, 3);
    assert_eq!(menu.item_sizes(), Vec::<usize>::new());
}

#[test]
fn rows_on_the_screen() {
    let mut menu = interactive_menu((), "".to_string(), &[]);
    for (term_rows, expected) in [(0, 1), (1, 1), (3, 1), (4, 2), (24, 22), (u16::MAX, 65533)] {
        assert_eq!(menu.begin(term_rows, true).visible_rows, expected);
    }
    menu.max_length(5);
    assert_eq!(menu.begin(24, true).visible_rows, 5);
    assert_eq!(menu.begin(4, true).visible_rows, 2);
    menu.max_length(0);
    assert_eq!(menu.begin(24, true).visible_rows, 0);
}

#[test]
fn item_sizes_are_in_bytes() {
    let menu = interactive_menu((), "".to_string(), &strings(&["ls", "", "\u{e9}\u{6f22}"]));
    assert_eq!(menu.item_sizes(), vec![2, 0, 5]);
}

#[test]
fn shown_rows_follow_the_window() {
    let menu = interactive_menu((), "".to_string(), &rows(5));
    let mut session = menu.begin(5, true);
    let shown: Vec<(usize, String, bool)> = menu
        .shown_rows(&session)
        .into_iter()
        .map(|row| (row.index, row.text, row.active))
        .collect();
    assert_eq!(
        shown,
        vec![
            (0, "row 0".to_string(), true),
            (1, "row 1".to_string(), false),
            (2, "row 2".to_string(), false)
        ]
    );
    session.starting_row = 3;
    let shown: Vec<usize> = menu.shown_rows(&session).iter().map(|row| row.index).collect();
    assert_eq!(shown, vec![3, 4]);
    session.starting_row = 9;
    assert!(menu.shown_rows(&session).is_empty());
}

#[test]
fn arrows_go_round_and_scroll() {
    let menu = interactive_menu((), "".to_string(), &rows(5));
    let mut session = menu.begin(5, true);
    let mut places = Vec::new();
    for _ in 0..6 {
        go_on(&menu, &mut session, Key::ArrowDown);
        places.push(place(&session));
    }
    assert_eq!(
        places,
        vec![
            (Some(1), 0),
            (Some(2), 0),
            (Some(3), 1),
            (Some(4), 2),
            (Some(0), 0),
            (Some(1), 0)
        ]
    );
    let mut places = Vec::new();
    for _ in 0..6 {
        go_on(&menu, &mut session, Key::ArrowUp);
        places.push(place(&session));
    }
    assert_eq!(
        places,
        vec![
            (Some(0), 0),
            (Some(4), 2),
            (Some(3), 2),
            (Some(2), 2),
            (Some(1), 1),
            (Some(0), 0)
        ]
    );
}

#[test]
fn tab_moves_like_the_arrows() {
    let menu = interactive_menu((), "".to_string(), &rows(3));
    let mut session = menu.begin(24, true);
    go_on(&menu, &mut session, Key::Tab);
    assert_eq!(place(&session), (Some(1), 0));
    go_on(&menu, &mut session, Key::BackTab);
    go_on(&menu, &mut session, Key::BackTab);
    assert_eq!(place(&session), (Some(2), 0));
}

#[test]
fn selection_stays_on_the_screen() {
    let menu = interactive_menu((), "".to_string(), &rows(7));
    let mut session = menu.begin(4, true);
    for step in 0..40 {
        let key = if step % 3 == 0 { Key::ArrowUp } else { Key::ArrowDown };
        go_on(&menu, &mut session, key);
        let row = session.selection.unwrap();
        assert!(session.starting_row <= row && row < session.starting_row + 2);
        assert_eq!(menu.shown_rows(&session).iter().filter(|row| row.active).count(), 1);
    }
}

#[test]
fn as_many_steps_as_rows_lead_back() {
    let menu = interactive_menu((), "".to_string(), &rows(4));
    let mut session = menu.begin(24, true);
    session.selection = Some(2);
    for _ in 0..4 {
        go_on(&menu, &mut session, Key::ArrowDown);
    }
    assert_eq!(session.selection, Some(2));
}

#[test]
fn arrows_without_a_selection() {
    let mut menu = FuzzyHistorySelect::new();
    menu.items(&rows(3));
    let mut session = menu.begin(24, true);
    go_on(&menu, &mut session, Key::ArrowUp);
    assert_eq!(place(&session), (Some(2), 0));
    let mut session = menu.begin(24, true);
    go_on(&menu, &mut session, Key::ArrowDown);
    assert_eq!(place(&session), (Some(0), 0));
    let mut session = menu.begin(24, true);
    go_on(&menu, &mut session, Key::Enter);
}

#[test]
fn empty_menu_ignores_arrows_and_enter() {
    let menu = interactive_menu((), "".to_string(), &[]);
    let mut session = menu.begin(24, true);
    for key in [Key::ArrowUp, Key::ArrowDown, Key::Tab, Key::BackTab, Key::Enter] {
        go_on(&menu, &mut session, key);
        assert_eq!(place(&session), (Some(0), 0));
    }
}

#[test]
fn enter_selects_the_row() {
    let mut menu = interactive_menu((), "".to_string(), &rows(3));
    let mut session = menu.begin(24, true);
    go_on(&menu, &mut session, Key::ArrowDown);
    assert_eq!(menu.selected_index(&session), Some(1));
    match press(&menu, &mut session, Key::Enter) {
        Action::Select { index, item, clear, confirmation } => {
            assert_eq!(index, 1);
            assert_eq!(item, "row 1");
            assert!(clear);
            assert_eq!(confirmation, None);
        }
        _ => panic!(),
    }
    menu.clear(false);
    assert!(matches!(
        press(&menu, &mut session, Key::Enter),
        Action::Select { clear: false, .. }
    ));
}

#[test]
fn equal_rows_are_told_apart_by_their_numbers() {
    let menu = interactive_menu((), "".to_string(), &strings(&["ls", "ls"]));
    let mut session = menu.begin(24, true);
    go_on(&menu, &mut session, Key::ArrowDown);
    assert!(matches!(
        press(&menu, &mut session, Key::Enter),
        Action::Select { index: 1, .. }
    ));
    session.selection = Some(2);
    assert_eq!(menu.selected_index(&session), None);
    session.selection = None;
    assert_eq!(menu.selected_index(&session), None);
}

#[test]
fn selected_value_is_confirmed_behind_the_prompt() {
    let mut menu = FuzzyHistorySelect::new();
    menu.with_prompt("Pick".to_string()).item("a").default(0);
    let mut session = menu.begin(24, true);
    let expected = Some(("Pick".to_string(), "a".to_string()));
    match press(&menu, &mut session, Key::Enter) {
        Action::Select { item, confirmation, .. } => {
            assert_eq!(item, "a");
            assert_eq!(confirmation, expected);
        }
        _ => panic!(),
    }
    assert_eq!(menu.confirmation("a"), expected);
    menu.report(false);
    assert_eq!(menu.confirmation("a"), None);
    menu.report(true).with_prompt("".to_string());
    assert_eq!(menu.confirmation("a"), None);
}

#[test]
fn enter_has_no_meaning_beyond_the_last_row() {
    let mut menu = interactive_menu((), "ab".to_string(), &rows(3));
    let mut session = menu.begin(24, true);
    go_on(&menu, &mut session, Key::ArrowUp);
    assert!(matches!(press(&menu, &mut session, Key::Backspace), Action::Search(_)));
    menu.set_items_from_search(rows(1));
    assert_eq!(place(&session), (Some(2), 0));
    assert!(!menu.accepts(&session, &Key::Enter));
    // The arrows come back to a row of the menu.
    go_on(&menu, &mut session, Key::ArrowDown);
    assert_eq!(session.selection, Some(0));
}

#[test]
fn escape_quits_if_it_may() {
    let menu = interactive_menu((), "".to_string(), &rows(3));
    let mut session = menu.begin(24, true);
    assert!(matches!(
        press(&menu, &mut session, Key::Escape),
        Action::Quit { clear: true }
    ));
    let mut session = menu.begin(24, false);
    go_on(&menu, &mut session, Key::Escape);
}

#[test]
fn q_quits_while_there_is_no_text() {
    let mut menu = FuzzyHistorySelect::new();
    menu.items(&strings(&["a", "b"])).default(0);
    let mut session = menu.begin(24, true);
    assert!(matches!(
        press(&menu, &mut session, Key::Char('q')),
        Action::Quit { clear: true }
    ));
    assert_eq!(session.search_term, "");
    // Where the run must not be ended, and in a text, it is a letter.
    let mut session = menu.begin(24, false);
    assert!(matches!(press(&menu, &mut session, Key::Char('q')), Action::Search(_)));
    assert_eq!(session.search_term, "q");
    let mut session = menu.begin(24, true);
    assert!(matches!(press(&menu, &mut session, Key::Char('s')), Action::Search(_)));
    assert!(matches!(press(&menu, &mut session, Key::Char('q')), Action::Search(_)));
    assert_eq!(session.search_term, "sq");
    let mut session = menu.begin(24, true);
    assert!(matches!(press(&menu, &mut session, Key::Char('Q')), Action::Search(_)));
}

#[test]
fn typing_searches_and_selects_the_first_row() {
    let mut menu = interactive_menu((), "gt".to_string(), &rows(9));
    let mut session = menu.begin(5, true);
    for _ in 0..5 {
        go_on(&menu, &mut session, Key::ArrowDown);
    }
    go_on(&menu, &mut session, Key::ArrowLeft);
    match press(&menu, &mut session, Key::Char('i')) {
        Action::Search(text) => assert_eq!(text, "git"),
        _ => panic!(),
    }
    assert_eq!(session.search_term, "git");
    assert_eq!(session.position, 2);
    assert_eq!(place(&session), (Some(0), 0));
    menu.set_items_from_search(strings(&["git status", "git log"]));
    match press(&menu, &mut session, Key::Enter) {
        Action::Select { item, .. } => assert_eq!(item, "git status"),
        _ => panic!(),
    }
}

#[test]
fn backspace_undoes_typing() {
    let menu = interactive_menu((), "abc".to_string(), &rows(2));
    let mut session = menu.begin(24, true);
    go_on(&menu, &mut session, Key::ArrowLeft);
    for letter in ['x', ' ', '~'] {
        assert!(matches!(press(&menu, &mut session, Key::Char(letter)), Action::Search(_)));
        match press(&menu, &mut session, Key::Backspace) {
            Action::Search(text) => assert_eq!(text, "abc"),
            _ => panic!(),
        }
        assert_eq!(session.position, 2);
    }
}

#[test]
fn backspace_keeps_the_selection() {
    let menu = interactive_menu((), "abc".to_string(), &rows(9));
    let mut session = menu.begin(5, true);
    for _ in 0..4 {
        go_on(&menu, &mut session, Key::ArrowDown);
    }
    let before = place(&session);
    assert!(matches!(press(&menu, &mut session, Key::Backspace), Action::Search(_)));
    assert_eq!(session.search_term, "ab");
    assert_eq!(place(&session), before);
}

#[test]
fn backspace_at_the_beginning_does_nothing() {
    let menu = interactive_menu((), "a".to_string(), &[]);
    let mut session = menu.begin(24, true);
    go_on(&menu, &mut session, Key::ArrowLeft);
    go_on(&menu, &mut session, Key::Backspace);
    assert_eq!(session.search_term, "a");
}

#[test]
fn cursor_stays_in_the_text() {
    let menu = interactive_menu((), "ab".to_string(), &[]);
    let mut session = menu.begin(24, true);
    go_on(&menu, &mut session, Key::ArrowRight);
    assert_eq!(session.position, 2);
    go_on(&menu, &mut session, Key::ArrowLeft);
    go_on(&menu, &mut session, Key::ArrowRight);
    assert_eq!(session.position, 2);
    for _ in 0..5 {
        go_on(&menu, &mut session, Key::ArrowLeft);
    }
    assert_eq!(session.position, 0);
}

#[test]
fn long_character_holds_the_cursor() {
    let menu = interactive_menu((), "a".to_string(), &[]);
    let mut session = menu.begin(24, true);
    match press(&menu, &mut session, Key::Char('\u{e9}')) {
        Action::Search(text) => assert_eq!(text, "a\u{e9}"),
        _ => panic!(),
    }
    assert_eq!(session.position, 2);
    // Inside the character nothing is typed or erased.
    go_on(&menu, &mut session, Key::Char('b'));
    go_on(&menu, &mut session, Key::Backspace);
    assert_eq!(session.search_term, "a\u{e9}");
    // Behind it Backspace has no meaning.
    go_on(&menu, &mut session, Key::ArrowRight);
    assert!(!menu.accepts(&session, &Key::Backspace));
    assert!(matches!(press(&menu, &mut session, Key::Char('b')), Action::Search(_)));
    assert_eq!(session.search_term, "a\u{e9}b");
}

#[test]
fn control_characters_and_other_keys_are_ignored() {
    let menu = interactive_menu((), "a".to_string(), &rows(2));
    let mut session = menu.begin(24, true);
    for key in [
        Key::Char('\u{0}'),
        Key::Char('\u{1f}'),
        Key::Char('\u{7f}'),
        Key::Char('\n'),
        Key::Other,
    ] {
        go_on(&menu, &mut session, key);
    }
    assert_eq!(session.search_term, "a");
    assert!(matches!(
        press(&menu, &mut session, Key::Char('\u{80}')),
        Action::Search(_)
    ));
}

#[test]
fn rows_without_a_neighbour() {
    let mut menu = FuzzyHistorySelect::new();
    menu.items(&rows(2)).default(usize::MAX);
    let session = menu.begin(24, true);
    assert!(!menu.accepts(&session, &Key::ArrowDown));
    assert!(menu.accepts(&session, &Key::ArrowLeft));
    for row in [1 << 63, i64::MAX as usize] {
        menu.default(row);
        let session = menu.begin(24, true);
        assert!(!menu.accepts(&session, &Key::ArrowUp));
    }
}

#[test]
fn rows_are_counted_upwards_in_signed_numbers() {
    for count in 1..6 {
        for row in [0, 1, 2, 5, 100, usize::MAX, usize::MAX - 1, usize::MAX - 9, (1 << 63) + 7] {
            let mut menu = FuzzyHistorySelect::new();
            menu.items(&rows(count)).default(row);
            let mut session = menu.begin(24, true);
            go_on(&menu, &mut session, Key::ArrowUp);
            let above = (row as i64 - 1 + count as i64) % (count as i64);
            assert_eq!(session.selection, Some(above as usize));
        }
    }
}
