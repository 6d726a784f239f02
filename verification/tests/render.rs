use fzh::render::TermThemeRenderer;

/// What a terminal answers that did what it was asked for.
const DONE: Result<(), &str> = Ok(());

fn state(renderer: &TermThemeRenderer) -> (usize, usize) {
    (renderer.height, renderer.prompt_height)
}

#[test]
fn new_renderer_has_nothing_to_clear() {
    let renderer = TermThemeRenderer::new();
    assert_eq!(state(&renderer), (0, 0));
    assert!(renderer.prompts_reset_height);
    assert_eq!(renderer.clear(), 0);
}

#[test]
fn lines_are_counted() {
    let mut renderer = TermThemeRenderer::new();
    assert_eq!(renderer.error("error: one\ntwo"), "error: one\ntwo");
    assert_eq!(state(&renderer), (2, 0));
    assert_eq!(renderer.select_prompt_item("> a"), "> a");
    assert_eq!(renderer.fuzzy_select_prompt_item("> b"), "> b");
    assert_eq!(renderer.multi_select_prompt_item("> [x] c"), "> [x] c");
    assert_eq!(renderer.sort_prompt_item("> [ ] d"), "> [ ] d");
    assert_eq!(state(&renderer), (6, 0));
    renderer.add_line();
    assert_eq!(state(&renderer), (7, 0));
    assert_eq!(renderer.write_formatted_line("\n"), "\n");
    assert_eq!(state(&renderer), (9, 0));
}

#[test]
fn prompts_reset_the_height() {
    let mut renderer = TermThemeRenderer::new();
    assert_eq!(renderer.fuzzy_select_prompt("? ls\n"), "? ls\n");
    assert_eq!(state(&renderer), (2, 0));
    assert_eq!(renderer.prompt_written(DONE), Ok(()));
    assert_eq!(state(&renderer), (0, 2));
    assert_eq!(renderer.confirm_prompt_selection("a yes"), "a yes");
    assert_eq!(renderer.prompt_written(DONE), Ok(()));
    assert_eq!(state(&renderer), (0, 1));
    assert_eq!(renderer.input_prompt_selection("b: x"), "b: x");
    assert_eq!(renderer.password_prompt_selection("c: [hidden]"), "c: [hidden]");
    assert_eq!(renderer.select_prompt_selection("d: y"), "d: y");
    assert_eq!(renderer.multi_select_prompt_selection("e: y, z"), "e: y, z");
    assert_eq!(renderer.sort_prompt_selection("f: z, y"), "f: z, y");
    assert_eq!(renderer.write_formatted_prompt("g"), "g");
    assert_eq!(state(&renderer), (6, 1));
    assert_eq!(renderer.prompt_written(DONE), Ok(()));
    assert_eq!(state(&renderer), (0, 6));
}

#[test]
fn prompts_need_not_reset_the_height() {
    let mut renderer = TermThemeRenderer::new();
    renderer.set_prompts_reset_height(false);
    renderer.fuzzy_select_prompt("?");
    assert_eq!(renderer.prompt_written(DONE), Ok(()));
    renderer.fuzzy_select_prompt("?\n");
    assert_eq!(renderer.prompt_written(DONE), Ok(()));
    assert_eq!(state(&renderer), (3, 0));
    renderer.set_prompts_reset_height(true);
    renderer.fuzzy_select_prompt("?");
    assert_eq!(renderer.prompt_written(DONE), Ok(()));
    assert_eq!(state(&renderer), (0, 4));
}

#[test]
fn failures_of_the_terminal_leave_the_heights() {
    let mut renderer = TermThemeRenderer::new();
    renderer.fuzzy_select_prompt("? l");
    assert_eq!(renderer.prompt_written(DONE), Ok(()));
    renderer.fuzzy_select_prompt_item("ls");
    renderer.fuzzy_select_prompt("?\n");
    assert_eq!(renderer.prompt_written(Err("gone")), Err("gone"));
    assert_eq!(state(&renderer), (3, 1));
    assert_eq!(renderer.clear(), 4);
    assert_eq!(renderer.cleared(Err("gone")), Err("gone"));
    assert_eq!(state(&renderer), (3, 1));
    assert_eq!(renderer.clear_preserve_prompt(&[2], 80), 3);
    assert_eq!(renderer.cleared_behind_prompt(Err("gone")), Err("gone"));
    assert_eq!(state(&renderer), (3, 1));
    assert_eq!(renderer.clear(), 4);
}

#[test]
fn texts_without_a_line_break_give_their_width() {
    let mut renderer = TermThemeRenderer::new();
    assert_eq!(renderer.confirm_prompt("a [y/n] "), ("a [y/n] ".to_string(), 8));
    assert_eq!(state(&renderer), (0, 0));
    // Colors take no room, and some characters take two columns.
    let (text, width) = renderer.input_prompt("\u{1b}[31m\u{6f22}:\u{1b}[0m ");
    assert_eq!(text, "\u{1b}[31m\u{6f22}:\u{1b}[0m ");
    assert_eq!(width, 4);
    let (text, _) = renderer.password_prompt("p\n");
    assert_eq!(text, "\rp\n");
    assert_eq!(state(&renderer), (1, 0));
    let (text, width) = renderer.write_formatted_str("ab\ncd\n");
    assert_eq!(text, "ab\ncd\n");
    assert_eq!(width, console::measure_text_width("ab\ncd\n"));
    assert_eq!(state(&renderer), (3, 0));
}

#[test]
fn prompts_with_paging() {
    let mut renderer = TermThemeRenderer::new();
    assert_eq!(renderer.select_prompt("pick:", None), "pick:");
    assert_eq!(renderer.select_prompt("pick:", Some((1, 12))), "pick: [Page 1/12] ");
    assert_eq!(renderer.multi_select_prompt("pick:", Some((0, 0))), "pick: [Page 0/0] ");
    assert_eq!(renderer.sort_prompt("sort:", Some((10, 100))), "sort: [Page 10/100] ");
    assert_eq!(state(&renderer), (4, 0));
    assert_eq!(
        TermThemeRenderer::write_paging_info((3, usize::MAX)),
        format!(" [Page 3/{}] ", usize::MAX)
    );
}

#[test]
fn clearing_takes_away_what_was_written() {
    let mut renderer = TermThemeRenderer::new();
    renderer.fuzzy_select_prompt("? l");
    assert_eq!(renderer.prompt_written(DONE), Ok(()));
    renderer.fuzzy_select_prompt_item("ls");
    renderer.fuzzy_select_prompt_item("l\nl");
    assert_eq!(renderer.clear(), 4);
    assert_eq!(renderer.cleared(DONE), Ok(()));
    assert_eq!(state(&renderer), (0, 0));
    assert_eq!(renderer.clear(), 0);
}

#[test]
fn clearing_behind_the_prompt_leaves_the_prompt() {
    let mut renderer = TermThemeRenderer::new();
    renderer.fuzzy_select_prompt("? l");
    assert_eq!(renderer.prompt_written(DONE), Ok(()));
    renderer.fuzzy_select_prompt_item("ls");
    renderer.fuzzy_select_prompt_item("ll");
    assert_eq!(renderer.clear_preserve_prompt(&[2, 2], 80), 2);
    assert_eq!(renderer.cleared_behind_prompt(DONE), Ok(()));
    assert_eq!(state(&renderer), (0, 1));
}

#[test]
fn long_lines_take_more_rows() {
    for (size, columns) in [(80, 80), (81, 80), (157, 80), (158, 80), (159, 80), (238, 80), (5, 1)] {
        let mut renderer = TermThemeRenderer::new();
        renderer.add_line();
        let rows = renderer.clear_preserve_prompt(&[size, 3], columns);
        let mut expected = 1;
        for size in [size, 3] {
            if size > columns as usize {
                expected += (((size as f64 + 2.0) / columns as f64).ceil()) as usize - 1;
            }
        }
        assert_eq!(rows, expected);
    }
    let renderer = TermThemeRenderer::new();
    assert_eq!(renderer.clear_preserve_prompt(&[79, 158, 159], 79), 4);
}

#[test]
fn lines_without_columns() {
    let mut renderer = TermThemeRenderer::new();
    renderer.add_line();
    assert!(renderer.counts(&[0, 0], 0));
    assert_eq!(renderer.clear_preserve_prompt(&[0, 0], 0), 1);
    assert_eq!(renderer.cleared_behind_prompt(DONE), Ok(()));
    let rows = ((5.0_f64 + 2.0) / 0.0).ceil() as usize - 1;
    assert!(renderer.counts(&[5], 0));
    assert_eq!(renderer.clear_preserve_prompt(&[5], 0), rows);
    assert_eq!(renderer.clear_preserve_prompt(&[], 0), 0);
}

#[test]
fn what_cannot_be_counted() {
    let mut renderer = TermThemeRenderer::new();
    assert!(renderer.has_room("a\nb"));
    assert!(renderer.counts(&[100, 200], 80));
    assert!(!renderer.counts(&[100, 200], 0));
    assert!(!renderer.counts(&[usize::MAX], 80));
    renderer.height = usize::MAX;
    assert!(!renderer.has_room("a"));
    assert!(renderer.has_room_on_line("a"));
    assert!(!renderer.has_room_on_line("a\n"));
    renderer.height = usize::MAX - 1;
    assert!(renderer.has_room("a"));
    assert!(!renderer.has_room("a\n"));
    assert!(renderer.counts(&[100], 80));
    assert!(!renderer.counts(&[200], 80));
}
