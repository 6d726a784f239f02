use fzh::history::{
    indexable_command, parse_added, parse_history, parse_history_line, Entry, EntryError,
};

fn pair(entry: Entry) -> (u64, String) {
    (entry.exit_code, entry.command)
}

#[test]
fn indexable_command_wants_a_digit_a_colon_and_a_command() {
    assert!(indexable_command("0:ls"));
    assert!(indexable_command("127:git status"));
    assert!(indexable_command("some 1:x in the middle"));
    assert!(!indexable_command(""));
    assert!(!indexable_command("0:"));
    assert!(!indexable_command("0: ls"));
    assert!(!indexable_command(":ls"));
    assert!(!indexable_command("ls"));
    assert!(!indexable_command("x:ls"));
}

#[test]
fn indexable_command_knows_unicode() {
    // Digits of other scripts count as digits, white space of other kinds as white space.
    assert!(indexable_command("\u{0663}:ls"));
    for space in ["\u{a0}", "\u{85}", "\u{1680}", "\u{2000}", "\u{200a}", "\u{2028}", "\u{2029}"] {
        assert!(!indexable_command(&format!("0:{}", space)));
    }
    for space in ["\u{202f}", "\u{205f}", "\u{3000}", "\t", "\n", "\u{b}", "\u{c}", "\r", " "] {
        assert!(!indexable_command(&format!("0:{}", space)));
    }
    for other in ["\u{200b}", "\u{8}", "\u{e}", "\u{1c}", "\u{feff}", "\u{2007}\u{180e}x"] {
        let first_is_space = other.starts_with('\u{2007}');
        assert_eq!(indexable_command(&format!("0:{}", other)), !first_is_space);
    }
}

#[test]
fn added_command_is_read() {
    let entry = parse_added("0:ls -la").unwrap_or_else(|_| panic!());
    assert_eq!(pair(entry), (0, "ls -la".to_string()));
    let entry = parse_added("  130:vim notes \t\n").unwrap_or_else(|_| panic!());
    assert_eq!(pair(entry), (130, "vim notes".to_string()));
}

#[test]
fn added_command_ends_at_the_next_colon() {
    let entry = parse_added(" 12:git commit : x ").unwrap_or_else(|_| panic!());
    assert_eq!(pair(entry), (12, "git commit ".to_string()));
}

#[test]
fn added_text_that_is_not_indexable_is_refused() {
    assert!(matches!(parse_added(""), Err(EntryError::NotIndexable)));
    assert!(matches!(parse_added("ls"), Err(EntryError::NotIndexable)));
    assert!(matches!(parse_added("1: ls"), Err(EntryError::NotIndexable)));
}

#[test]
fn added_text_without_a_number_in_front_is_refused() {
    assert!(matches!(parse_added("a1:ls"), Err(EntryError::InvalidExitCode)));
    assert!(matches!(parse_added("\u{0663}:ls"), Err(EntryError::InvalidExitCode)));
    assert!(matches!(
        parse_added("18446744073709551616:ls"),
        Err(EntryError::InvalidExitCode)
    ));
    assert!(matches!(parse_added("-1:ls"), Err(EntryError::InvalidExitCode)));
    assert!(matches!(parse_added(":1:ls"), Err(EntryError::InvalidExitCode)));
}

#[test]
fn history_line_is_read() {
    let entry = parse_history_line(": 1700000000:0;git status").unwrap();
    let entry = entry.unwrap_or_else(|_| panic!());
    assert_eq!(pair(entry), (1700000000, "git status".to_string()));
}

#[test]
fn history_line_is_read_up_to_a_colon() {
    let entry = parse_history_line(": 17:5;docker run a:b  ").unwrap();
    let entry = entry.unwrap_or_else(|_| panic!());
    assert_eq!(pair(entry), (17, "docker run a".to_string()));
}

#[test]
fn history_line_takes_the_first_entry() {
    let entry = parse_history_line("x: 1:;: 2:3;a: 4:5;b").unwrap();
    let entry = entry.unwrap_or_else(|_| panic!());
    assert_eq!(pair(entry), (2, "a".to_string()));
}

#[test]
fn history_command_ends_with_its_line() {
    let entry = parse_history_line(": 1:2;a\nb s c\nd").unwrap();
    let entry = entry.unwrap_or_else(|_| panic!());
    assert_eq!(pair(entry), (1, "a".to_string()));
}

#[test]
fn history_command_begins_with_anything() {
    let commands = [
        "ssh host", "sudo ls -s", "\\ls", "s", "\u{e9}", " ls", "\tls", "\u{a0}ls",
    ];
    for command in commands {
        let entry = parse_history_line(&format!(": 1700000000:0;{}", command)).unwrap();
        let entry = entry.unwrap_or_else(|_| panic!());
        assert_eq!(pair(entry), (1700000000, command.to_string()));
    }
    assert!(parse_history_line(": 1:2;\n").is_none());
}

#[test]
fn history_line_with_white_space_alone_gives_an_empty_command() {
    let entry = parse_history_line(": 17:5;  ").unwrap();
    let entry = entry.unwrap_or_else(|_| panic!());
    assert_eq!(pair(entry), (17, "".to_string()));
}

#[test]
fn history_line_is_not_read_inside_a_command() {
    let entry = parse_history_line(": 1:0; echo : 2:0;ls").unwrap();
    let entry = entry.unwrap_or_else(|_| panic!());
    assert_eq!(pair(entry), (1, " echo ".to_string()));
}

#[test]
fn lines_without_an_entry_are_passed_over() {
    assert!(parse_history_line("").is_none());
    assert!(parse_history_line("ls").is_none());
    assert!(parse_history_line(": 1:2;").is_none());
    assert!(parse_history_line(":1:2;ls").is_none());
    assert!(parse_history_line(": 1;ls").is_none());
}

#[test]
fn history_timestamp_must_be_a_number_of_64_bits() {
    let line = ": 18446744073709551616:0;ls";
    assert!(matches!(
        parse_history_line(line),
        Some(Err(EntryError::InvalidExitCode))
    ));
    let line = ": \u{0663}:0;ls";
    assert!(matches!(
        parse_history_line(line),
        Some(Err(EntryError::InvalidExitCode))
    ));
    let line = ": 18446744073709551615:0;ls";
    assert!(matches!(parse_history_line(line), Some(Ok(_))));
}

#[test]
fn history_is_read_in_its_order() {
    let lines: Vec<String> = [": 1:0;ls", "rubbish", ": 2:0;cd ..", ": 3:0;sudo x", ": 4:0;ls"]
        .iter()
        .map(|line| line.to_string())
        .collect();
    let entries = parse_history(&lines).unwrap_or_else(|_| panic!());
    let entries: Vec<(u64, String)> = entries.into_iter().map(pair).collect();
    assert_eq!(
        entries,
        vec![
            (1, "ls".to_string()),
            (2, "cd ..".to_string()),
            (3, "sudo x".to_string()),
            (4, "ls".to_string())
        ]
    );
}

#[test]
fn history_with_a_bad_timestamp_is_refused() {
    let lines = vec![
        ": 1:0;ls".to_string(),
        ": 99999999999999999999:0;ls".to_string(),
    ];
    assert!(matches!(parse_history(&lines), Err(EntryError::InvalidExitCode)));
}
