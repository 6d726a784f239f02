//! The lines that commands are taken from: what the shell hands over after each command, and
//! what stands in a history file of Zsh.
use vstd::prelude::*;

use crate::text::{
    all_digits, before, behind, decimal, is_white_space, law_decimal_is_read_back,
    law_text_is_split_at_the_first_separator, law_trimming_takes_off_white_space, lemma_before,
    lemma_decimal, number, parse_number, split_once, trim, trimmed, trimmed_end, trimmed_start,
};

verus! {

/// What a text must contain to be taken as a command with its exit code.
pub const INDEXABLE_COMMAND: &'static str = "\\d+:[^\\s]+.*";

/// A line of a Zsh history file with its timestamp and its command.
pub const HISTORY_LINE: &'static str = ": (?P<timestamp>\\d+):\\d+;(?P<new_command>.+)";

/// The group of `HISTORY_LINE` that holds the timestamp.
pub const TIMESTAMP_GROUP: &'static str = "timestamp";

/// The group of `HISTORY_LINE` that holds the command.
pub const COMMAND_GROUP: &'static str = "new_command";

/// What `regex::Regex::is_match` answers for a pattern and a text.
pub uninterp spec fn regex_matches(pattern: Seq<char>, text: Seq<char>) -> bool;

/// A character that the class `\d` of a pattern stands for: of the ASCII characters the ten
/// digits, and beyond them what the class alone matches.
pub open spec fn is_decimal(c: char) -> bool {
    if c <= '\u{7f}' {
        '0' <= c <= '9'
    } else {
        regex_matches("\\d"@, seq![c])
    }
}

/// A text is taken as a command if somewhere in it a digit, a colon and something other than
/// white space follow each other.
pub open spec fn is_indexable(text: Seq<char>) -> bool {
    exists|i: int|
        0 <= i < text.len() - 2 && #[trigger] is_decimal(text[i]) && text[i + 1] == ':'
            && !is_white_space(text[i + 2])
}

/// The first place from `start` on where no digit stands.
pub open spec fn digits_end(text: Seq<char>, start: int) -> int
    decreases text.len() - start,
{
    if start < text.len() && is_decimal(text[start]) {
        digits_end(text, start + 1)
    } else {
        start
    }
}

/// The first place from `start` on where a line ends.
pub open spec fn line_end(text: Seq<char>, start: int) -> int
    decreases text.len() - start,
{
    if start < text.len() && text[start] != '\n' {
        line_end(text, start + 1)
    } else {
        start
    }
}

/// The place behind the timestamp of an entry that begins at `start`.
pub open spec fn timestamp_end(text: Seq<char>, start: int) -> int {
    digits_end(text, start + 2)
}

/// The place behind the duration of an entry that begins at `start`.
pub open spec fn duration_end(text: Seq<char>, start: int) -> int {
    digits_end(text, timestamp_end(text, start) + 1)
}

/// An entry begins at `start`: a colon, a space, the timestamp, a colon, the duration, a
/// semicolon and a command of at least one character.
pub open spec fn entry_at(text: Seq<char>, start: int) -> bool {
    let timestamp = timestamp_end(text, start);
    let duration = duration_end(text, start);
    &&& 0 <= start && start + 2 < text.len()
    &&& text[start] == ':' && text[start + 1] == ' '
    &&& start + 2 < timestamp < text.len() && text[timestamp] == ':'
    &&& timestamp + 1 < duration && duration + 1 < text.len() && text[duration] == ';'
    &&& text[duration + 1] != '\n'
}

/// The first place from `start` on where an entry begins.
pub open spec fn first_entry(text: Seq<char>, start: int) -> Option<int>
    decreases text.len() - start,
{
    if start >= text.len() {
        None
    } else if entry_at(text, start) {
        Some(start)
    } else {
        first_entry(text, start + 1)
    }
}

/// The timestamp of the first entry in a text.
pub open spec fn history_timestamp(text: Seq<char>) -> Option<Seq<char>> {
    match first_entry(text, 0) {
        Some(start) => Some(text.subrange(start + 2, timestamp_end(text, start))),
        None => None,
    }
}

/// The command of the first entry in a text: all that follows the duration on its line.
pub open spec fn history_command(text: Seq<char>) -> Option<Seq<char>> {
    match first_entry(text, 0) {
        Some(start) => {
            let command = duration_end(text, start) + 1;
            Some(text.subrange(command, line_end(text, command)))
        },
        None => None,
    }
}

/// The text that is there or not, by its characters.
pub open spec fn text_view(text: Option<String>) -> Option<Seq<char>> {
    match text {
        Some(text) => Some(text@),
        None => None,
    }
}

/// `regex::Regex::new` on the pattern and `is_match` of what it gives on the text.
///
/// `Regex::new` refuses some patterns; it takes the one that is asked for here. The match may
/// begin anywhere in the text, and `.*` at the end of the pattern also matches nothing, so that
/// one digit, the colon and one character other than white space decide.
#[verifier::external_body]
fn regex_is_match(pattern: &str, text: &str) -> (answer: bool)
    requires
        pattern@ == INDEXABLE_COMMAND@,
    ensures
        answer == regex_matches(pattern@, text@),
        answer == is_indexable(text@),
{
    regex::Regex::new(pattern).unwrap().is_match(text)
}

/// `regex::Regex::new` on the pattern, `captures` of what it gives on the text, and the text of
/// the group that `Captures::name` finds.
///
/// `Regex::new` refuses some patterns; it takes the one that is asked for here. `captures` takes
/// the match that begins first; the repetitions take as much as they can, and after each run of
/// digits the pattern wants a character that is no digit, so that there is one way to match from
/// a given place. The command takes, by `.+`, the rest of its line.
#[verifier::external_body]
fn regex_group(pattern: &str, group: &str, text: &str) -> (found: Option<String>)
    requires
        pattern@ == HISTORY_LINE@,
        group@ == TIMESTAMP_GROUP@ || group@ == COMMAND_GROUP@,
    ensures
        group@ == TIMESTAMP_GROUP@ ==> text_view(found) == history_timestamp(text@),
        group@ == COMMAND_GROUP@ ==> text_view(found) == history_command(text@),
{
    match regex::Regex::new(pattern).unwrap().captures(text) {
        Some(captures) => captures.name(group).map(|found| found.as_str().to_string()),
        None => None,
    }
}

/// Decides whether a text is taken as a command with its exit code.
pub fn indexable_command(text: &str) -> (answer: bool)
    ensures
        answer == is_indexable(text@),
{
    regex_is_match(INDEXABLE_COMMAND, text)
}

/// A command and the number in front of it.
pub struct Entry {
    pub exit_code: u64,
    pub command: String,
}

/// Why a text gives no entry.
#[derive(Debug, Clone, Copy, PartialEq, Eq)]
pub enum EntryError {
    /// The text is not taken as a command.
    NotIndexable,
    /// What stands in front of the first colon is no number of 64 bits.
    InvalidExitCode,
}

/// What stands in front of the first colon of a text, white space at its ends apart.
pub open spec fn exit_code_field(text: Seq<char>) -> Seq<char> {
    before(trimmed(text), ':')
}

/// What stands between the first colon of a text and the next one or the end, white space at the
/// ends of the text apart.
pub open spec fn command_field(text: Seq<char>) -> Seq<char> {
    before(behind(trimmed(text), ':'), ':')
}

/// The entry of a text with a colon in it.
pub open spec fn is_entry_of(entry: Result<Entry, EntryError>, text: Seq<char>) -> bool {
    match number(exit_code_field(text)) {
        Some(code) => {
            &&& entry is Ok
            &&& entry->Ok_0.exit_code == code
            &&& entry->Ok_0.command@ == command_field(text)
        },
        None => entry == Err::<Entry, EntryError>(EntryError::InvalidExitCode),
    }
}

/// Reads the number and the command of a text with a colon in it.
fn read_entry(text: &str) -> (entry: Result<Entry, EntryError>)
    requires
        text@.contains(':'),
    ensures
        is_entry_of(entry, text@),
{
    let (code, rest) = split_once(trim(text), ':');
    let exit_code = match parse_number(code) {
        Some(exit_code) => exit_code,
        None => {
            return Err(EntryError::InvalidExitCode);
        },
    };
    proof {
        lemma_trimmed_keeps(text@, ':');
    }
    let command = match rest {
        Some(rest) => split_once(rest, ':').0,
        None => "",
    };
    Ok(Entry { exit_code, command: command.to_owned() })
}

/// Trimming takes away nothing but white space.
proof fn lemma_trimmed_keeps(text: Seq<char>, c: char)
    requires
        text.contains(c),
        !is_white_space(c),
    ensures
        trimmed(text).contains(c),
{
    lemma_trimmed_start_keeps(text, c);
    lemma_trimmed_end_keeps(trimmed_start(text), c);
}

proof fn lemma_trimmed_start_keeps(text: Seq<char>, c: char)
    requires
        text.contains(c),
        !is_white_space(c),
    ensures
        trimmed_start(text).contains(c),
    decreases text.len(),
{
    if is_white_space(text.first()) {
        let i = choose|i: int| 0 <= i < text.len() && text[i] == c;
        assert(text.drop_first()[i - 1] == c);
        lemma_trimmed_start_keeps(text.drop_first(), c);
    }
}

proof fn lemma_trimmed_end_keeps(text: Seq<char>, c: char)
    requires
        text.contains(c),
        !is_white_space(c),
    ensures
        trimmed_end(text).contains(c),
    decreases text.len(),
{
    if is_white_space(text.last()) {
        let i = choose|i: int| 0 <= i < text.len() && text[i] == c;
        assert(text.drop_last()[i] == c);
        lemma_trimmed_end_keeps(text.drop_last(), c);
    }
}

/// Reads what the shell hands over after a command: its exit code, a colon and the command.
pub fn parse_added(text: &str) -> (entry: Result<Entry, EntryError>)
    ensures
        !is_indexable(text@) ==> entry == Err::<Entry, EntryError>(EntryError::NotIndexable),
        is_indexable(text@) ==> is_entry_of(entry, text@),
{
    if !indexable_command(text) {
        return Err(EntryError::NotIndexable);
    }
    proof {
        let i = choose|i: int|
            0 <= i < text@.len() - 2 && #[trigger] is_decimal(text@[i]) && text@[i + 1] == ':'
                && !is_white_space(text@[i + 2]);
        assert(text@[i + 1] == ':');
    }
    read_entry(text)
}

/// The text that an entry of a history file is read from: its timestamp, a colon and its command.
pub open spec fn history_text(line: Seq<char>) -> Option<Seq<char>> {
    match (history_timestamp(line), history_command(line)) {
        (Some(timestamp), Some(command)) => Some(timestamp + seq![':'] + command),
        _ => None,
    }
}

/// Reads a line of a history file. A line that holds no entry is passed over.
///
/// The number of the entry is its timestamp: a history file keeps no exit codes.
pub fn parse_history_line(line: &str) -> (entry: Option<Result<Entry, EntryError>>)
    ensures
        entry is Some <==> history_text(line@) is Some,
        entry is Some ==> is_entry_of(entry->0, history_text(line@)->0),
{
    let timestamp = match regex_group(HISTORY_LINE, TIMESTAMP_GROUP, line) {
        Some(timestamp) => timestamp,
        None => {
            return None;
        },
    };
    let command = match regex_group(HISTORY_LINE, COMMAND_GROUP, line) {
        Some(command) => command,
        None => {
            return None;
        },
    };
    let mut text = timestamp;
    proof {
        reveal_strlit(":");
    }
    let ghost before_colon = text@;
    text.append(":");
    text.append(command.as_str());
    assert(":"@ == seq![':']);
    assert(text@[before_colon.len() as int] == ':');
    Some(read_entry(text.as_str()))
}

/// The texts that the entries in the lines of a history file are read from, in their order.
pub open spec fn history_texts(lines: Seq<String>) -> Seq<Seq<char>>
    decreases lines.len(),
{
    if lines.len() == 0 {
        Seq::empty()
    } else {
        let texts = history_texts(lines.drop_last());
        match history_text(lines.last()@) {
            Some(text) => texts.push(text),
            None => texts,
        }
    }
}

/// Reads the lines of a history file. It fails if the timestamp of some entry is no number of 64
/// bits.
pub fn parse_history(lines: &[String]) -> (entries: Result<Vec<Entry>, EntryError>)
    ensures
        entries is Ok <==> forall|i: int|
            0 <= i < history_texts(lines@).len() ==> number(
                exit_code_field(#[trigger] history_texts(lines@)[i]),
            ) is Some,
        entries is Err ==> entries->Err_0 == EntryError::InvalidExitCode,
        entries matches Ok(entries) ==> entries@.len() == history_texts(lines@).len(),
        entries matches Ok(entries) ==> entries@.len() == lines@.filter(
            |line: String| history_text(line@) is Some,
        ).len(),
        entries matches Ok(entries) ==> forall|i: int|
            #![trigger entries@[i]]
            0 <= i < entries@.len() ==> Some(entries@[i].exit_code) == number(
                exit_code_field(history_texts(lines@)[i]),
            ) && entries@[i].command@ == command_field(history_texts(lines@)[i]),
{
    let mut entries: Vec<Entry> = Vec::new();
    let mut next: usize = 0;
    assert(lines@.take(0) == Seq::<String>::empty());
    while next < lines.len()
        invariant
            next <= lines@.len(),
            entries@.len() == history_texts(lines@.take(next as int)).len(),
            forall|i: int|
                #![trigger entries@[i]]
                #![trigger history_texts(lines@.take(next as int))[i]]
                0 <= i < entries@.len() ==> Some(entries@[i].exit_code) == number(
                    exit_code_field(history_texts(lines@.take(next as int))[i]),
                ) && entries@[i].command@ == command_field(
                    history_texts(lines@.take(next as int))[i],
                ),
        decreases lines.len() - next,
    {
        let ghost texts = history_texts(lines@.take(next as int));
        let ghost more = history_texts(lines@.take(next + 1));
        assert(lines@.take(next + 1).drop_last() == lines@.take(next as int));
        match parse_history_line(lines[next].as_str()) {
            Some(Ok(entry)) => {
                entries.push(entry);
            },
            Some(Err(error)) => {
                proof {
                    lemma_history_texts_grow(lines@, next + 1);
                    let all = history_texts(lines@);
                    assert(all[texts.len() as int] == more.last());
                    assert(number(exit_code_field(all[texts.len() as int])) is None);
                }
                return Err(error);
            },
            None => {},
        }
        next = next + 1;
    }
    assert(lines@.take(next as int) == lines@);
    proof {
        law_every_line_with_an_entry_gives_one(lines@);
    }
    Ok(entries)
}

/// The texts of the first lines come first.
proof fn lemma_history_texts_grow(lines: Seq<String>, end: int)
    requires
        0 <= end <= lines.len(),
    ensures
        history_texts(lines.take(end)).len() <= history_texts(lines).len(),
        history_texts(lines).take(history_texts(lines.take(end)).len() as int) == history_texts(
            lines.take(end),
        ),
        forall|i: int|
            0 <= i < history_texts(lines.take(end)).len() ==> history_texts(lines)[i]
                == history_texts(lines.take(end))[i],
    decreases lines.len(),
{
    if end < lines.len() {
        lemma_history_texts_grow(lines.drop_last(), end);
        assert(lines.drop_last().take(end) == lines.take(end));
    } else {
        assert(lines.take(end) == lines);
    }
}

/// The fields of a text that is made of digits, a colon and a command are those digits, and the
/// command up to its first colon, without the white space behind it.
proof fn lemma_fields(digits: Seq<char>, command: Seq<char>)
    requires
        digits.len() > 0,
        all_digits(digits),
    ensures
        exit_code_field(digits + seq![':'] + command) == digits,
        command_field(digits + seq![':'] + command) == before(trimmed_end(command), ':'),
{
    let text = digits + seq![':'] + command;
    assert('0' <= digits[0] <= '9');
    assert(text.first() == digits[0]);
    assert(trimmed_start(text) == text);
    lemma_trimmed_end_behind(digits + seq![':'], command);
    let rest = trimmed_end(command);
    let kept = digits + seq![':'] + rest;
    assert(trimmed(text) == kept);
    assert forall|i: int| 0 <= i < digits.len() implies kept[i] != ':' by {
        assert(kept[i] == digits[i]);
    }
    lemma_before(kept, ':', digits.len() as int);
    assert(kept.take(digits.len() as int) == digits);
    assert(behind(kept, ':') == rest);
}

/// Trimming the end of a text reaches no further than to a part that ends with something other
/// than white space.
proof fn lemma_trimmed_end_behind(head: Seq<char>, tail: Seq<char>)
    requires
        head.len() > 0,
        !is_white_space(head.last()),
    ensures
        trimmed_end(head + tail) == head + trimmed_end(tail),
    decreases tail.len(),
{
    let text = head + tail;
    if tail.len() == 0 {
        assert(text == head);
        assert(head + trimmed_end(tail) == head);
    } else {
        assert(text.last() == tail.last());
        if is_white_space(tail.last()) {
            assert(text.drop_last() == head + tail.drop_last());
            lemma_trimmed_end_behind(head, tail.drop_last());
        }
    }
}

/// A run of digits ends where it ends.
proof fn lemma_digits_end(text: Seq<char>, start: int, end: int)
    requires
        0 <= start <= end < text.len(),
        forall|i: int| start <= i < end ==> is_decimal(#[trigger] text[i]),
        !is_decimal(text[end]),
    ensures
        digits_end(text, start) == end,
    decreases end - start,
{
    if start < end {
        assert(is_decimal(text[start]));
        lemma_digits_end(text, start + 1, end);
    }
}

/// In a text that is a single line, a command reaches to the end.
proof fn lemma_single_line(text: Seq<char>, start: int)
    requires
        0 <= start <= text.len(),
        forall|i: int| start <= i < text.len() ==> text[i] != '\n',
    ensures
        line_end(text, start) == text.len(),
    decreases text.len() - start,
{
    if start < text.len() {
        lemma_single_line(text, start + 1);
    }
}

/// What the shell hands over for a command that begins with something other than white space is
/// indexed with its exit code, up to the first colon in the command and without the white space
/// at its end.
pub proof fn law_added_command_is_read(exit_code: u64, command: Seq<char>)
    requires
        command.len() > 0,
        !is_white_space(command.first()),
    ensures
        ({
            let text = decimal(exit_code as nat) + seq![':'] + command;
            &&& is_indexable(text)
            &&& number(exit_code_field(text)) == Some(exit_code)
            &&& command_field(text) == before(trimmed_end(command), ':')
        }),
{
    let digits = decimal(exit_code as nat);
    let text = digits + seq![':'] + command;
    lemma_decimal(exit_code as nat);
    law_decimal_is_read_back(exit_code);
    lemma_fields(digits, command);
    let i = digits.len() - 1;
    assert('0' <= digits[i] <= '9');
    assert(text[i] == digits[i]);
    assert(text[i + 1] == ':');
    assert(text[i + 2] == command.first());
    assert(is_decimal(text[i]));
}

/// A line of a history file gives an entry with its timestamp and its command, up to the first
/// colon in the command and without the white space at its end. White space in front of the
/// command is kept.
pub proof fn law_history_line_is_read(timestamp: u64, duration: u64, command: Seq<char>)
    requires
        command.len() > 0,
        !command.contains('\n'),
    ensures
        ({
            let line = seq![':', ' '] + decimal(timestamp as nat) + seq![':'] + decimal(
                duration as nat,
            ) + seq![';'] + command;
            let text = decimal(timestamp as nat) + seq![':'] + command;
            &&& history_text(line) == Some(text)
            &&& number(exit_code_field(text)) == Some(timestamp)
            &&& command_field(text) == before(trimmed_end(command), ':')
        }),
{
    let first = decimal(timestamp as nat);
    let second = decimal(duration as nat);
    let line = seq![':', ' '] + first + seq![':'] + second + seq![';'] + command;
    lemma_decimal(timestamp as nat);
    lemma_decimal(duration as nat);
    law_decimal_is_read_back(timestamp);
    lemma_fields(first, command);
    let a = 2 + first.len() as int;
    let b = a + 1 + second.len() as int;
    assert forall|i: int| 2 <= i < a implies is_decimal(#[trigger] line[i]) by {
        assert(line[i] == first[i - 2]);
    }
    assert(line[a] == ':');
    lemma_digits_end(line, 2, a);
    assert forall|i: int| a + 1 <= i < b implies is_decimal(#[trigger] line[i]) by {
        assert(line[i] == second[i - a - 1]);
    }
    assert(line[b] == ';');
    lemma_digits_end(line, a + 1, b);
    assert(line[b + 1] == command.first());
    assert(entry_at(line, 0));
    assert(first_entry(line, 0) == Some(0int));
    assert(line.subrange(2, a) == first);
    assert forall|i: int| b + 1 <= i < line.len() implies line[i] != '\n' by {
        assert(line[i] == command[i - b - 1]);
    }
    lemma_single_line(line, b + 1);
    assert(line.subrange(b + 1, line.len() as int) == command);
}

/// An entry is what its text says: the number in front of the first colon and all that stands
/// from there up to the next colon or the end, whatever white space stands around the text.
pub proof fn law_entry_is_what_its_text_says(
    entry: Result<Entry, EntryError>,
    lead: Seq<char>,
    code: Seq<char>,
    command: Seq<char>,
    rest: Seq<char>,
    trail: Seq<char>,
)
    requires
        is_entry_of(entry, lead + (code + seq![':'] + (command + rest)) + trail),
        forall|i: int| 0 <= i < lead.len() ==> is_white_space(#[trigger] lead[i]),
        forall|i: int| 0 <= i < trail.len() ==> is_white_space(#[trigger] trail[i]),
        !is_white_space((code + seq![':'] + (command + rest)).first()),
        !is_white_space((code + seq![':'] + (command + rest)).last()),
        !code.contains(':'),
        !command.contains(':'),
        rest.len() > 0 ==> rest.first() == ':',
    ensures
        number(code) is Some ==> entry is Ok && Some(entry->Ok_0.exit_code) == number(code)
            && entry->Ok_0.command@ == command,
        number(code) is None ==> entry is Err && entry->Err_0 == EntryError::InvalidExitCode,
{
    let core = code + seq![':'] + (command + rest);
    law_trimming_takes_off_white_space(lead, core, trail);
    law_text_is_split_at_the_first_separator(code, ':', command + rest);
    if rest.len() > 0 {
        law_text_is_split_at_the_first_separator(command, ':', rest.skip(1));
        assert(command + rest == command + seq![':'] + rest.skip(1));
    } else {
        law_text_is_split_at_the_first_separator(command, ':', rest);
        assert(command + rest == command);
    }
}

/// A digit, a colon and something other than white space make a text a command, whatever stands
/// around them.
pub proof fn law_exit_code_and_command_are_indexable(
    head: Seq<char>,
    digit: char,
    first: char,
    tail: Seq<char>,
)
    requires
        '0' <= digit <= '9',
        !is_white_space(first),
    ensures
        is_indexable(head + seq![digit, ':', first] + tail),
{
    let text = head + seq![digit, ':', first] + tail;
    let i = head.len() as int;
    assert(text[i] == digit && text[i + 1] == ':' && text[i + 2] == first);
    assert(is_decimal(text[i]));
}

/// A text in which no colon stands between a digit and something other than white space is no
/// command.
pub proof fn law_other_texts_are_not_indexable(text: Seq<char>)
    requires
        forall|i: int|
            #![trigger text[i]]
            0 < i < text.len() - 1 && text[i] == ':' ==> is_white_space(text[i + 1]) || (text[i - 1]
                <= '\u{7f}' && !('0' <= text[i - 1] <= '9')),
    ensures
        !is_indexable(text),
{
    if is_indexable(text) {
        let i = choose|i: int|
            0 <= i < text.len() - 2 && #[trigger] is_decimal(text[i]) && text[i + 1] == ':'
                && !is_white_space(text[i + 2]);
        assert(text[i + 1] == ':');
        assert(false);
    }
}

/// The patterns that the lines are matched with.
pub proof fn law_patterns()
    ensures
        INDEXABLE_COMMAND@ == "\\d+:[^\\s]+.*"@,
        HISTORY_LINE@ == ": (?P<timestamp>\\d+):\\d+;(?P<new_command>.+)"@,
        TIMESTAMP_GROUP@ == "timestamp"@,
        COMMAND_GROUP@ == "new_command"@,
{
}

/// Wherever an entry stands in a line, with a timestamp, a duration and a command, the line gives
/// an entry; and what stands in front of it does not matter unless it holds a colon: the entry
/// has all of the timestamp and all of the command.
pub proof fn law_entry_stands_anywhere_in_a_line(
    head: Seq<char>,
    timestamp: Seq<char>,
    duration: Seq<char>,
    command: Seq<char>,
    rest: Seq<char>,
)
    requires
        timestamp.len() > 0,
        forall|i: int| 0 <= i < timestamp.len() ==> '0' <= #[trigger] timestamp[i] <= '9',
        duration.len() > 0,
        forall|i: int| 0 <= i < duration.len() ==> '0' <= #[trigger] duration[i] <= '9',
        command.len() > 0,
        !command.contains('\n'),
        rest.len() > 0 ==> rest.first() == '\n',
    ensures
        ({
            let line = head + seq![':', ' '] + timestamp + seq![':'] + duration + seq![';']
                + command + rest;
            &&& history_text(line) is Some
            &&& !head.contains(':') ==> history_text(line) == Some(timestamp + seq![':'] + command)
        }),
{
    let line = head + seq![':', ' '] + timestamp + seq![':'] + duration + seq![';'] + command + rest;
    let start = head.len() as int;
    let a = start + 2 + timestamp.len();
    let b = a + 1 + duration.len();
    let e = b + 1 + command.len();
    assert(line[start] == ':' && line[start + 1] == ' ');
    assert forall|i: int| start + 2 <= i < a implies is_decimal(#[trigger] line[i]) by {
        assert(line[i] == timestamp[i - start - 2]);
    }
    assert(line[a] == ':');
    lemma_digits_end(line, start + 2, a);
    assert forall|i: int| a + 1 <= i < b implies is_decimal(#[trigger] line[i]) by {
        assert(line[i] == duration[i - a - 1]);
    }
    assert(line[b] == ';');
    lemma_digits_end(line, a + 1, b);
    assert forall|i: int| b + 1 <= i < e implies line[i] != '\n' by {
        assert(line[i] == command[i - b - 1]);
        assert(command.contains(command[i - b - 1]));
    }
    if rest.len() > 0 {
        assert(line[e] == rest.first());
    }
    lemma_line_end(line, b + 1, e);
    assert(entry_at(line, start));
    lemma_first_entry(line, 0, start);
    if !head.contains(':') {
        let found = first_entry(line, 0)->0;
        if found < start {
            assert(line[found] == head[found]);
            assert(head.contains(head[found]));
        }
        assert(line.subrange(start + 2, a) == timestamp);
        assert(line.subrange(b + 1, e) == command);
    }
}

/// A line ends where its break is.
proof fn lemma_line_end(text: Seq<char>, start: int, end: int)
    requires
        0 <= start <= end <= text.len(),
        forall|i: int| start <= i < end ==> text[i] != '\n',
        end < text.len() ==> text[end] == '\n',
    ensures
        line_end(text, start) == end,
    decreases end - start,
{
    if start < end {
        lemma_line_end(text, start + 1, end);
    }
}

/// An entry that begins at some place is found there or before it.
proof fn lemma_first_entry(text: Seq<char>, start: int, place: int)
    requires
        0 <= start <= place < text.len(),
        entry_at(text, place),
    ensures
        first_entry(text, start) is Some,
        start <= first_entry(text, start)->0 <= place,
        entry_at(text, first_entry(text, start)->0),
    decreases place - start,
{
    if !entry_at(text, start) {
        lemma_first_entry(text, start + 1, place);
    }
}

/// What a line gives stands in it: behind a colon and a blank the timestamp, which is made of
/// digits, and behind a semicolon the command, which is the rest of its line.
pub proof fn law_entry_stands_in_its_line(line: Seq<char>)
    requires
        history_text(line) is Some,
    ensures
        exists|start: int, a: int, b: int, e: int|
            {
                &&& 0 <= start && start + 2 < a && a + 1 < b && b + 1 < e <= line.len()
                &&& line[start] == ':' && line[start + 1] == ' ' && line[a] == ':' && line[b] == ';'
                &&& forall|i: int| start + 2 <= i < a ==> is_decimal(#[trigger] line[i])
                &&& forall|i: int| a < i < b ==> is_decimal(#[trigger] line[i])
                &&& forall|i: int| b < i < e ==> #[trigger] line[i] != '\n'
                &&& e == line.len() || line[e] == '\n'
                &&& history_text(line) == Some(
                    #[trigger] line.subrange(start + 2, a) + seq![':'] + #[trigger] line.subrange(
                        b + 1,
                        e,
                    ),
                )
            },
{
    lemma_found_entry(line, 0);
    let start = first_entry(line, 0)->0;
    let a = timestamp_end(line, start);
    let b = duration_end(line, start);
    let e = line_end(line, b + 1);
    lemma_digits(line, start + 2);
    lemma_digits(line, a + 1);
    lemma_line(line, b + 1);
    assert(history_text(line) == Some(
        line.subrange(start + 2, a) + seq![':'] + line.subrange(b + 1, e),
    ));
}

proof fn lemma_found_entry(text: Seq<char>, start: int)
    requires
        first_entry(text, start) is Some,
    ensures
        entry_at(text, first_entry(text, start)->0),
    decreases text.len() - start,
{
    if !entry_at(text, start) {
        lemma_found_entry(text, start + 1);
    }
}

proof fn lemma_digits(text: Seq<char>, start: int)
    requires
        0 <= start,
    ensures
        start <= digits_end(text, start),
        forall|i: int| start <= i < digits_end(text, start) ==> is_decimal(#[trigger] text[i]),
    decreases text.len() - start,
{
    if start < text.len() && is_decimal(text[start]) {
        lemma_digits(text, start + 1);
    }
}

proof fn lemma_line(text: Seq<char>, start: int)
    requires
        0 <= start <= text.len(),
    ensures
        start <= line_end(text, start) <= text.len(),
        forall|i: int| start <= i < line_end(text, start) ==> #[trigger] text[i] != '\n',
        line_end(text, start) < text.len() ==> text[line_end(text, start)] == '\n',
        start < text.len() && text[start] != '\n' ==> start < line_end(text, start),
    decreases text.len() - start,
{
    if start < text.len() && text[start] != '\n' {
        lemma_line(text, start + 1);
    }
}

/// A digit is one of the ten of ASCII, or stands beyond ASCII.
pub proof fn law_digits_of_ascii(c: char)
    ensures
        '0' <= c <= '9' ==> is_decimal(c),
        c <= '\u{7f}' && is_decimal(c) ==> '0' <= c <= '9',
{
}

/// Every line that holds an entry gives one, in the order of the lines, and no other line does:
/// as many as there are such lines, however many there are.
pub proof fn law_every_line_with_an_entry_gives_one(lines: Seq<String>)
    ensures
        history_texts(lines) == lines.filter(
            |line: String| history_text(line@) is Some,
        ).map_values(|line: String| history_text(line@)->0),
        history_texts(lines).len() == lines.filter(
            |line: String| history_text(line@) is Some,
        ).len(),
    decreases lines.len(),
{
    let holds = |line: String| history_text(line@) is Some;
    let text = |line: String| history_text(line@)->0;
    reveal(Seq::filter);
    if lines.len() > 0 {
        law_every_line_with_an_entry_gives_one(lines.drop_last());
        let first = lines.drop_last().filter(holds);
        if holds(lines.last()) {
            assert(lines.filter(holds) == first.push(lines.last()));
            assert(first.push(lines.last()).map_values(text) == first.map_values(text).push(
                text(lines.last()),
            ));
        }
    } else {
        assert(history_texts(lines) == lines.filter(holds).map_values(text));
    }
}

/// A line more at the end of a history gives its entry behind those of the other lines; a line
/// without an entry changes nothing. So two histories one behind the other give the entries of
/// both.
pub proof fn law_histories_are_read_one_behind_the_other(
    lines: Seq<String>,
    line: String,
    more: Seq<String>,
)
    ensures
        history_text(line@) is Some ==> history_texts(lines.push(line)) == history_texts(
            lines,
        ).push(history_text(line@)->0),
        history_text(line@) is None ==> history_texts(lines.push(line)) == history_texts(lines),
        history_texts(lines + more) == history_texts(lines) + history_texts(more),
    decreases more.len(),
{
    assert(lines.push(line).drop_last() == lines);
    if more.len() > 0 {
        law_histories_are_read_one_behind_the_other(lines, line, more.drop_last());
        assert((lines + more).drop_last() == lines + more.drop_last());
        assert((lines + more).last() == more.last());
    } else {
        assert(lines + more == lines);
        assert(history_texts(more) == Seq::<Seq<char>>::empty());
    }
}

/// A text that is there is seen as it is.
pub proof fn law_text_is_seen_as_it_is(text: String)
    ensures
        text_view(Some(text)) == Some(text@),
        text_view(None) == None::<Seq<char>>,
{
}

} // verus!
