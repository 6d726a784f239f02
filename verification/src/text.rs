//! Reading and writing the small pieces of text that the history is made of.
use vstd::prelude::*;

verus! {

/// A character with the Unicode property `White_Space`.
pub open spec fn is_white_space(c: char) -> bool {
    ||| '\t' <= c <= '\r'
    ||| c == ' '
    ||| c == '\u{85}'
    ||| c == '\u{a0}'
    ||| c == '\u{1680}'
    ||| '\u{2000}' <= c <= '\u{200a}'
    ||| '\u{2028}' <= c <= '\u{2029}'
    ||| c == '\u{202f}'
    ||| c == '\u{205f}'
    ||| c == '\u{3000}'
}

/// The text without the white space that it begins with.
pub open spec fn trimmed_start(text: Seq<char>) -> Seq<char>
    decreases text.len(),
{
    if text.len() > 0 && is_white_space(text.first()) {
        trimmed_start(text.drop_first())
    } else {
        text
    }
}

/// The text without the white space that it ends with.
pub open spec fn trimmed_end(text: Seq<char>) -> Seq<char>
    decreases text.len(),
{
    if text.len() > 0 && is_white_space(text.last()) {
        trimmed_end(text.drop_last())
    } else {
        text
    }
}

/// The text without the white space at its two ends.
pub open spec fn trimmed(text: Seq<char>) -> Seq<char> {
    trimmed_end(trimmed_start(text))
}

/// The text in front of the first `separator`, all of it where there is none.
pub open spec fn before(text: Seq<char>, separator: char) -> Seq<char>
    decreases text.len(),
{
    if text.len() == 0 || text.first() == separator {
        Seq::empty()
    } else {
        seq![text.first()] + before(text.drop_first(), separator)
    }
}

/// The text behind the first `separator`, none where there is none.
pub open spec fn behind(text: Seq<char>, separator: char) -> Seq<char> {
    let end = before(text, separator).len();
    if end < text.len() {
        text.skip(end as int + 1)
    } else {
        Seq::empty()
    }
}

/// The value of a decimal digit.
pub open spec fn digit_value(c: char) -> nat {
    (c as int - '0' as int) as nat
}

/// The number that a sequence of decimal digits stands for.
pub open spec fn digits_value(digits: Seq<char>) -> nat
    decreases digits.len(),
{
    if digits.len() == 0 {
        0
    } else {
        10 * digits_value(digits.drop_last()) + digit_value(digits.last())
    }
}

/// A sequence of ASCII digits.
pub open spec fn all_digits(text: Seq<char>) -> bool {
    forall|i: int| 0 <= i < text.len() ==> '0' <= #[trigger] text[i] <= '9'
}

/// The text without one plus sign in front of it.
pub open spec fn unsigned_part(text: Seq<char>) -> Seq<char> {
    if text.len() > 0 && text.first() == '+' {
        text.drop_first()
    } else {
        text
    }
}

/// The number that a text stands for: decimal digits, at least one, with or without a plus sign
/// in front, and a value that fits into 64 bits.
pub open spec fn number(text: Seq<char>) -> Option<u64> {
    let digits = unsigned_part(text);
    if digits.len() > 0 && all_digits(digits) && digits_value(digits) <= u64::MAX {
        Some(digits_value(digits) as u64)
    } else {
        None
    }
}

/// The decimal digit of a value below ten.
pub open spec fn digit(value: nat) -> char {
    ('0' as int + value) as char
}

/// A number in decimal digits, without leading zeros.
pub open spec fn decimal(value: nat) -> Seq<char>
    decreases value,
{
    if value < 10 {
        seq![digit(value)]
    } else {
        decimal(value / 10).push(digit(value % 10))
    }
}

/// The characters of a text.
pub fn chars_of(text: &str) -> (chars: Vec<char>)
    ensures
        chars@ == text@,
{
    let mut chars: Vec<char> = Vec::new();
    for c in it: text.chars()
        invariant
            chars@ == it.seq().take(it.index()),
            it.seq() == text@,
    {
        chars.push(c);
        assert(it.seq().take(it.index() + 1) == it.seq().take(it.index()).push(c));
    }
    chars
}

/// Decides whether a character is white space.
pub fn white_space(c: char) -> (answer: bool)
    ensures
        answer == is_white_space(c),
{
    ('\t' <= c && c <= '\r') || c == ' ' || c == '\u{85}' || c == '\u{a0}' || c == '\u{1680}' || (
    '\u{2000}' <= c && c <= '\u{200a}') || ('\u{2028}' <= c && c <= '\u{2029}') || c == '\u{202f}'
        || c == '\u{205f}' || c == '\u{3000}'
}

/// Takes the white space off the two ends of a text.
pub fn trim<'a>(text: &'a str) -> (rest: &'a str)
    ensures
        rest@ == trimmed(text@),
{
    let chars = chars_of(text);
    let mut start: usize = 0;
    assert(text@.skip(0) == text@);
    while start < chars.len() && white_space(chars[start])
        invariant
            chars@ == text@,
            start <= chars@.len(),
            trimmed_start(text@) == trimmed_start(text@.skip(start as int)),
        decreases chars.len() - start,
    {
        assert(text@.skip(start as int).drop_first() == text@.skip(start + 1));
        start = start + 1;
    }
    let ghost tail = text@.skip(start as int);
    let mut end: usize = chars.len();
    assert(text@.subrange(start as int, end as int) == tail);
    while end > start && white_space(chars[end - 1])
        invariant
            chars@ == text@,
            start <= end <= chars@.len(),
            trimmed_end(tail) == trimmed_end(text@.subrange(start as int, end as int)),
        decreases end,
    {
        assert(text@.subrange(start as int, end as int).drop_last() == text@.subrange(
            start as int,
            end - 1,
        ));
        end = end - 1;
    }
    text.substring_char(start, end)
}

/// `before` reaches up to the first place where the separator stands.
pub(crate) proof fn lemma_before(text: Seq<char>, separator: char, end: int)
    requires
        0 <= end <= text.len(),
        forall|i: int| 0 <= i < end ==> text[i] != separator,
        end < text.len() ==> text[end] == separator,
    ensures
        before(text, separator) == text.take(end),
    decreases end,
{
    if end > 0 {
        lemma_before(text.drop_first(), separator, end - 1);
        assert(text.take(end) == seq![text.first()] + text.drop_first().take(end - 1));
    }
}

/// Splits a text at the first separator. There is no second part where there is no separator.
pub fn split_once<'a>(text: &'a str, separator: char) -> (parts: (&'a str, Option<&'a str>))
    ensures
        parts.0@ == before(text@, separator),
        parts.1 is Some <==> text@.contains(separator),
        parts.1 matches Some(rest) ==> rest@ == behind(text@, separator),
{
    let chars = chars_of(text);
    let mut end: usize = 0;
    while end < chars.len() && chars[end] != separator
        invariant
            chars@ == text@,
            end <= chars@.len(),
            forall|i: int| 0 <= i < end ==> text@[i] != separator,
        decreases chars.len() - end,
    {
        end = end + 1;
    }
    proof {
        lemma_before(text@, separator, end as int);
    }
    let first = text.substring_char(0, end);
    if end < chars.len() {
        let rest = text.substring_char(end + 1, chars.len());
        assert(text@[end as int] == separator);
        (first, Some(rest))
    } else {
        (first, None)
    }
}

/// More digits never stand for a smaller number.
proof fn lemma_digits_value_grows(digits: Seq<char>, end: int)
    requires
        0 <= end <= digits.len(),
    ensures
        digits_value(digits.take(end)) <= digits_value(digits),
    decreases digits.len(),
{
    if end < digits.len() {
        lemma_digits_value_grows(digits.drop_last(), end);
        assert(digits.drop_last().take(end) == digits.take(end));
    } else {
        assert(digits.take(end) == digits);
    }
}

/// Reads a number of 64 bits.
pub fn parse_number(text: &str) -> (value: Option<u64>)
    ensures
        value == number(text@),
{
    let chars = chars_of(text);
    let start: usize = if chars.len() > 0 && chars[0] == '+' {
        1
    } else {
        0
    };
    let ghost digits = unsigned_part(text@);
    assert(digits == text@.skip(start as int));
    if start == chars.len() {
        return None;
    }
    let mut value: u64 = 0;
    let mut next: usize = start;
    while next < chars.len()
        invariant
            chars@ == text@,
            digits == unsigned_part(text@),
            digits == text@.skip(start as int),
            digits.len() > 0,
            start <= next <= chars@.len(),
            forall|i: int| 0 <= i < next - start ==> '0' <= #[trigger] digits[i] <= '9',
            value == digits_value(digits.take(next - start)),
        decreases chars.len() - next,
    {
        let c = chars[next];
        let ghost done = next - start;
        assert(digits[done] == c);
        if c < '0' || c > '9' {
            assert(!all_digits(digits));
            return None;
        }
        proof {
            assert(digits.take(done + 1).drop_last() == digits.take(done));
            lemma_digits_value_grows(digits, done + 1);
        }
        let unit: u64 = c as u64 - '0' as u64;
        let tens: u64 = match value.checked_mul(10) {
            Some(tens) => tens,
            None => {
                return None;
            },
        };
        value = match tens.checked_add(unit) {
            Some(sum) => sum,
            None => {
                return None;
            },
        };
        next = next + 1;
    }
    assert(digits.take(next - start) == digits);
    Some(value)
}

/// The decimal digit of a value below ten, as a text.
fn digit_str(value: u64) -> (text: &'static str)
    requires
        value < 10,
    ensures
        text@ == seq![digit(value as nat)],
{
    proof {
        reveal_strlit("0");
        reveal_strlit("1");
        reveal_strlit("2");
        reveal_strlit("3");
        reveal_strlit("4");
        reveal_strlit("5");
        reveal_strlit("6");
        reveal_strlit("7");
        reveal_strlit("8");
        reveal_strlit("9");
    }
    match value {
        0 => "0",
        1 => "1",
        2 => "2",
        3 => "3",
        4 => "4",
        5 => "5",
        6 => "6",
        7 => "7",
        8 => "8",
        _ => "9",
    }
}

/// Writes a number in decimal digits.
pub fn decimal_string(value: u64) -> (text: String)
    ensures
        text@ == decimal(value as nat),
    decreases value,
{
    if value < 10 {
        digit_str(value).to_owned()
    } else {
        let mut text = decimal_string(value / 10);
        text.append(digit_str(value % 10));
        assert(text@ == decimal((value / 10) as nat).push(digit((value % 10) as nat)));
        text
    }
}

/// Decides whether two texts are the same.
pub fn same_text(a: &str, b: &str) -> (same: bool)
    ensures
        same == (a@ == b@),
{
    a.to_owned() == b.to_owned()
}

/// A number that was written in decimal digits is read back as it was.
pub proof fn law_decimal_is_read_back(value: u64)
    ensures
        number(decimal(value as nat)) == Some(value),
{
    lemma_decimal(value as nat);
    let text = decimal(value as nat);
    assert('0' <= text[0] <= '9');
    assert(unsigned_part(text) == text);
}

/// What `decimal` writes are digits, at least one, and they stand for the number.
pub(crate) proof fn lemma_decimal(value: nat)
    ensures
        decimal(value).len() > 0,
        all_digits(decimal(value)),
        digits_value(decimal(value)) == value,
    decreases value,
{
    if value < 10 {
        let text = decimal(value);
        assert(text.drop_last() == Seq::<char>::empty());
        assert(digits_value(text.drop_last()) == 0);
    } else {
        lemma_decimal(value / 10);
        assert(decimal(value).drop_last() == decimal(value / 10));
    }
}

/// White space is the tabulator and what stands up to the carriage return in ASCII, the blank,
/// and beyond ASCII the next-line character and the separators of Unicode.
pub proof fn law_white_space(c: char)
    ensures
        is_white_space(c) <==> {
            let code = c as u32;
            ||| 9 <= code <= 13
            ||| code == 0x20 || code == 0x85 || code == 0xa0 || code == 0x1680
            ||| 0x2000 <= code <= 0x200a
            ||| code == 0x2028 || code == 0x2029 || code == 0x202f || code == 0x205f
            ||| code == 0x3000
        },
{
}

/// Trimming takes off the white space around a text, all of it and nothing else.
pub proof fn law_trimming_takes_off_white_space(lead: Seq<char>, core: Seq<char>, trail: Seq<char>)
    requires
        forall|i: int| 0 <= i < lead.len() ==> is_white_space(#[trigger] lead[i]),
        forall|i: int| 0 <= i < trail.len() ==> is_white_space(#[trigger] trail[i]),
        core.len() > 0 ==> !is_white_space(core.first()) && !is_white_space(core.last()),
    ensures
        trimmed(lead + core + trail) == core,
{
    let text = lead + core + trail;
    lemma_trimmed_start(lead, core + trail);
    assert(text == lead + (core + trail));
    if core.len() > 0 {
        assert((core + trail).first() == core.first());
        assert(trimmed_start(core + trail) == core + trail);
        lemma_trimmed_end(core, trail);
        assert(trimmed_end(core) == core);
    } else {
        assert(core + trail == trail + Seq::<char>::empty());
        lemma_trimmed_start(trail, Seq::empty());
        assert(trimmed_start(Seq::<char>::empty()) == Seq::<char>::empty());
        assert(trimmed_end(Seq::<char>::empty()) == Seq::<char>::empty());
        assert(core == Seq::<char>::empty());
    }
}

proof fn lemma_trimmed_start(lead: Seq<char>, rest: Seq<char>)
    requires
        forall|i: int| 0 <= i < lead.len() ==> is_white_space(#[trigger] lead[i]),
    ensures
        trimmed_start(lead + rest) == trimmed_start(rest),
    decreases lead.len(),
{
    if lead.len() == 0 {
        assert(lead + rest == rest);
    } else {
        assert(is_white_space(lead[0]));
        assert((lead + rest).first() == lead[0]);
        assert((lead + rest).drop_first() == lead.drop_first() + rest);
        lemma_trimmed_start(lead.drop_first(), rest);
    }
}

proof fn lemma_trimmed_end(rest: Seq<char>, trail: Seq<char>)
    requires
        forall|i: int| 0 <= i < trail.len() ==> is_white_space(#[trigger] trail[i]),
    ensures
        trimmed_end(rest + trail) == trimmed_end(rest),
    decreases trail.len(),
{
    if trail.len() == 0 {
        assert(rest + trail == rest);
    } else {
        assert(is_white_space(trail[trail.len() - 1]));
        assert((rest + trail).last() == trail.last());
        assert((rest + trail).drop_last() == rest + trail.drop_last());
        lemma_trimmed_end(rest, trail.drop_last());
    }
}

/// A text is split at its first separator: in front of it stands all up to it, and behind it all
/// that follows, with further separators in it or not.
pub proof fn law_text_is_split_at_the_first_separator(
    head: Seq<char>,
    separator: char,
    tail: Seq<char>,
)
    requires
        !head.contains(separator),
    ensures
        before(head + seq![separator] + tail, separator) == head,
        behind(head + seq![separator] + tail, separator) == tail,
        before(head, separator) == head,
        behind(head, separator) == Seq::<char>::empty(),
{
    let text = head + seq![separator] + tail;
    assert forall|i: int| 0 <= i < head.len() implies text[i] != separator by {
        assert(text[i] == head[i]);
        assert(head.contains(head[i]));
    }
    assert(text[head.len() as int] == separator);
    lemma_before(text, separator, head.len() as int);
    assert(text.take(head.len() as int) == head);
    assert(behind(text, separator) == tail);
    assert forall|i: int| 0 <= i < head.len() implies head[i] != separator by {
        assert(head.contains(head[i]));
    }
    lemma_before(head, separator, head.len() as int);
    assert(head.take(head.len() as int) == head);
}

/// A digit more makes a number ten times as large and adds its own value.
pub proof fn law_digits_count_in_tens(digits: Seq<char>, c: char)
    requires
        '0' <= c <= '9',
    ensures
        digits_value(Seq::<char>::empty()) == 0,
        digits_value(digits.push(c)) == 10 * digits_value(digits) + (c as int - 48),
{
    assert(digits.push(c).drop_last() == digits);
}

/// A text is a number exactly if it is made of digits, at least one, that stand for no more than
/// 64 bits can hold; a plus sign may stand in front of them.
pub proof fn law_numbers_are_made_of_digits(text: Seq<char>)
    ensures
        number(text) is Some ==> number(text)->0 == digits_value(
            if text.first() == '+' {
                text.skip(1)
            } else {
                text
            },
        ),
        text.len() > 0 && (forall|i: int| 0 <= i < text.len() ==> '0' <= #[trigger] text[i] <= '9')
            && digits_value(text) <= 0xffff_ffff_ffff_ffff ==> number(text) is Some && number(
            seq!['+'] + text,
        ) is Some,
        digits_value(text) > 0xffff_ffff_ffff_ffff && (text.len() > 0 ==> text.first() != '+')
            ==> number(text) is None && number(seq!['+'] + text) is None,
        (exists|i: int| 0 < i < text.len() && !('0' <= #[trigger] text[i] <= '9')) ==> number(text)
            is None,
        text.len() > 0 && text.first() != '+' && !('0' <= text.first() <= '9') ==> number(text)
            is None,
        text.len() == 0 ==> number(text) is None && number(seq!['+']) is None,
{
    let signed = seq!['+'] + text;
    assert(signed.drop_first() == text);
    assert(text.skip(1) == text.drop_first() || text.len() == 0);
    assert(seq!['+'].drop_first() == Seq::<char>::empty());
    if text.len() > 0 && text.first() != '+' {
        assert(unsigned_part(text) == text);
    }
    if exists|i: int| 0 < i < text.len() && !('0' <= #[trigger] text[i] <= '9') {
        let i = choose|i: int| 0 < i < text.len() && !('0' <= #[trigger] text[i] <= '9');
        if text.first() == '+' {
            assert(text.drop_first()[i - 1] == text[i]);
        }
    }
}

/// A number is written without zeros in front of it.
pub proof fn law_decimal_has_no_leading_zeros(value: nat)
    ensures
        decimal(value).len() > 0,
        value > 0 ==> decimal(value).first() != '0',
        value < 10 ==> decimal(value).len() == 1,
        forall|i: int|
            0 <= i < decimal(value).len() ==> '0' <= #[trigger] decimal(value)[i] <= '9',
        digits_value(decimal(value)) == value,
    decreases value,
{
    lemma_decimal(value);
    if value >= 10 {
        law_decimal_has_no_leading_zeros(value / 10);
        lemma_decimal(value / 10);
        assert(decimal(value).first() == decimal(value / 10).first());
    }
}

} // verus!
