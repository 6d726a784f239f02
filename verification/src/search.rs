//! The query for the commands that a search text stands for.
use tantivy::query::BooleanQuery;
use tantivy::schema::Schema;
use tantivy::TantivyError;
use vstd::prelude::*;

use crate::document::current_ms;
use crate::schema::{existing_field, field_number, holds_commands, schema_fields};
use crate::text::chars_of;

verus! {

/// The number of commands that a search gives at most.
pub const SEARCH_LIMIT: usize = 10;

/// The milliseconds of a month, the time in which a command loses the point that it has for being
/// new.
pub const ONE_MONTH_MS: u64 = 2629800000;

/// The number of selections that are worth a point; more are worth no more.
pub const FULL_SELECTIONS: u64 = 100;

/// `tantivy::query::BooleanQuery`, a collection of clauses.
#[verifier::external_type_specification]
#[verifier::external_body]
pub struct ExBooleanQuery(BooleanQuery);

/// `tantivy::TantivyError`.
#[verifier::external_type_specification]
#[verifier::external_body]
pub struct ExTantivyError(TantivyError);

/// What a clause does for a document.
pub enum Occurrence {
    /// Documents for which it holds come first.
    Should,
    /// Only documents for which it holds are found.
    Must,
    /// Only documents for which it does not hold are found.
    MustNot,
}

/// A clause of a query.
pub enum QueryClause {
    /// The field holds exactly this text.
    Term { occurrence: Occurrence, field: u32, text: Seq<char> },
    /// The field matches the pattern.
    Pattern { occurrence: Occurrence, field: u32, pattern: Seq<char> },
    /// Anything else.
    Other,
}

/// The clauses that a `BooleanQuery` holds, in their order.
pub uninterp spec fn query_clauses(query: BooleanQuery) -> Seq<QueryClause>;

/// Whether `tantivy::query::RegexQuery::from_pattern` takes a pattern.
pub uninterp spec fn takes_pattern(pattern: Seq<char>) -> bool;

/// `tantivy::query::BooleanQuery::new` on two clauses: one that should hold, a
/// `tantivy::query::TermQuery` for a text in a field, and one that must hold, a
/// `tantivy::query::RegexQuery` for a pattern in a field.
///
/// Of these `RegexQuery::from_pattern` can fail; whether it does is decided by the pattern.
#[verifier::external_body]
fn new_query(term_field: u32, term: &str, pattern_field: u32, pattern: &str) -> (query: Result<
    BooleanQuery,
    TantivyError,
>)
    ensures
        query is Ok <==> takes_pattern(pattern@),
        query matches Ok(query) ==> query_clauses(query) == seq![
            QueryClause::Term { occurrence: Occurrence::Should, field: term_field, text: term@ },
            QueryClause::Pattern {
                occurrence: Occurrence::Must,
                field: pattern_field,
                pattern: pattern@,
            },
        ],
{
    let term_field = tantivy::schema::Field::from_field_id(term_field);
    let pattern_field = tantivy::schema::Field::from_field_id(pattern_field);
    let should = tantivy::query::TermQuery::new(
        tantivy::Term::from_field_text(term_field, term),
        tantivy::schema::IndexRecordOption::Basic,
    );
    let must = tantivy::query::RegexQuery::from_pattern(pattern, pattern_field)?;
    Ok(BooleanQuery::new(vec![
        (tantivy::query::Occur::Should, Box::new(should)),
        (tantivy::query::Occur::Must, Box::new(must)),
    ]))
}

/// Why a search cannot be made.
#[derive(Debug, Clone, Copy, PartialEq, Eq)]
pub enum SearchError {
    /// The search text makes no pattern.
    InvalidPattern,
}

/// What may stand between two letters of the search text.
pub open spec fn gap() -> Seq<char> {
    seq!['.', '*']
}

/// The characters of a text with a gap between each two.
pub open spec fn spaced(text: Seq<char>) -> Seq<char>
    decreases text.len(),
{
    if text.len() <= 1 {
        text
    } else {
        spaced(text.drop_last()) + gap() + seq![text.last()]
    }
}

/// The pattern of the commands in which the characters of the search text stand in their order,
/// with anything before, between and behind them.
pub open spec fn search_pattern(text: Seq<char>) -> Seq<char> {
    gap() + spaced(text) + gap()
}

/// Writes the pattern of a search text.
pub fn pattern_of(text: &str) -> (pattern: String)
    ensures
        pattern@ == search_pattern(text@),
{
    proof {
        reveal_strlit(".*");
        assert(".*"@ == gap());
    }
    let count: usize = chars_of(text).len();
    let mut pattern = ".*".to_owned();
    let mut next: usize = 0;
    assert(pattern@ == gap() + spaced(text@.take(0)));
    while next < count
        invariant
            next <= count == text@.len(),
            pattern@ == gap() + spaced(text@.take(next as int)),
            ".*"@ == gap(),
        decreases count - next,
    {
        let ghost done = text@.take(next as int);
        let ghost more = text@.take(next + 1);
        assert(more.drop_last() == done);
        assert(more.last() == text@[next as int]);
        if next > 0 {
            pattern.append(".*");
        }
        pattern.append(text.substring_char(next, next + 1));
        assert(text@.subrange(next as int, next + 1) == seq![more.last()]);
        assert(pattern@ == gap() + spaced(more));
        next = next + 1;
    }
    assert(text@.take(count as int) == text@);
    pattern.append(".*");
    pattern
}

/// The query for a search text: the command must match its pattern, and commands that were run in
/// the given directory come first.
pub fn build_query(schema: &Schema, directory: &str, text: &str) -> (query: Result<
    BooleanQuery,
    SearchError,
>)
    requires
        holds_commands(schema_fields(*schema)),
    ensures
        query is Ok <==> takes_pattern(search_pattern(text@)),
        query matches Ok(query) ==> query_clauses(query) == seq![
            QueryClause::Term {
                occurrence: Occurrence::Should,
                field: field_number(schema_fields(*schema), "directory"@) as u32,
                text: directory@,
            },
            QueryClause::Pattern {
                occurrence: Occurrence::Must,
                field: field_number(schema_fields(*schema), "command"@) as u32,
                pattern: search_pattern(text@),
            },
        ],
{
    let directory_field = existing_field(schema, "directory");
    let command_field = existing_field(schema, "command");
    let pattern = pattern_of(text);
    match new_query(directory_field, directory, command_field, pattern.as_str()) {
        Ok(query) => Ok(query),
        Err(_) => Err(SearchError::InvalidPattern),
    }
}

/// What a command is scored by, beside how well it matches.
pub struct ScoreParts {
    /// The milliseconds since it was run.
    pub age_ms: u64,
    /// How often it was selected, `FULL_SELECTIONS` at most.
    pub selections: u64,
    /// Whether it succeeded.
    pub succeeded: bool,
}

/// The time of a search in milliseconds.
pub fn search_time() -> (ms: u64)
    ensures
        ms < 0x1_0000_0000_0000,
{
    current_ms()
}

/// Takes what a command is scored by from what the index holds of it.
pub fn score_parts(current_ms: u64, timestamp: u64, times_selected: u64, exit_code: u64) -> (parts:
    ScoreParts)
    requires
        timestamp <= current_ms,
    ensures
        parts.age_ms == current_ms - timestamp,
        times_selected <= FULL_SELECTIONS ==> parts.selections == times_selected,
        times_selected > FULL_SELECTIONS ==> parts.selections == FULL_SELECTIONS,
        parts.selections == (if times_selected < 100 {
            times_selected
        } else {
            100
        }),
        parts.succeeded == (exit_code == 0),
{
    ScoreParts {
        age_ms: current_ms - timestamp,
        selections: if times_selected > FULL_SELECTIONS {
            FULL_SELECTIONS
        } else {
            times_selected
        },
        succeeded: exit_code == 0,
    }
}

/// In the pattern of a search text the characters of the text stand as they are and in their
/// order, all of them, with the two characters of a gap in front of each and behind the last.
pub proof fn law_pattern_holds_the_whole_text(text: Seq<char>, i: int)
    ensures
        text.len() > 0 ==> search_pattern(text).len() == 3 * text.len() + 2,
        text.len() == 0 ==> search_pattern(text) == seq!['.', '*', '.', '*'],
        0 <= i < text.len() ==> search_pattern(text)[3 * i + 2] == text[i],
        text.len() > 0 && 0 <= i <= text.len() ==> search_pattern(text)[3 * i] == '.'
            && search_pattern(text)[3 * i + 1] == '*',
{
    if text.len() > 0 {
        lemma_spaced(text, i);
        let pattern = search_pattern(text);
        if 0 < i < text.len() {
            assert(pattern[3 * i] == spaced(text)[3 * i - 2]);
            assert(pattern[3 * i + 1] == spaced(text)[3 * i - 1]);
        }
        if 0 <= i < text.len() {
            assert(pattern[3 * i + 2] == spaced(text)[3 * i]);
        }
    } else {
        assert(search_pattern(text) == seq!['.', '*', '.', '*']);
    }
}

proof fn lemma_spaced(text: Seq<char>, i: int)
    requires
        text.len() > 0,
    ensures
        spaced(text).len() == 3 * text.len() - 2,
        0 <= i < text.len() ==> spaced(text)[3 * i] == text[i],
        0 < i < text.len() ==> spaced(text)[3 * i - 2] == '.' && spaced(text)[3 * i - 1] == '*',
    decreases text.len(),
{
    if text.len() > 1 {
        lemma_spaced(text.drop_last(), i);
    }
}

/// What searches are limited by and scored with.
pub proof fn law_numbers_of_a_search()
    ensures
        SEARCH_LIMIT == 10,
        ONE_MONTH_MS == 2_629_800_000,
        FULL_SELECTIONS == 100,
{
}

} // verus!
