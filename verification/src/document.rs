//! The document that is added to the index for a command.
use tantivy::schema::Schema;
use tantivy::Document;
use vstd::prelude::*;

use crate::schema::{
    command_fields, existing_field, field_number, holds_commands, law_command_fields_are_numbered,
    schema_fields, FieldLayout,
};
use crate::text::{decimal, decimal_string};

verus! {

/// `tantivy::Document`, a collection of values under the fields of a schema.
#[verifier::external_type_specification]
#[verifier::external_body]
pub struct ExDocument(Document);

/// A value in a document.
pub enum FieldValue {
    /// A number of 64 bits.
    Number(u64),
    /// A text.
    Text(Seq<char>),
    /// Anything else.
    Other,
}

/// The values that a `Document` holds, each with the number of its field, in the order in which
/// they were added.
pub uninterp spec fn document_values(document: Document) -> Seq<(u32, FieldValue)>;

/// What `fasthash::city::hash64` gives for a text.
pub uninterp spec fn city_hash(text: Seq<char>) -> u64;

/// `tantivy::Document::default`: a document without values.
#[verifier::external_body]
fn new_document() -> (document: Document)
    ensures
        document_values(document) == Seq::<(u32, FieldValue)>::empty(),
{
    Document::default()
}

/// `tantivy::Document::add_u64`: the number comes behind the values that are there.
#[verifier::external_body]
fn add_number(document: &mut Document, field: u32, value: u64)
    ensures
        document_values(*final(document)) == document_values(*old(document)).push(
            (field, FieldValue::Number(value)),
        ),
{
    document.add_u64(tantivy::schema::Field::from_field_id(field), value);
}

/// `tantivy::Document::add_text`: the text comes behind the values that are there.
#[verifier::external_body]
fn add_text(document: &mut Document, field: u32, text: &str)
    ensures
        document_values(*final(document)) == document_values(*old(document)).push(
            (field, FieldValue::Text(text@)),
        ),
{
    document.add_text(tantivy::schema::Field::from_field_id(field), text);
}

/// `fasthash::city::hash64` on the bytes of a text: a value that the text alone decides.
#[verifier::external_body]
fn hash64(text: &str) -> (hash: u64)
    ensures
        hash == city_hash(text@),
{
    fasthash::city::hash64(text)
}

/// `ulid::Ulid::new` and its `timestamp_ms`: the milliseconds since the Unix epoch, of which 48
/// bits are kept. What the clock shows is left open.
#[verifier::external_body]
pub(crate) fn current_ms() -> (ms: u64)
    ensures
        ms < 0x1_0000_0000_0000,
{
    ulid::Ulid::new().timestamp_ms()
}

/// The text that tells a command in a directory from others.
pub open spec fn id_text(directory: Seq<char>, command: Seq<char>) -> Seq<char> {
    directory + seq![' '] + command
}

/// The number under which a command that was run in a directory is kept.
pub fn command_id(directory: &str, command: &str) -> (id: u64)
    ensures
        id == city_hash(id_text(directory@, command@)),
        id == city_hash(directory@ + seq![' '] + command@),
{
    proof {
        reveal_strlit(" ");
    }
    let mut text = directory.to_owned();
    text.append(" ");
    text.append(command);
    assert(text@ == id_text(directory@, command@));
    hash64(text.as_str())
}

/// The query for the documents of an id.
pub fn id_query(id: u64) -> (query: String)
    ensures
        query@ == decimal(id as nat),
{
    decimal_string(id)
}

/// How often a command has been selected, after `previous` times of which the index knows.
pub open spec fn times_selected(previous: Option<u64>) -> int {
    match previous {
        Some(times) => times + 1,
        None => 1,
    }
}

/// The values of a command in an index with these fields.
pub open spec fn command_values(
    fields: Seq<FieldLayout>,
    directory: Seq<char>,
    command: Seq<char>,
    exit_code: u64,
    previous: Option<u64>,
    timestamp: u64,
) -> Seq<(u32, FieldValue)> {
    seq![
        (
            field_number(fields, "id"@) as u32,
            FieldValue::Number(city_hash(id_text(directory, command))),
        ),
        (field_number(fields, "timestamp"@) as u32, FieldValue::Number(timestamp)),
        (
            field_number(fields, "times_selected"@) as u32,
            FieldValue::Number(times_selected(previous) as u64),
        ),
        (field_number(fields, "exit_code"@) as u32, FieldValue::Number(exit_code)),
        (field_number(fields, "command"@) as u32, FieldValue::Text(command)),
        (field_number(fields, "directory"@) as u32, FieldValue::Text(directory)),
    ]
}

/// The document of a command that was run at a given time.
///
/// `previous` is how often the command was selected by what the index holds for its id.
pub fn command_document(
    directory: &str,
    command: &str,
    schema: &Schema,
    previous: Option<u64>,
    exit_code: u64,
    timestamp: u64,
) -> (document: Document)
    requires
        holds_commands(schema_fields(*schema)),
        times_selected(previous) <= u64::MAX,
    ensures
        document_values(document) == command_values(
            schema_fields(*schema),
            directory@,
            command@,
            exit_code,
            previous,
            timestamp,
        ),
        document_values(document).contains(
            (field_number(schema_fields(*schema), "command"@) as u32, FieldValue::Text(command@)),
        ),
        document_values(document).contains(
            (
                field_number(schema_fields(*schema), "directory"@) as u32,
                FieldValue::Text(directory@),
            ),
        ),
{
    proof {
        law_document_holds_what_it_was_given(
            schema_fields(*schema),
            directory@,
            command@,
            exit_code,
            previous,
            timestamp,
        );
    }
    let id_field = existing_field(schema, "id");
    let timestamp_field = existing_field(schema, "timestamp");
    let times_selected_field = existing_field(schema, "times_selected");
    let exit_code_field = existing_field(schema, "exit_code");
    let directory_field = existing_field(schema, "directory");
    let command_field = existing_field(schema, "command");
    let times: u64 = match previous {
        Some(times) => times + 1,
        None => 1,
    };
    let mut document = new_document();
    add_number(&mut document, id_field, command_id(directory, command));
    add_number(&mut document, timestamp_field, timestamp);
    add_number(&mut document, times_selected_field, times);
    add_number(&mut document, exit_code_field, exit_code);
    add_text(&mut document, command_field, command);
    add_text(&mut document, directory_field, directory);
    document
}

/// The document of a command that was run now.
pub fn index_command(
    command_directory: &str,
    new_command: &str,
    schema: &Schema,
    previous: Option<u64>,
    exit_code: u64,
) -> (document: Document)
    requires
        holds_commands(schema_fields(*schema)),
        times_selected(previous) <= u64::MAX,
    ensures
        exists|timestamp: u64|
            timestamp < 0x1_0000_0000_0000 && document_values(document)
                == #[trigger] command_values(
                schema_fields(*schema),
                command_directory@,
                new_command@,
                exit_code,
                previous,
                timestamp,
            ),
{
    command_document(command_directory, new_command, schema, previous, exit_code, current_ms())
}

/// A document holds six values, and each is what was given for it: the command and the directory
/// as they are, the exit code and the time, the hash of the directory, a blank and the command,
/// and one selection more than the index knew of.
pub proof fn law_document_holds_what_it_was_given(
    fields: Seq<FieldLayout>,
    directory: Seq<char>,
    command: Seq<char>,
    exit_code: u64,
    previous: Option<u64>,
    timestamp: u64,
)
    ensures
        ({
            let values = command_values(
                fields,
                directory,
                command,
                exit_code,
                previous,
                timestamp,
            );
            &&& values.len() == 6
            &&& values.contains((field_number(fields, "command"@) as u32, FieldValue::Text(command)))
            &&& values.contains(
                (field_number(fields, "directory"@) as u32, FieldValue::Text(directory)),
            )
            &&& values.contains(
                (field_number(fields, "exit_code"@) as u32, FieldValue::Number(exit_code)),
            )
            &&& values.contains(
                (field_number(fields, "timestamp"@) as u32, FieldValue::Number(timestamp)),
            )
            &&& values.contains(
                (
                    field_number(fields, "id"@) as u32,
                    FieldValue::Number(city_hash(directory + seq![' '] + command)),
                ),
            )
            &&& previous is None ==> values.contains(
                (field_number(fields, "times_selected"@) as u32, FieldValue::Number(1)),
            )
            &&& previous is Some && previous->0 < u64::MAX ==> values.contains(
                (
                    field_number(fields, "times_selected"@) as u32,
                    FieldValue::Number((previous->0 + 1) as u64),
                ),
            )
        }),
{
    let values = command_values(fields, directory, command, exit_code, previous, timestamp);
    assert(values[0] == (
        field_number(fields, "id"@) as u32,
        FieldValue::Number(city_hash(directory + seq![' '] + command)),
    ));
    assert(values[1].1 == FieldValue::Number(timestamp));
    assert(values[2].0 == field_number(fields, "times_selected"@) as u32);
    assert(values[3].1 == FieldValue::Number(exit_code));
    assert(values[4].1 == FieldValue::Text(command));
    assert(values[5].1 == FieldValue::Text(directory));
}

/// Under each field of the schema of the index a document holds one value, and what is read back
/// from it is the command, the directory, the exit code and the time that were given.
pub proof fn law_document_gives_back_the_command(
    directory: Seq<char>,
    command: Seq<char>,
    exit_code: u64,
    previous: Option<u64>,
    timestamp: u64,
    i: int,
)
    requires
        0 <= i < 6,
    ensures
        ({
            let values = command_values(
                command_fields(),
                directory,
                command,
                exit_code,
                previous,
                timestamp,
            );
            &&& values[i].0 == 5 <==> i == 4
            &&& values[i].0 == 5 ==> values[i].1 == FieldValue::Text(command)
            &&& values[i].0 == 4 ==> values[i].1 == FieldValue::Text(directory)
            &&& values[i].0 == 3 ==> values[i].1 == FieldValue::Number(exit_code)
            &&& values[i].0 == 1 ==> values[i].1 == FieldValue::Number(timestamp)
            &&& values[i].0 < 6
        }),
{
    law_command_fields_are_numbered();
    assert(i == 0 || i == 1 || i == 2 || i == 3 || i == 4 || i == 5);
}

/// The count of a command begins with one and goes up by one.
pub proof fn law_selections_are_counted_one_by_one(times: u64)
    ensures
        times_selected(None) == 1,
        times_selected(Some(times)) == times + 1,
{
}

} // verus!
