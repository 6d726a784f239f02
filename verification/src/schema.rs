//! The fields under which a command is kept in the index.
use tantivy::schema::{Schema, SchemaBuilder};
use vstd::prelude::*;

verus! {

/// `tantivy::schema::SchemaBuilder`, to which the fields of a schema are added one by one.
#[verifier::external_type_specification]
#[verifier::external_body]
pub struct ExSchemaBuilder(SchemaBuilder);

/// `tantivy::schema::Schema`, the fields of an index.
#[verifier::external_type_specification]
#[verifier::external_body]
pub struct ExSchema(Schema);

/// What is kept of the words of a text beside where they occur.
pub enum Recording {
    /// Nothing.
    Basic,
    /// How often they occur.
    WithFreqs,
    /// How often and at which positions they occur.
    WithFreqsAndPositions,
}

/// What is kept under a field, and how.
pub enum FieldKind {
    /// A number of 64 bits.
    Number { fast: bool, indexed: bool, stored: bool },
    /// A text that is indexed as this tokenizer splits it.
    Text { tokenizer: Seq<char>, recording: Recording, stored: bool },
    /// Anything else.
    Other,
}

/// A field of a schema.
pub struct FieldLayout {
    pub name: Seq<char>,
    pub kind: FieldKind,
}

/// The fields that a `SchemaBuilder` holds, in the order in which they were added.
pub uninterp spec fn builder_fields(builder: SchemaBuilder) -> Seq<FieldLayout>;

/// The fields that a `Schema` holds, in the order of their numbers.
pub uninterp spec fn schema_fields(schema: Schema) -> Seq<FieldLayout>;

/// Some field has this name.
pub open spec fn has_field(fields: Seq<FieldLayout>, name: Seq<char>) -> bool {
    exists|i: int| 0 <= i < fields.len() && #[trigger] fields[i].name == name
}

/// The number of the field with this name: its place among the fields. No two fields of a schema
/// have one name; of several the last is meant.
pub open spec fn field_number(fields: Seq<FieldLayout>, name: Seq<char>) -> int
    decreases fields.len(),
{
    if fields.len() == 0 {
        -1
    } else if fields.last().name == name {
        fields.len() - 1
    } else {
        field_number(fields.drop_last(), name)
    }
}

/// A command can be kept under these fields: all of its six are there, and they can be numbered
/// in 32 bits.
pub open spec fn holds_commands(fields: Seq<FieldLayout>) -> bool {
    &&& fields.len() <= u32::MAX
    &&& has_field(fields, "id"@)
    &&& has_field(fields, "timestamp"@)
    &&& has_field(fields, "times_selected"@)
    &&& has_field(fields, "exit_code"@)
    &&& has_field(fields, "directory"@)
    &&& has_field(fields, "command"@)
}

/// A field can have this name: it is not empty and does not begin with a hyphen.
pub open spec fn is_field_name(name: Seq<char>) -> bool {
    name.len() > 0 && name.first() != '-'
}

/// A field with a number that is fast, indexed and stored.
pub open spec fn number_field(name: Seq<char>) -> FieldLayout {
    FieldLayout { name, kind: FieldKind::Number { fast: true, indexed: true, stored: true } }
}

/// A field with a text that is stored, and indexed without frequencies and positions.
pub open spec fn text_field(name: Seq<char>, tokenizer: Seq<char>) -> FieldLayout {
    FieldLayout {
        name,
        kind: FieldKind::Text { tokenizer, recording: Recording::Basic, stored: true },
    }
}

/// The fields of a command in the index.
pub open spec fn command_fields() -> Seq<FieldLayout> {
    seq![
        number_field("id"@),
        number_field("timestamp"@),
        number_field("times_selected"@),
        number_field("exit_code"@),
        text_field("directory"@, "raw"@),
        text_field("command"@, "raw"@),
    ]
}

/// `tantivy::schema::Schema::builder`: a builder without fields.
#[verifier::external_body]
fn new_builder() -> (builder: SchemaBuilder)
    ensures
        builder_fields(builder) == Seq::<FieldLayout>::empty(),
{
    Schema::builder()
}

/// `tantivy::schema::SchemaBuilder::add_u64_field` with the options fast, indexed and stored:
/// the field comes behind those that are there.
///
/// It panics where the name is taken or no name for a field.
#[verifier::external_body]
fn add_number_field(builder: &mut SchemaBuilder, name: &str)
    requires
        is_field_name(name@),
        !has_field(builder_fields(*old(builder)), name@),
    ensures
        builder_fields(*final(builder)) == builder_fields(*old(builder)).push(number_field(name@)),
{
    builder.add_u64_field(
        name,
        tantivy::schema::FAST | tantivy::schema::INDEXED | tantivy::schema::STORED,
    );
}

/// `tantivy::schema::SchemaBuilder::add_text_field` with the options stored and indexed, the
/// latter by the given tokenizer and with `IndexRecordOption::Basic`: the field comes behind
/// those that are there.
///
/// It panics where the name is taken or no name for a field.
#[verifier::external_body]
fn add_text_field(builder: &mut SchemaBuilder, name: &str, tokenizer: &str)
    requires
        is_field_name(name@),
        !has_field(builder_fields(*old(builder)), name@),
    ensures
        builder_fields(*final(builder)) == builder_fields(*old(builder)).push(
            text_field(name@, tokenizer@),
        ),
{
    let indexing = tantivy::schema::TextFieldIndexing::default()
        .set_tokenizer(tokenizer)
        .set_index_option(tantivy::schema::IndexRecordOption::Basic);
    let options = tantivy::schema::TextOptions::default()
        .set_indexing_options(indexing)
        .set_stored();
    builder.add_text_field(name, options);
}

/// `tantivy::schema::SchemaBuilder::build`: the schema has the fields of the builder.
#[verifier::external_body]
fn finish(builder: SchemaBuilder) -> (schema: Schema)
    ensures
        schema_fields(schema) == builder_fields(builder),
{
    builder.build()
}

/// `tantivy::schema::Schema::get_field`: the number of the field with this name. A field is
/// numbered by its place among the fields, in 32 bits.
#[verifier::external_body]
fn get_field(schema: &Schema, name: &str) -> (field: Option<u32>)
    requires
        schema_fields(*schema).len() <= u32::MAX,
    ensures
        field is Some <==> has_field(schema_fields(*schema), name@),
        field matches Some(number) ==> number == field_number(schema_fields(*schema), name@),
{
    schema.get_field(name).map(|field| field.field_id())
}

/// The names of the six fields differ, and all are names for a field.
proof fn lemma_field_names()
    ensures
        forall|i: int, j: int|
            0 <= i < j < 6 ==> #[trigger] command_fields()[i].name
                != #[trigger] command_fields()[j].name,
        forall|i: int| 0 <= i < 6 ==> is_field_name(#[trigger] command_fields()[i].name),
{
    reveal_strlit("id");
    reveal_strlit("timestamp");
    reveal_strlit("times_selected");
    reveal_strlit("exit_code");
    reveal_strlit("directory");
    reveal_strlit("command");
    let fields = command_fields();
    assert(fields[0].name.len() == 2 && fields[0].name[0] == 'i');
    assert(fields[1].name.len() == 9 && fields[1].name[0] == 't');
    assert(fields[2].name.len() == 14 && fields[2].name[0] == 't');
    assert(fields[3].name.len() == 9 && fields[3].name[0] == 'e');
    assert(fields[4].name.len() == 9 && fields[4].name[0] == 'd');
    assert(fields[5].name.len() == 7 && fields[5].name[0] == 'c');
    assert forall|i: int, j: int| 0 <= i < j < 6 implies #[trigger] fields[i].name
        != #[trigger] fields[j].name by {
        assert(i == 0 || i == 1 || i == 2 || i == 3 || i == 4);
        assert(j == 1 || j == 2 || j == 3 || j == 4 || j == 5);
    }
    assert forall|i: int| 0 <= i < 6 implies is_field_name(#[trigger] fields[i].name) by {
        assert(i == 0 || i == 1 || i == 2 || i == 3 || i == 4 || i == 5);
    }
}

/// The field of a command at `place` can be added behind those in front of it.
proof fn lemma_next_field(place: int)
    requires
        0 <= place < 6,
    ensures
        is_field_name(command_fields()[place].name),
        !has_field(command_fields().take(place), command_fields()[place].name),
        command_fields().take(place + 1) == command_fields().take(place).push(
            command_fields()[place],
        ),
{
    lemma_field_names();
    let fields = command_fields();
    assert forall|i: int| 0 <= i < place implies #[trigger] fields.take(place)[i].name
        != fields[place].name by {
        assert(fields.take(place)[i] == fields[i]);
    }
}

/// Builds the schema of the index.
pub fn build_schema() -> (schema: Schema)
    ensures
        schema_fields(schema) == command_fields(),
        holds_commands(schema_fields(schema)),
{
    let ghost fields = command_fields();
    let mut builder = new_builder();
    proof {
        assert(builder_fields(builder) == fields.take(0));
        lemma_next_field(0);
        lemma_next_field(1);
        lemma_next_field(2);
        lemma_next_field(3);
        lemma_next_field(4);
        lemma_next_field(5);
        assert(fields.take(6) == fields);
        law_command_fields_are_numbered();
    }
    add_number_field(&mut builder, "id");
    add_number_field(&mut builder, "timestamp");
    add_number_field(&mut builder, "times_selected");
    add_number_field(&mut builder, "exit_code");
    add_text_field(&mut builder, "directory", "raw");
    add_text_field(&mut builder, "command", "raw");
    finish(builder)
}

/// The number of a field that the schema has.
pub(crate) fn existing_field(schema: &Schema, name: &str) -> (number: u32)
    requires
        schema_fields(*schema).len() <= u32::MAX,
        has_field(schema_fields(*schema), name@),
    ensures
        number == field_number(schema_fields(*schema), name@),
{
    match get_field(schema, name) {
        Some(number) => number,
        None => 0,
    }
}

/// A field stands at its number, if no field behind it has its name.
proof fn lemma_field_number(fields: Seq<FieldLayout>, place: int)
    requires
        0 <= place < fields.len(),
        forall|i: int| place < i < fields.len() ==> #[trigger] fields[i].name != fields[place].name,
    ensures
        field_number(fields, fields[place].name) == place,
    decreases fields.len(),
{
    if place < fields.len() - 1 {
        assert(fields.last() == fields[fields.len() - 1]);
        let rest = fields.drop_last();
        assert forall|i: int| place < i < rest.len() implies #[trigger] rest[i].name
            != rest[place].name by {
            assert(rest[i] == fields[i]);
        }
        lemma_field_number(rest, place);
    }
}

/// The schema of the index holds commands, and its fields are numbered in the order in which they
/// are declared.
pub proof fn law_command_fields_are_numbered()
    ensures
        holds_commands(command_fields()),
        field_number(command_fields(), "id"@) == 0,
        field_number(command_fields(), "timestamp"@) == 1,
        field_number(command_fields(), "times_selected"@) == 2,
        field_number(command_fields(), "exit_code"@) == 3,
        field_number(command_fields(), "directory"@) == 4,
        field_number(command_fields(), "command"@) == 5,
{
    lemma_field_names();
    let fields = command_fields();
    assert(fields[0].name == "id"@);
    assert(fields[1].name == "timestamp"@);
    assert(fields[2].name == "times_selected"@);
    assert(fields[3].name == "exit_code"@);
    assert(fields[4].name == "directory"@);
    assert(fields[5].name == "command"@);
    lemma_field_number(fields, 0);
    lemma_field_number(fields, 1);
    lemma_field_number(fields, 2);
    lemma_field_number(fields, 3);
    lemma_field_number(fields, 4);
    lemma_field_number(fields, 5);
}

/// The fields under which commands are kept: four numbers that are fast, indexed and stored, and
/// two texts that are stored and indexed as a whole.
pub proof fn law_fields_of_a_command(i: int)
    ensures
        command_fields().len() == 6,
        command_fields()[0].name == "id"@,
        command_fields()[1].name == "timestamp"@,
        command_fields()[2].name == "times_selected"@,
        command_fields()[3].name == "exit_code"@,
        command_fields()[4].name == "directory"@,
        command_fields()[5].name == "command"@,
        0 <= i < 4 ==> command_fields()[i].kind == (FieldKind::Number {
            fast: true,
            indexed: true,
            stored: true,
        }),
        4 <= i < 6 ==> command_fields()[i].kind == (FieldKind::Text {
            tokenizer: "raw"@,
            recording: Recording::Basic,
            stored: true,
        }),
{
    assert(i < 0 || i == 0 || i == 1 || i == 2 || i == 3 || i == 4 || i == 5 || i >= 6);
}

/// The number of a field that is there is the place of a field with its name, and a field that
/// is there is found.
pub proof fn law_field_is_found_by_its_name(fields: Seq<FieldLayout>, place: int, name: Seq<char>)
    requires
        0 <= place < fields.len(),
    ensures
        has_field(fields, fields[place].name),
        has_field(fields, name) ==> 0 <= field_number(fields, name) < fields.len()
            && fields[field_number(fields, name)].name == name,
        !has_field(fields, name) ==> field_number(fields, name) < 0,
        fields[place].name == name ==> place <= field_number(fields, name),
{
    lemma_found_field(fields, name);
    if has_field(fields, name) {
        let i = choose|i: int| 0 <= i < fields.len() && #[trigger] fields[i].name == name;
        lemma_last_field(fields, name, i);
    }
    if fields[place].name == name {
        lemma_last_field(fields, name, place);
    }
}

proof fn lemma_found_field(fields: Seq<FieldLayout>, name: Seq<char>)
    ensures
        -1 <= field_number(fields, name) < fields.len(),
        field_number(fields, name) >= 0 ==> fields[field_number(fields, name)].name == name,
    decreases fields.len(),
{
    if fields.len() > 0 {
        lemma_found_field(fields.drop_last(), name);
    }
}

proof fn lemma_last_field(fields: Seq<FieldLayout>, name: Seq<char>, place: int)
    requires
        0 <= place < fields.len(),
        fields[place].name == name,
    ensures
        place <= field_number(fields, name),
    decreases fields.len(),
{
    if fields.last().name != name {
        lemma_last_field(fields.drop_last(), name, place);
    }
}

} // verus!
