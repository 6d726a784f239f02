use fzh::document::{command_document, command_id, id_query, index_command};
use fzh::schema::build_schema;
use fzh::search::{
    build_query, pattern_of, score_parts, search_time, SearchError, FULL_SELECTIONS, ONE_MONTH_MS,
    SEARCH_LIMIT,
};
use tantivy::collector::{Count, TopDocs};
use tantivy::query::QueryParser;
use tantivy::schema::{Cardinality, FieldType, IndexRecordOption, Schema, FAST, INDEXED, STORED, STRING};
use tantivy::{Document, Index, IndexSettings, IndexSortByField, Order};

fn number(document: &Document, schema: &Schema, name: &str) -> u64 {
    let field = schema.get_field(name).unwrap();
    document.get_first(field).unwrap().as_u64().unwrap()
}

fn text(document: &Document, schema: &Schema, name: &str) -> String {
    let field = schema.get_field(name).unwrap();
    document.get_first(field).unwrap().as_text().unwrap().to_string()
}

fn index_of(schema: &Schema, documents: Vec<Document>) -> Index {
    let settings = IndexSettings {
        sort_by_field: Some(IndexSortByField {
            field: "timestamp".to_string(),
            order: Order::Desc,
        }),
        ..Default::default()
    };
    let index = Index::builder()
        .schema(schema.clone())
        .settings(settings)
        .create_in_ram()
        .unwrap();
    let mut writer = index.writer_with_num_threads(1, 10_000_000).unwrap();
    for document in documents {
        writer.add_document(document).unwrap();
    }
    writer.commit().unwrap();
    index
}

fn found(index: &Index, schema: &Schema, directory: &str, query: &str) -> Vec<String> {
    let searcher = index.reader().unwrap().searcher();
    let query = build_query(schema, directory, query).unwrap_or_else(|_| panic!());
    let (top_docs, count) = searcher
        .search(&query, &(TopDocs::with_limit(SEARCH_LIMIT), Count))
        .unwrap();
    assert!(top_docs.len() <= count);
    top_docs
        .into_iter()
        .map(|(_score, address)| text(&searcher.doc(address).unwrap(), schema, "command"))
        .collect()
}

#[test]
fn schema_has_its_fields() {
    let schema = build_schema();
    let names: Vec<&str> = schema.fields().map(|(_, entry)| entry.name()).collect();
    assert_eq!(
        names,
        vec!["id", "timestamp", "times_selected", "exit_code", "directory", "command"]
    );
    for (field, entry) in schema.fields() {
        assert_eq!(schema.get_field(entry.name()), Some(field));
        assert!(entry.is_indexed());
        assert!(entry.is_stored());
        match entry.field_type() {
            FieldType::U64(options) => {
                assert!(field.field_id() < 4);
                assert_eq!(
                    options.get_fastfield_cardinality(),
                    Some(Cardinality::SingleValue)
                );
            }
            FieldType::Str(options) => {
                assert!(field.field_id() >= 4);
                let indexing = options.get_indexing_options().unwrap();
                assert_eq!(indexing.tokenizer(), "raw");
                assert_eq!(indexing.index_option(), IndexRecordOption::Basic);
                assert!(!options.is_fast());
            }
            _ => panic!(),
        }
    }
}

#[test]
fn id_is_the_hash_of_directory_and_command() {
    assert_eq!(command_id("/home/me", "ls"), fasthash::city::hash64("/home/me ls"));
    assert_eq!(command_id("", "ls"), fasthash::city::hash64(" ls"));
    assert_ne!(command_id("/a", "ls"), command_id("/b", "ls"));
    assert_eq!(command_id("hello", "world"), fasthash::city::hash64(b"hello world"));
}

#[test]
fn id_query_is_the_id_in_digits() {
    assert_eq!(id_query(0), "0");
    assert_eq!(id_query(u64::MAX), "18446744073709551615");
}

#[test]
fn document_holds_the_command() {
    let schema = build_schema();
    let document = command_document("/tmp", "git status", &schema, None, 130, 1234);
    assert_eq!(document.len(), 6);
    assert_eq!(number(&document, &schema, "id"), command_id("/tmp", "git status"));
    assert_eq!(number(&document, &schema, "timestamp"), 1234);
    assert_eq!(number(&document, &schema, "times_selected"), 1);
    assert_eq!(number(&document, &schema, "exit_code"), 130);
    assert_eq!(text(&document, &schema, "command"), "git status");
    assert_eq!(text(&document, &schema, "directory"), "/tmp");
}

#[test]
fn fields_are_found_by_their_names() {
    let mut builder = Schema::builder();
    builder.add_text_field("command", STRING | STORED);
    builder.add_text_field("note", STRING | STORED);
    builder.add_text_field("directory", STRING | STORED);
    for name in ["exit_code", "times_selected", "timestamp", "id"] {
        builder.add_u64_field(name, FAST | INDEXED | STORED);
    }
    let schema = builder.build();
    let document = command_document("/tmp", "ls", &schema, Some(1), 3, 9);
    assert_eq!(document.len(), 6);
    assert_eq!(number(&document, &schema, "id"), command_id("/tmp", "ls"));
    assert_eq!(number(&document, &schema, "timestamp"), 9);
    assert_eq!(number(&document, &schema, "times_selected"), 2);
    assert_eq!(number(&document, &schema, "exit_code"), 3);
    assert_eq!(text(&document, &schema, "command"), "ls");
    assert_eq!(text(&document, &schema, "directory"), "/tmp");
    let index = index_of(&schema, vec![document]);
    assert_eq!(found(&index, &schema, "/tmp", "l"), vec!["ls"]);
    assert_eq!(found(&index, &schema, "/tmp", "t"), Vec::<String>::new());
}

#[test]
fn same_command_is_counted_under_the_same_id() {
    let schema = build_schema();
    let first = command_document("/tmp", "ls", &schema, None, 0, 1);
    let times = number(&first, &schema, "times_selected");
    let again = command_document("/tmp", "ls", &schema, Some(times), 1, 2);
    assert_eq!(number(&again, &schema, "id"), number(&first, &schema, "id"));
    assert_eq!(number(&again, &schema, "times_selected"), 2);
    let last = command_document("/tmp", "ls", &schema, Some(u64::MAX - 1), 1, 2);
    assert_eq!(number(&last, &schema, "times_selected"), u64::MAX);
}

#[test]
fn indexed_command_has_the_present_time() {
    let schema = build_schema();
    let before = search_time();
    let document = index_command("/tmp", "ls", &schema, Some(4), 0);
    let after = search_time();
    let timestamp = number(&document, &schema, "timestamp");
    assert!(before <= timestamp && timestamp <= after);
    assert!(before > 1_600_000_000_000 && after < 1 << 48);
    assert_eq!(number(&document, &schema, "times_selected"), 5);
    assert_eq!(text(&document, &schema, "command"), "ls");
    assert_eq!(text(&document, &schema, "directory"), "/tmp");
}

#[test]
fn pattern_has_gaps_everywhere() {
    assert_eq!(pattern_of(""), ".*.*");
    assert_eq!(pattern_of("g"), ".*g.*");
    assert_eq!(pattern_of("gs"), ".*g.*s.*");
    assert_eq!(pattern_of("a b"), ".*a.* .*b.*");
    assert_eq!(pattern_of("\u{e9}x"), ".*\u{e9}.*x.*");
}

#[test]
fn search_finds_the_letters_in_their_order() {
    let schema = build_schema();
    let commands = ["git status", "git log", "ls -la", "cargo test"];
    let documents = commands
        .iter()
        .map(|command| command_document("/a", command, &schema, None, 0, 5))
        .collect();
    let index = index_of(&schema, documents);
    assert_eq!(found(&index, &schema, "/a", "gu"), vec!["git status"]);
    assert_eq!(found(&index, &schema, "/a", "tgo"), Vec::<String>::new());
    assert_eq!(found(&index, &schema, "/a", "").len(), 4);
    let mut results = found(&index, &schema, "/a", "g");
    results.sort();
    assert_eq!(results, vec!["cargo test", "git log", "git status"]);
}

#[test]
fn search_prefers_the_directory() {
    let schema = build_schema();
    let documents = vec![
        command_document("/a", "make one", &schema, None, 0, 9),
        command_document("/b", "make two", &schema, None, 0, 8),
        command_document("/a", "make three", &schema, None, 0, 7),
    ];
    let index = index_of(&schema, documents);
    assert_eq!(found(&index, &schema, "/b", "make")[0], "make two");
    assert_eq!(found(&index, &schema, "/b", "make").len(), 3);
}

#[test]
fn search_gives_no_more_than_its_limit() {
    let schema = build_schema();
    let documents = (0..15)
        .map(|i| command_document("/a", &format!("echo {}", i), &schema, None, 0, i))
        .collect();
    let index = index_of(&schema, documents);
    assert_eq!(SEARCH_LIMIT, 10);
    assert_eq!(found(&index, &schema, "/a", "echo").len(), 10);
}

#[test]
fn search_text_that_makes_no_pattern_is_refused() {
    let schema = build_schema();
    for query in ["(", "[", "a)"] {
        assert!(matches!(
            build_query(&schema, "/a", query),
            Err(SearchError::InvalidPattern)
        ));
    }
}

#[test]
fn id_query_finds_the_document() {
    let schema = build_schema();
    let documents = vec![
        command_document("/a", "ls", &schema, Some(6), 0, 9),
        command_document("/a", "cd", &schema, None, 0, 8),
    ];
    let index = index_of(&schema, documents);
    let searcher = index.reader().unwrap().searcher();
    let parser = QueryParser::for_index(&index, vec![schema.get_field("id").unwrap()]);
    let query = parser.parse_query(&id_query(command_id("/a", "ls"))).unwrap();
    let top_docs = searcher.search(&query, &TopDocs::with_limit(1)).unwrap();
    assert_eq!(top_docs.len(), 1);
    let document = searcher.doc(top_docs[0].1).unwrap();
    assert_eq!(number(&document, &schema, "times_selected"), 7);
}

#[test]
fn score_is_made_of_its_parts() {
    assert_eq!(FULL_SELECTIONS, 100);
    assert_eq!(ONE_MONTH_MS, 2629800000);
    let parts = score_parts(5000, 1000, 42, 0);
    assert_eq!((parts.age_ms, parts.selections, parts.succeeded), (4000, 42, true));
    let parts = score_parts(5000, 5000, 100, 1);
    assert_eq!((parts.age_ms, parts.selections, parts.succeeded), (0, 100, false));
    let parts = score_parts(5000, 0, 101, 0);
    assert_eq!((parts.age_ms, parts.selections, parts.succeeded), (5000, 100, true));
}
