use extension_mirror::catalog::ExtensionListData;
use extension_mirror::ext_searcher::{
    extension_updates_query, extension_versions_query, extensions_query, Clause, ExtSearcher,
    SearchError, TermTest,
};
use extension_mirror::index::{schema, Indexer};
use extension_mirror::package_meta::ExtensionMetadata;
use extension_mirror::progress::Progress;
use extension_mirror::serve::extensions::{
    GetExtensionUpdatesParams, GetExtensionVersionsParams, GetExtensionsParams,
};

fn record(json: &str) -> serde_json::Map<String, serde_json::Value> {
    serde_json::from_str(json).unwrap()
}

fn searcher_over(records: Vec<&str>) -> ExtSearcher {
    let index = tantivy::Index::create_in_ram(schema());
    let indexer = Indexer::from_index(index.clone());
    let data = ExtensionListData { data: records.into_iter().map(record).collect() };
    let mut progress = Progress::new();
    indexer.index(data, &mut progress).unwrap();
    ExtSearcher::init(index).unwrap()
}

fn ids(found: &[ExtensionMetadata]) -> Vec<String> {
    let mut ids: Vec<String> = found.iter().map(|m| m.id.clone()).collect();
    ids.sort();
    ids
}

fn term(field: &str, text: &str) -> TermTest {
    TermTest { field: field.to_string(), text: text.to_string() }
}

#[test]
fn list_query_keeps_schema_versions_up_to_max() {
    let searcher = searcher_over(vec![
        r#"{"id":"a","name":"Alpha","version":"1.0.0","schema_version":1}"#,
        r#"{"id":"b","name":"Beta","version":"1.0.0","schema_version":2}"#,
    ]);
    let params = GetExtensionsParams { filter: None, provides: None, max_schema_version: 1 };
    let found = searcher.get_extensions(&params).unwrap();
    assert_eq!(ids(&found), vec!["a".to_string()]);
}

#[test]
fn update_check_keeps_ids_within_closed_range() {
    let searcher = searcher_over(vec![
        r#"{"id":"a","name":"Alpha","version":"1.0.0","schema_version":1}"#,
        r#"{"id":"b","name":"Beta","version":"1.0.0","schema_version":2}"#,
        r#"{"id":"c","name":"Gamma","version":"1.0.0","schema_version":3}"#,
    ]);
    let params = GetExtensionUpdatesParams {
        ids: "a,b,c".to_string(),
        min_schema_version: 1,
        max_schema_version: 2,
    };
    let found = searcher.get_extension_updates(&params).unwrap();
    assert_eq!(ids(&found), vec!["a".to_string(), "b".to_string()]);
}

#[test]
fn update_check_bounds_are_inclusive_and_ids_are_trimmed() {
    let searcher = searcher_over(vec![
        r#"{"id":"a","name":"Alpha","version":"1.0.0","schema_version":1}"#,
        r#"{"id":"b","name":"Beta","version":"1.0.0","schema_version":2}"#,
        r#"{"id":"c","name":"Gamma","version":"1.0.0","schema_version":3}"#,
        r#"{"id":"d","name":"Delta","version":"1.0.0","schema_version":2}"#,
    ]);
    let params = GetExtensionUpdatesParams {
        ids: " b , c ,a".to_string(),
        min_schema_version: 2,
        max_schema_version: 3,
    };
    let found = searcher.get_extension_updates(&params).unwrap();
    assert_eq!(ids(&found), vec!["b".to_string(), "c".to_string()]);
}

#[test]
fn capability_filter_keeps_packages_with_a_listed_capability() {
    let searcher = searcher_over(vec![
        r#"{"id":"t","name":"Theme pack","version":"1.0.0","schema_version":1,"provides":["themes"]}"#,
        r#"{"id":"l","name":"Language pack","version":"1.0.0","schema_version":1,"provides":["languages"]}"#,
    ]);
    let params = GetExtensionsParams {
        filter: None,
        provides: Some("themes".to_string()),
        max_schema_version: 1,
    };
    let found = searcher.get_extensions(&params).unwrap();
    assert_eq!(ids(&found), vec!["t".to_string()]);
    assert_eq!(found[0].provides, vec!["themes".to_string()]);
}

#[test]
fn capability_filter_matches_any_of_several() {
    let searcher = searcher_over(vec![
        r#"{"id":"t","name":"Theme pack","version":"1.0.0","schema_version":1,"provides":["themes"]}"#,
        r#"{"id":"l","name":"Language pack","version":"1.0.0","schema_version":1,"provides":["languages"]}"#,
        r#"{"id":"s","name":"Snippets","version":"1.0.0","schema_version":1,"provides":["snippets"]}"#,
    ]);
    let params = GetExtensionsParams {
        filter: None,
        provides: Some("themes, languages".to_string()),
        max_schema_version: 1,
    };
    let found = searcher.get_extensions(&params).unwrap();
    assert_eq!(ids(&found), vec!["l".to_string(), "t".to_string()]);
}

#[test]
fn filter_matches_a_word_of_the_name_or_the_id() {
    let searcher = searcher_over(vec![
        r#"{"id":"rose-pine","name":"Rose Pine","version":"1.0.0","schema_version":1}"#,
        r#"{"id":"nord","name":"Nord Theme","version":"1.0.0","schema_version":1}"#,
    ]);
    let by_word = GetExtensionsParams {
        filter: Some("nord".to_string()),
        provides: None,
        max_schema_version: 1,
    };
    assert_eq!(ids(&searcher.get_extensions(&by_word).unwrap()), vec!["nord".to_string()]);
    let by_id = GetExtensionsParams {
        filter: Some("Rose-Pine".to_string()),
        provides: None,
        max_schema_version: 1,
    };
    assert_eq!(ids(&searcher.get_extensions(&by_id).unwrap()), vec!["rose-pine".to_string()]);
}

#[test]
fn version_listing_returns_every_version_of_the_id() {
    let searcher = searcher_over(vec![
        r#"{"id":"a","name":"Alpha","version":"1.0.0","schema_version":1}"#,
        r#"{"id":"a","name":"Alpha","version":"1.1.0","schema_version":1}"#,
        r#"{"id":"b","name":"Beta","version":"1.0.0","schema_version":1}"#,
    ]);
    let params = GetExtensionVersionsParams { extension_id: "a".to_string() };
    let found = searcher.get_extension_versions(&params).unwrap();
    let mut versions: Vec<String> = found.iter().map(|m| m.version.clone()).collect();
    versions.sort();
    assert_eq!(versions, vec!["1.0.0".to_string(), "1.1.0".to_string()]);
    assert!(found.iter().all(|m| m.id == "a"));
}

#[test]
fn found_documents_carry_the_stored_metadata() {
    let searcher = searcher_over(vec![
        r#"{"id":"a","name":"Alpha","version":"1.2.3","description":"An extension",
            "authors":["Ann","Bob"],"repository":"https://example.org/a","schema_version":1,
            "wasm_api_version":"0.1.0","provides":["themes","languages"],
            "published_at":"2024-01-01T00:00:00Z","download_count":42}"#,
    ]);
    let params = GetExtensionVersionsParams { extension_id: "a".to_string() };
    let found = searcher.get_extension_versions(&params).unwrap();
    assert_eq!(found.len(), 1);
    let expected = ExtensionMetadata {
        id: "a".to_string(),
        published_at: "2024-01-01T00:00:00Z".to_string(),
        download_count: 42,
        name: "Alpha".to_string(),
        version: "1.2.3".to_string(),
        description: Some("An extension".to_string()),
        authors: vec!["Ann".to_string(), "Bob".to_string()],
        repository: "https://example.org/a".to_string(),
        schema_version: Some(1),
        wasm_api_version: Some("0.1.0".to_string()),
        provides: vec!["themes".to_string(), "languages".to_string()],
    };
    assert_eq!(found[0], expected);
}

#[test]
fn null_api_version_is_dropped_before_ingestion() {
    let searcher = searcher_over(vec![
        r#"{"id":"a","name":"Alpha","version":"1.0.0","schema_version":1,"wasm_api_version":null}"#,
    ]);
    let params = GetExtensionVersionsParams { extension_id: "a".to_string() };
    let found = searcher.get_extension_versions(&params).unwrap();
    assert_eq!(found.len(), 1);
    assert_eq!(found[0].wasm_api_version, None);
}

#[test]
fn indexing_counts_one_success_per_document() {
    let index = tantivy::Index::create_in_ram(schema());
    let indexer = Indexer::from_index(index);
    let data = ExtensionListData {
        data: vec![
            record(r#"{"id":"a","name":"Alpha","version":"1.0.0","schema_version":1}"#),
            record(r#"{"id":"b","name":"Beta","version":"1.0.0","schema_version":1}"#),
            record(r#"{"id":"c","name":"Gamma","version":"1.0.0","schema_version":1}"#),
        ],
    };
    let mut progress = Progress::new();
    progress.files.inc_total(3);
    indexer.index(data, &mut progress).unwrap();
    assert_eq!(progress.files.success(), 3);
    assert_eq!(progress.files.remaining(), 0);
}

#[test]
fn query_on_an_index_without_the_field_is_an_error() {
    let mut builder = tantivy::schema::SchemaBuilder::new();
    builder.add_text_field("id", tantivy::schema::STRING);
    let index = tantivy::Index::create_in_ram(builder.build());
    let searcher = ExtSearcher::init(index).unwrap();
    let params = GetExtensionsParams { filter: None, provides: None, max_schema_version: 1 };
    match searcher.get_extensions(&params) {
        Err(SearchError::FieldNotFound(name)) => assert_eq!(name, "schema_version"),
        other => panic!("unexpected result: {:?}", other),
    }
}

#[test]
fn list_query_is_filter_then_capabilities_then_range() {
    let params = GetExtensionsParams {
        filter: Some("Nord".to_string()),
        provides: Some("themes, languages".to_string()),
        max_schema_version: 7,
    };
    let plan = extensions_query(&params);
    assert_eq!(
        plan,
        vec![
            Clause::AnyTerm(vec![term("name", "Nord"), term("id", "nord")]),
            Clause::AnyTerm(vec![term("provides", "themes"), term("provides", "languages")]),
            Clause::Range { field: "schema_version".to_string(), lower: None, upper: 7 },
        ]
    );
}

#[test]
fn list_query_without_filters_is_the_range_alone() {
    let params = GetExtensionsParams { filter: None, provides: None, max_schema_version: -3 };
    assert_eq!(
        extensions_query(&params),
        vec![Clause::Range { field: "schema_version".to_string(), lower: None, upper: -3 }]
    );
}

#[test]
fn updates_query_is_ids_then_closed_range() {
    let params = GetExtensionUpdatesParams {
        ids: "a, b,,c ".to_string(),
        min_schema_version: 1,
        max_schema_version: 2,
    };
    assert_eq!(
        extension_updates_query(&params),
        vec![
            Clause::AnyTerm(vec![term("id", "a"), term("id", "b"), term("id", ""), term("id", "c")]),
            Clause::Range { field: "schema_version".to_string(), lower: Some(1), upper: 2 },
        ]
    );
}

#[test]
fn versions_query_is_the_id_alone() {
    let params = GetExtensionVersionsParams { extension_id: "rose-pine".to_string() };
    assert_eq!(
        extension_versions_query(&params),
        vec![Clause::AnyTerm(vec![term("id", "rose-pine")])]
    );
}

#[test]
fn empty_capability_list_is_one_empty_term() {
    let params = GetExtensionsParams {
        filter: None,
        provides: Some(String::new()),
        max_schema_version: 1,
    };
    assert_eq!(
        extensions_query(&params),
        vec![
            Clause::AnyTerm(vec![term("provides", "")]),
            Clause::Range { field: "schema_version".to_string(), lower: None, upper: 1 },
        ]
    );
}

#[test]
fn the_first_lacking_field_is_the_one_reported() {
    let mut builder = tantivy::schema::SchemaBuilder::new();
    builder.add_text_field("id", tantivy::schema::STRING);
    let index = tantivy::Index::create_in_ram(builder.build());
    let searcher = ExtSearcher::init(index).unwrap();
    let filtered = GetExtensionsParams {
        filter: Some("nord".to_string()),
        provides: Some("themes".to_string()),
        max_schema_version: 1,
    };
    match searcher.get_extensions(&filtered) {
        Err(SearchError::FieldNotFound(name)) => assert_eq!(name, "name"),
        other => panic!("unexpected result: {:?}", other),
    }
    let by_capability = GetExtensionsParams {
        filter: None,
        provides: Some("themes".to_string()),
        max_schema_version: 1,
    };
    match searcher.get_extensions(&by_capability) {
        Err(SearchError::FieldNotFound(name)) => assert_eq!(name, "provides"),
        other => panic!("unexpected result: {:?}", other),
    }
    let updates = GetExtensionUpdatesParams {
        ids: "a".to_string(),
        min_schema_version: 1,
        max_schema_version: 2,
    };
    match searcher.get_extension_updates(&updates) {
        Err(SearchError::FieldNotFound(name)) => assert_eq!(name, "schema_version"),
        other => panic!("unexpected result: {:?}", other),
    }
}

#[test]
fn a_query_that_names_only_fields_of_the_index_is_run() {
    let mut builder = tantivy::schema::SchemaBuilder::new();
    builder.add_text_field("id", tantivy::schema::STRING | tantivy::schema::STORED);
    let index = tantivy::Index::create_in_ram(builder.build());
    let searcher = ExtSearcher::init(index).unwrap();
    let params = GetExtensionVersionsParams { extension_id: "a".to_string() };
    assert_eq!(searcher.get_extension_versions(&params).unwrap(), vec![]);
    let plan = vec![Clause::AnyTerm(vec![term("id", "a"), term("missing", "b")])];
    match searcher.search(&plan) {
        Err(SearchError::FieldNotFound(name)) => assert_eq!(name, "missing"),
        other => panic!("unexpected result: {:?}", other),
    }
}

#[test]
fn a_stored_document_that_is_not_metadata_fails_the_query() {
    let mut builder = tantivy::schema::SchemaBuilder::new();
    builder.add_u64_field("id", tantivy::schema::INDEXED | tantivy::schema::STORED);
    builder.add_text_field("name", tantivy::schema::STRING | tantivy::schema::STORED);
    let schema = builder.build();
    let index = tantivy::Index::create_in_ram(schema.clone());
    let indexer = Indexer::from_index(index.clone());
    let data = ExtensionListData { data: vec![record(r#"{"id":7,"name":"seven"}"#)] };
    let mut progress = Progress::new();
    indexer.index(data, &mut progress).unwrap();
    let searcher = ExtSearcher::init(index).unwrap();
    let plan = vec![Clause::AnyTerm(vec![term("name", "seven")])];
    match searcher.search(&plan) {
        Err(SearchError::Decode(e)) => {
            assert_eq!(e, extension_mirror::package_meta::DecodeError::WrongType(0))
        }
        other => panic!("unexpected result: {:?}", other),
    }
}

#[test]
fn version_listing_takes_the_id_as_it_is_given() {
    let params = GetExtensionVersionsParams { extension_id: " a,b ".to_string() };
    assert_eq!(
        extension_versions_query(&params),
        vec![Clause::AnyTerm(vec![term("id", " a,b ")])]
    );
    let searcher = searcher_over(vec![
        r#"{"id":"a","name":"Alpha","version":"1.0.0","schema_version":1}"#,
        r#"{"id":"b","name":"Beta","version":"1.0.0","schema_version":1}"#,
        r#"{"id":"a,b","name":"Both","version":"1.0.0","schema_version":9}"#,
    ]);
    let both = GetExtensionVersionsParams { extension_id: "a,b".to_string() };
    assert_eq!(ids(&searcher.get_extension_versions(&both).unwrap()), vec!["a,b".to_string()]);
    let unknown = GetExtensionVersionsParams { extension_id: "zzz".to_string() };
    assert_eq!(searcher.get_extension_versions(&unknown).unwrap(), vec![]);
}

#[test]
fn a_range_is_not_run_on_a_field_that_holds_other_values() {
    let mut builder = tantivy::schema::SchemaBuilder::new();
    builder.add_text_field("id", tantivy::schema::STRING | tantivy::schema::STORED);
    builder.add_u64_field(
        "schema_version",
        tantivy::schema::INDEXED | tantivy::schema::FAST | tantivy::schema::STORED,
    );
    let index = tantivy::Index::create_in_ram(builder.build());
    let mut writer: tantivy::IndexWriter = index.writer(15_000_000).unwrap();
    let mut doc = tantivy::TantivyDocument::default();
    doc.add_text(index.schema().get_field("id").unwrap(), "a");
    doc.add_u64(index.schema().get_field("schema_version").unwrap(), 1);
    writer.add_document(doc).unwrap();
    writer.commit().unwrap();
    let searcher = ExtSearcher::init(index).unwrap();
    let params = GetExtensionUpdatesParams {
        ids: "a".to_string(),
        min_schema_version: 0,
        max_schema_version: 5,
    };
    match searcher.get_extension_updates(&params) {
        Err(SearchError::FieldNotFound(name)) => assert_eq!(name, "schema_version"),
        other => panic!("unexpected result: {:?}", other),
    }
    let versions = GetExtensionVersionsParams { extension_id: "a".to_string() };
    match searcher.get_extension_versions(&versions) {
        Err(SearchError::Decode(_)) => {}
        other => panic!("unexpected result: {:?}", other),
    }
}
