use extension_mirror::package_meta::{
    decode_documents, DecodeError, ExtensionMetadata, StoredValue,
};

fn text(s: &str) -> StoredValue {
    StoredValue::Str(s.to_string())
}

#[test]
fn default_metadata_is_empty() {
    let doc = ExtensionMetadata::default();
    assert_eq!(doc.id, "");
    assert_eq!(doc.name, "");
    assert_eq!(doc.version, "");
    assert_eq!(doc.description, None);
    assert!(doc.authors.is_empty());
    assert_eq!(doc.repository, "");
    assert_eq!(doc.schema_version, None);
    assert_eq!(doc.wasm_api_version, None);
    assert!(doc.provides.is_empty());
    assert_eq!(doc.published_at, "");
    assert_eq!(doc.download_count, 0);
}

#[test]
fn no_fields_decode_to_the_default() {
    assert_eq!(ExtensionMetadata::from_fields(vec![]), Ok(ExtensionMetadata::default()));
}

#[test]
fn fields_decode_by_number() {
    let fields = vec![
        (0, text("a")),
        (1, text("Alpha")),
        (2, text("1.2.3")),
        (3, text("An extension")),
        (4, text("Ann")),
        (4, text("Bob")),
        (5, text("https://example.org/a")),
        (6, StoredValue::I64(1)),
        (7, text("0.1.0")),
        (8, text("themes")),
        (8, text("languages")),
        (9, text("2024-01-01T00:00:00Z")),
        (10, StoredValue::U64(42)),
    ];
    let expected = ExtensionMetadata {
        id: "a".to_string(),
        published_at: "2024-01-01T00:00:00Z".to_string(),
        download_count: 42,
        name: "Alpha".to_string(),
        version: "1.2.3".to_string(),
        description: Some("An extension".to_string()),
        authors: vec!["Ann".to_string(), "Bob".to_string()],
        repository: "https://example.org/a".to_string(),
        schema_version: Some(1),
        wasm_api_version: Some("0.1.0".to_string()),
        provides: vec!["themes".to_string(), "languages".to_string()],
    };
    assert_eq!(ExtensionMetadata::from_fields(fields), Ok(expected));
}

#[test]
fn a_later_value_replaces_an_earlier_one() {
    let fields = vec![(0, text("first")), (2, text("1.0.0")), (0, text("second"))];
    let doc = ExtensionMetadata::from_fields(fields).unwrap();
    assert_eq!(doc.id, "second");
    assert_eq!(doc.version, "1.0.0");
}

#[test]
fn schema_version_keeps_its_low_32_bits() {
    let doc = ExtensionMetadata::from_fields(vec![(6, StoredValue::I64(-7))]).unwrap();
    assert_eq!(doc.schema_version, Some(-7));
    let doc = ExtensionMetadata::from_fields(vec![(6, StoredValue::I64(4294967298))]).unwrap();
    assert_eq!(doc.schema_version, Some(2));
}

#[test]
fn a_value_of_the_wrong_shape_is_an_error() {
    for id in [0u32, 1, 2, 3, 4, 5, 7, 8, 9] {
        assert_eq!(
            ExtensionMetadata::from_fields(vec![(id, StoredValue::U64(1))]),
            Err(DecodeError::WrongType(id))
        );
        assert_eq!(
            ExtensionMetadata::from_fields(vec![(id, StoredValue::Other)]),
            Err(DecodeError::WrongType(id))
        );
    }
    assert_eq!(
        ExtensionMetadata::from_fields(vec![(6, text("1"))]),
        Err(DecodeError::WrongType(6))
    );
    assert_eq!(
        ExtensionMetadata::from_fields(vec![(6, StoredValue::U64(1))]),
        Err(DecodeError::WrongType(6))
    );
    assert_eq!(
        ExtensionMetadata::from_fields(vec![(10, StoredValue::I64(1))]),
        Err(DecodeError::WrongType(10))
    );
}

#[test]
fn an_unknown_field_number_is_an_error() {
    assert_eq!(
        ExtensionMetadata::from_fields(vec![(11, text("x"))]),
        Err(DecodeError::UnexpectedField(11))
    );
    assert_eq!(
        ExtensionMetadata::from_fields(vec![(u32::MAX, StoredValue::Other)]),
        Err(DecodeError::UnexpectedField(u32::MAX))
    );
}

#[test]
fn the_first_error_wins() {
    let fields = vec![(0, text("a")), (12, text("x")), (1, StoredValue::U64(3))];
    assert_eq!(ExtensionMetadata::from_fields(fields), Err(DecodeError::UnexpectedField(12)));
    let fields = vec![(1, StoredValue::U64(3)), (12, text("x"))];
    assert_eq!(ExtensionMetadata::from_fields(fields), Err(DecodeError::WrongType(1)));
}

#[test]
fn a_failed_field_leaves_the_metadata_as_it_was() {
    let mut doc = ExtensionMetadata::default();
    assert_eq!(doc.apply_field(0, text("a")), Ok(()));
    assert_eq!(doc.apply_field(0, StoredValue::I64(1)), Err(DecodeError::WrongType(0)));
    assert_eq!(doc.apply_field(40, text("b")), Err(DecodeError::UnexpectedField(40)));
    assert_eq!(doc.id, "a");
}

#[test]
fn error_messages_name_the_field() {
    assert_eq!(DecodeError::WrongType(0).message(), "id is not str");
    assert_eq!(DecodeError::WrongType(1).message(), "name is not str");
    assert_eq!(DecodeError::WrongType(2).message(), "version is not str");
    assert_eq!(DecodeError::WrongType(3).message(), "description is not str");
    assert_eq!(DecodeError::WrongType(4).message(), "authors is not str");
    assert_eq!(DecodeError::WrongType(5).message(), "repository is not str");
    assert_eq!(DecodeError::WrongType(6).message(), "schema_version is not i64");
    assert_eq!(DecodeError::WrongType(7).message(), "wasm_api_version is not str");
    assert_eq!(DecodeError::WrongType(8).message(), "provides is not str");
    assert_eq!(DecodeError::WrongType(9).message(), "published_at is not str");
    assert_eq!(DecodeError::WrongType(10).message(), "download_count is not u64");
    assert_eq!(DecodeError::UnexpectedField(11).message(), "unexpected field_id 11");
    assert_eq!(DecodeError::UnexpectedField(4000000000).message(), "unexpected field_id 4000000000");
}

#[test]
fn documents_decode_in_order() {
    let documents = vec![
        vec![(0, text("a")), (2, text("1.0.0"))],
        vec![],
        vec![(0, text("b")), (10, StoredValue::U64(3))],
    ];
    let list = decode_documents(documents).unwrap();
    assert_eq!(list.len(), 3);
    assert_eq!(list[0].id, "a");
    assert_eq!(list[0].version, "1.0.0");
    assert_eq!(list[1], ExtensionMetadata::default());
    assert_eq!(list[2].id, "b");
    assert_eq!(list[2].download_count, 3);
    assert_eq!(decode_documents(vec![]), Ok(vec![]));
}

#[test]
fn the_first_undecodable_document_fails_the_list() {
    let documents = vec![
        vec![(0, text("a"))],
        vec![(0, text("b")), (6, text("one"))],
        vec![(40, text("c"))],
    ];
    assert_eq!(decode_documents(documents), Err(DecodeError::WrongType(6)));
}
