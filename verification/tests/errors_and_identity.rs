use arangodb_session::{
    Content, DocumentId, DocumentKey, Error, ErrorCode, Field, GetDocument, InsertDocument,
    InsertDocuments, JsonString, NewDocument, ReplaceDocument, Representation, Revision, Store,
    UpdateDocument, Value,
};
use arangodb_session::DocumentUpdate;

fn fld(name: &str, value: Value) -> Field {
    Field { name: name.to_owned(), value }
}

fn tiny_doc() -> Value {
    Value::Object(vec![fld("a", Value::Int(1))])
}

#[test]
fn error_preserves_all_three_parts() {
    let e = Error::new(412, ErrorCode::ArangoConflict, "precondition failed".to_owned());
    assert_eq!(412, e.status_code());
    assert_eq!(ErrorCode::ArangoConflict, e.error_code());
    assert_eq!("precondition failed", e.message());
    assert_eq!("Error 1200: precondition failed (Status: 412)", e.to_text());
}

#[test]
fn error_codes_render_to_their_numbers() {
    assert_eq!(0, ErrorCode::NoError.as_u16());
    assert_eq!(600, ErrorCode::BadParameter.as_u16());
    assert_eq!(1200, ErrorCode::ArangoConflict.as_u16());
    assert_eq!(1202, ErrorCode::ArangoDocumentNotFound.as_u16());
    assert_eq!(1203, ErrorCode::ArangoCollectionNotFound.as_u16());
    assert_eq!(1207, ErrorCode::ArangoDuplicateName.as_u16());
    assert_eq!(1210, ErrorCode::ArangoUniqueConstraintViolated.as_u16());
}

#[test]
fn document_key_is_validated() {
    assert!(DocumentKey::new("94711").is_ok());
    let empty = DocumentKey::new("").unwrap_err();
    assert_eq!(400, empty.status_code());
    assert_eq!(ErrorCode::BadParameter, empty.error_code());
    assert_eq!("invalid document key", empty.message());
    assert!(DocumentKey::new("a/b").is_err());
}

#[test]
fn document_id_is_validated_and_renders() {
    let id = DocumentId::new("customers", "94711").unwrap();
    assert_eq!("customers", id.collection_name());
    assert_eq!("94711", id.document_key());
    assert_eq!("customers/94711", id.to_string());
    assert!(DocumentId::new("", "k").is_err());
    assert!(DocumentId::new("c", "").is_err());
    assert!(DocumentId::new("c/d", "k").is_err());
    assert_eq!("invalid document id", DocumentId::new("", "k").unwrap_err().message());
}

#[test]
fn document_id_parses_exactly_one_slash() {
    let id = DocumentId::parse("customers/94711").unwrap();
    assert_eq!("customers", id.collection_name());
    assert_eq!("94711", id.document_key());
    assert!(DocumentId::parse("customers").is_err());
    assert!(DocumentId::parse("a/b/c").is_err());
    assert!(DocumentId::parse("/k").is_err());
    assert!(DocumentId::parse("c/").is_err());
    assert!(DocumentId::parse("").is_err());
}

#[test]
fn revision_compares_by_exact_string() {
    assert_eq!(Revision::new("abc"), Revision::new("abc"));
    assert_ne!(Revision::new("abc"), Revision::new("abd"));
    assert_eq!("abc", Revision::new("abc").as_str());
}

#[test]
fn create_collection_rejects_duplicates_and_bad_names() {
    let mut store = Store::new();
    assert!(store.create_collection("customers").is_ok());
    let dup = store.create_collection("customers").unwrap_err();
    assert_eq!(409, dup.status_code());
    assert_eq!(ErrorCode::ArangoDuplicateName, dup.error_code());
    assert_eq!("duplicate name", dup.message());
    let bad = store.create_collection("a/b").unwrap_err();
    assert_eq!(400, bad.status_code());
    assert_eq!(ErrorCode::BadParameter, bad.error_code());
    assert_eq!("invalid collection name", bad.message());
}

#[test]
fn insert_into_missing_collection_fails_with_its_name() {
    let mut store = Store::new();
    let method = InsertDocument::new(
        "nowhere",
        NewDocument::from_content(Content::Structured(tiny_doc())),
    );
    let e = method.execute(&mut store).unwrap_err();
    assert_eq!(404, e.status_code());
    assert_eq!(ErrorCode::ArangoCollectionNotFound, e.error_code());
    assert_eq!("collection not found: nowhere", e.message());
}

#[test]
fn batch_insert_into_missing_collection_fails_as_a_whole() {
    let mut store = Store::new();
    let method = InsertDocuments::new(
        "nowhere",
        vec![NewDocument::from_content(Content::Structured(tiny_doc()))],
    );
    let e = method.execute(&mut store).unwrap_err();
    assert_eq!(404, e.status_code());
    assert_eq!(ErrorCode::ArangoCollectionNotFound, e.error_code());
    assert_eq!("collection not found: nowhere", e.message());
}

#[test]
fn insert_of_a_non_object_body_is_rejected() {
    let mut store = Store::new();
    store.create_collection("c").unwrap();
    let method = InsertDocument::new(
        "c",
        NewDocument::from_content(Content::Structured(Value::Int(5))),
    );
    let e = method.execute(&mut store).unwrap_err();
    assert_eq!(400, e.status_code());
    assert_eq!(ErrorCode::BadParameter, e.error_code());
    assert_eq!("expecting a document body", e.message());
}

#[test]
fn batch_reports_a_non_object_body_per_item() {
    let mut store = Store::new();
    store.create_collection("c").unwrap();
    let method = InsertDocuments::new(
        "c",
        vec![
            NewDocument::from_content(Content::Structured(Value::Bool(true))),
            NewDocument::from_content(Content::Structured(tiny_doc())),
        ],
    );
    let results = method.execute(&mut store).unwrap();
    assert_eq!(2, results.len());
    if let Err(ref e) = results.get(0).unwrap() {
        assert_eq!(ErrorCode::BadParameter, e.code());
        assert_eq!("expecting a document body", e.message());
    } else {
        panic!("Expected a method error, but got: {:?}", results.get(0));
    }
    assert!(results.get(1).unwrap().is_ok());
}

#[test]
fn conditional_get_of_unchanged_document_answers_not_modified() {
    let mut store = Store::new();
    store.create_collection("c").unwrap();
    let header = InsertDocument::new(
        "c",
        NewDocument::from_content(Content::Structured(tiny_doc())),
    )
    .execute(&mut store)
    .unwrap();
    let (id, _, revision) = header.deconstruct();
    let e = GetDocument::new(id)
        .with_if_non_match(revision.as_str().to_owned())
        .execute(&store)
        .unwrap_err();
    assert_eq!(304, e.status_code());
    assert_eq!(ErrorCode::NoError, e.error_code());
    assert_eq!("not modified", e.message());
}

#[test]
fn json_string_validates_explicit_text() {
    let bad = JsonString::from_str("{oops").unwrap_err();
    assert_eq!(400, bad.status_code());
    assert_eq!(ErrorCode::BadParameter, bad.error_code());
    assert_eq!("invalid wire text", bad.message());
    assert!(JsonString::new("[1,2]").is_err());
    let ok = JsonString::new("{ \"b\" : 2, \"a\" : 1 }").unwrap();
    assert_eq!(r#"{"a":1,"b":2}"#, ok.as_str());
}

#[test]
fn content_decodes_from_wire_in_both_representations() {
    let structured = Content::from_wire("[1,2]", Representation::Structured).unwrap();
    assert_eq!(
        Content::Structured(Value::Array(vec![Value::Int(1), Value::Int(2)])),
        structured
    );
    let raw = Content::from_wire("{\"a\":1}", Representation::RawText).unwrap();
    assert_eq!(r#"{"a":1}"#, raw.to_wire());
    assert!(Content::from_wire("[1,2]", Representation::RawText).is_err());
    assert!(Content::from_wire("nonsense", Representation::Structured).is_err());
}

#[test]
fn replace_of_a_missing_document_is_not_found() {
    let mut store = Store::new();
    store.create_collection("c").unwrap();
    let id = DocumentId::new("c", "absent").unwrap();
    let update = DocumentUpdate::new(
        DocumentKey::new("absent").unwrap(),
        Content::Structured(tiny_doc()),
    );
    let e = ReplaceDocument::new(id, update).execute(&mut store).unwrap_err();
    assert_eq!(404, e.status_code());
    assert_eq!(ErrorCode::ArangoDocumentNotFound, e.error_code());
    assert_eq!("document not found", e.message());
}

#[test]
fn update_precondition_follows_if_match_first() {
    let mut store = Store::new();
    store.create_collection("c").unwrap();
    let header = InsertDocument::new(
        "c",
        NewDocument::from_content(Content::Structured(tiny_doc())),
    )
    .execute(&mut store)
    .unwrap();
    let (id, key, revision) = header.deconstruct();
    // The embedded revision is wrong, but the explicit if-match is right
    // and wins.
    let update = DocumentUpdate::new(
        key,
        Content::Structured(Value::Object(vec![fld("a", Value::Int(2))])),
    )
    .with_revision(Revision::new("wrong"));
    let updated = UpdateDocument::new(id, update)
        .with_if_match(revision.as_str().to_owned())
        .with_return_new(true)
        .execute(&mut store)
        .unwrap();
    let new_content = match updated.new_content().unwrap() {
        Content::Structured(v) => v,
        other => panic!("Expected structured content, but got: {:?}", other),
    };
    assert_eq!(Some(&Value::Int(2)), new_content.get("a"));
}

#[test]
fn batch_mixes_assigned_and_caller_keys() {
    let mut store = Store::new();
    store.create_collection("c").unwrap();
    let method = InsertDocuments::new(
        "c",
        vec![
            NewDocument::from_content(Content::Structured(tiny_doc())),
            NewDocument::from_content(Content::Structured(tiny_doc()))
                .with_key(DocumentKey::new("explicit").unwrap()),
            NewDocument::from_content(Content::Structured(tiny_doc())),
        ],
    );
    let results = method.execute(&mut store).unwrap();
    assert_eq!(3, results.len());
    let k0 = results.get(0).unwrap().as_ref().unwrap().key().as_str().to_owned();
    let k1 = results.get(1).unwrap().as_ref().unwrap().key().as_str().to_owned();
    let k2 = results.get(2).unwrap().as_ref().unwrap().key().as_str().to_owned();
    assert_eq!("explicit", k1);
    assert!(!k0.is_empty());
    assert!(!k2.is_empty());
    assert_ne!(k0, k1);
    assert_ne!(k0, k2);
    assert_ne!(k1, k2);
}

#[test]
fn inserted_system_named_fields_are_dropped() {
    let mut store = Store::new();
    store.create_collection("c").unwrap();
    let body = Value::Object(vec![
        fld("_id", Value::Str("fake/1".to_owned())),
        fld("_key", Value::Str("fake".to_owned())),
        fld("_rev", Value::Str("fake".to_owned())),
        fld("real", Value::Int(9)),
    ]);
    let header = InsertDocument::new("c", NewDocument::from_content(Content::Structured(body)))
        .execute(&mut store)
        .unwrap();
    let (id, _, _) = header.deconstruct();
    assert_ne!("fake", id.document_key());
    let doc = GetDocument::new(id).execute(&store).unwrap();
    assert_eq!(
        &Content::Structured(Value::Object(vec![fld("real", Value::Int(9))])),
        doc.content()
    );
}

#[test]
fn raw_text_with_escapes_survives_the_store() {
    let mut store = Store::new();
    store.create_collection("c").unwrap();
    let raw = JsonString::from_str(r#"{ "note" : "line\none \"two\" back\\slash" }"#).unwrap();
    let header = InsertDocument::new("c", NewDocument::from_content(Content::Raw(raw)))
        .execute(&mut store)
        .unwrap();
    let (id, _, _) = header.deconstruct();
    let doc = GetDocument::new(id)
        .with_representation(Representation::RawText)
        .execute(&store)
        .unwrap();
    assert_eq!(
        r#"{"note":"line\none \"two\" back\\slash"}"#,
        doc.content().to_wire()
    );
}

#[test]
fn raw_text_reads_back_its_own_system_fields() {
    let mut store = Store::new();
    store.create_collection("c").unwrap();
    let raw = JsonString::from_str(r#"{"a":1}"#).unwrap();
    let header = InsertDocument::new(
        "c",
        NewDocument::from_content(Content::Raw(raw)).with_key(DocumentKey::new("k1").unwrap()),
    )
    .execute(&mut store)
    .unwrap();
    let rev = header.revision().as_str().to_owned();
    // Reading the same document back through a fresh insert-return-new of
    // identical content in a second collection shows the injected fields.
    store.create_collection("d").unwrap();
    let raw2 = JsonString::from_str(r#"{"a":1}"#).unwrap();
    let doc = arangodb_session::InsertDocumentReturnNew::new(
        "d",
        NewDocument::from_content(Content::Raw(raw2)).with_key(DocumentKey::new("k1").unwrap()),
    )
    .execute(&mut store)
    .unwrap();
    let wire = doc.content().to_wire();
    assert!(wire.starts_with(r#"{"_id":"d/k1","_key":"k1","_rev":""#));
    assert!(wire.ends_with(r#"","a":1}"#));
    assert!(!rev.is_empty());
}
