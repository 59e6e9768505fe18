use arangodb_session::{
    Content, DocumentKey, DocumentUpdate, ErrorCode, Field, GetDocument, InsertDocument,
    InsertDocumentReturnNew, InsertDocuments, InsertDocumentsReturnNew, JsonString, NewDocument,
    ReplaceDocument, Representation, Revision, Store, UpdateDocument, Value,
};
use arangodb_session::DocumentId;

fn fld(name: &str, value: Value) -> Field {
    Field { name: name.to_owned(), value }
}

fn s(v: &str) -> Value {
    Value::Str(v.to_owned())
}

fn jane_contact() -> Value {
    Value::Object(vec![
        fld("address", s("1-555-234523")),
        fld("kind", s("Phone")),
        fld("tag", s("work")),
    ])
}

fn customer() -> Value {
    Value::Object(vec![
        fld("name", s("Jane Doe")),
        fld("contact", Value::Array(vec![jane_contact()])),
        fld("gender", s("Female")),
        fld("age", Value::Int(42)),
        fld("active", Value::Bool(true)),
        fld("groups", Value::Array(vec![])),
    ])
}

fn customer2() -> Value {
    Value::Object(vec![
        fld("name", s("John Doe")),
        fld(
            "contact",
            Value::Array(vec![Value::Object(vec![
                fld("address", s("john.doe@mail.com")),
                fld("kind", s("Email")),
                fld("tag", s("work")),
            ])]),
        ),
        fld("gender", s("Male")),
        fld("age", Value::Int(27)),
        fld("active", Value::Bool(true)),
        fld("groups", Value::Array(vec![])),
    ])
}

fn replacement_customer() -> Value {
    Value::Object(vec![
        fld("name", s("John Doe")),
        fld(
            "contact",
            Value::Array(vec![Value::Object(vec![
                fld("address", s("1-555-8212494")),
                fld("kind", s("Phone")),
                fld("tag", s("mobile")),
            ])]),
        ),
        fld("gender", s("Male")),
        fld("age", Value::Int(42)),
        fld("active", Value::Bool(true)),
        fld("groups", Value::Array(vec![])),
    ])
}

fn vip_customer() -> Value {
    Value::Object(vec![
        fld("name", s("John Doe")),
        fld(
            "contact",
            Value::Array(vec![Value::Object(vec![
                fld("address", s("1-555-8212494")),
                fld("kind", s("Phone")),
                fld("tag", s("mobile")),
            ])]),
        ),
        fld("age", Value::Int(42)),
        fld("status", s("active")),
    ])
}

fn customer_store() -> Store {
    let mut store = Store::new();
    store.create_collection("customers").unwrap();
    store
}

const JSON_DOC: &str = r#"{
            "name": "Jane Doe",
            "contact": [
                {
                    "address": "1-555-234523",
                    "kind": "Phone",
                    "tag": "work"
                }
            ],
            "gender": "Female",
            "age": 42,
            "active": true,
            "groups": []
        }"#;

#[test]
fn insert_struct_document_without_key() {
    let mut store = customer_store();

    let new_document = NewDocument::from_content(Content::Structured(customer()));
    let method = InsertDocument::new("customers", new_document);
    let document = method.execute(&mut store).unwrap();

    assert_eq!("customers", document.id().collection_name());
    assert!(!document.id().document_key().is_empty());
    assert_eq!(document.id().document_key(), document.key().as_str());
    assert!(!document.revision().as_str().is_empty());
}

#[test]
fn insert_struct_document_without_key_and_return_new() {
    let mut store = customer_store();

    let new_document = NewDocument::from_content(Content::Structured(customer()));
    let method = InsertDocumentReturnNew::new("customers", new_document);
    let document = method.execute(&mut store).unwrap();

    assert_eq!("customers", document.id().collection_name());
    assert!(!document.id().document_key().is_empty());
    assert_eq!(document.id().document_key(), document.key().as_str());
    assert!(!document.revision().as_str().is_empty());
    assert_eq!(&Content::Structured(customer()), document.content());
}

#[test]
fn insert_struct_document_with_key() {
    let mut store = customer_store();

    let new_document = NewDocument::from_content(Content::Structured(customer()))
        .with_key(DocumentKey::new("94711").unwrap());
    let method = InsertDocument::new("customers", new_document).with_force_wait_for_sync(true);
    let document = method.execute(&mut store).unwrap();

    assert_eq!("customers/94711", &document.id().to_string());
    assert_eq!("customers", document.id().collection_name());
    assert_eq!("94711", document.id().document_key());
    assert_eq!("94711", document.key().as_str());
    assert!(!document.revision().as_str().is_empty());
}

#[test]
fn insert_struct_document_with_key_and_return_new() {
    let mut store = customer_store();

    let new_document = NewDocument::from_content(Content::Structured(customer()))
        .with_key(DocumentKey::new("94712").unwrap());
    let method = InsertDocumentReturnNew::new("customers", new_document);
    let document = method.execute(&mut store).unwrap();

    assert_eq!("customers/94712", &document.id().to_string());
    assert_eq!("customers", document.id().collection_name());
    assert_eq!("94712", document.id().document_key());
    assert_eq!("94712", document.key().as_str());
    assert!(!document.revision().as_str().is_empty());
    assert_eq!(&Content::Structured(customer()), document.content());
}

#[test]
fn insert_json_document_with_key_and_return_new() {
    let mut store = customer_store();

    let new_document = NewDocument::from_content(Content::Raw(
        JsonString::from_str(JSON_DOC).unwrap(),
    ))
    .with_key(DocumentKey::new("7713996").unwrap());
    let method = InsertDocumentReturnNew::new("customers", new_document);
    let document = method.execute(&mut store).unwrap();

    assert_eq!("customers", document.id().collection_name());
    assert!(!document.id().document_key().is_empty());
    assert_eq!(document.id().document_key(), document.key().as_str());
    assert!(!document.revision().as_str().is_empty());
    assert!(document.content().to_wire().starts_with(
        r#"{"_id":"customers/7713996","_key":"7713996","_rev":""#
    ));
    assert!(document.content().to_wire().ends_with(
        r#"","active":true,"age":42,"contact":[{"address":"1-555-234523","kind":"Phone","tag":"work"}],"gender":"Female","groups":[],"name":"Jane Doe"}"#
    ));
}

#[test]
fn insert_multiple_struct_documents_without_key() {
    let mut store = customer_store();

    let new_document1 = NewDocument::from_content(Content::Structured(customer()));
    let new_document2 = NewDocument::from_content(Content::Structured(customer2()));
    let method = InsertDocuments::new("customers", vec![new_document1, new_document2])
        .with_force_wait_for_sync(true);
    let documents = method.execute(&mut store).unwrap();

    if let Ok(ref header1) = documents.get(0).unwrap() {
        assert_eq!("customers", header1.id().collection_name());
        assert!(!header1.id().document_key().is_empty());
        assert_eq!(header1.id().document_key(), header1.key().as_str());
        assert!(!header1.revision().as_str().is_empty());
    } else {
        panic!("Expected document header 1, but got: {:?}", documents.get(0));
    }

    if let Ok(ref header2) = documents.get(1).unwrap() {
        assert_eq!("customers", header2.id().collection_name());
        assert!(!header2.id().document_key().is_empty());
        assert_eq!(header2.id().document_key(), header2.key().as_str());
        assert!(!header2.revision().as_str().is_empty());
    } else {
        panic!("Expected document header 2, but got: {:?}", documents.get(1));
    }
}

#[test]
fn insert_multiple_struct_documents_without_key_and_return_new() {
    let mut store = customer_store();

    let new_document1 = NewDocument::from_content(Content::Structured(customer()));
    let new_document2 = NewDocument::from_content(Content::Structured(customer2()));
    let method = InsertDocumentsReturnNew::new("customers", vec![new_document1, new_document2]);
    let documents = method.execute(&mut store).unwrap();

    if let Ok(ref document1) = documents.get(0).unwrap() {
        assert_eq!("customers", document1.id().collection_name());
        assert!(!document1.id().document_key().is_empty());
        assert_eq!(document1.id().document_key(), document1.key().as_str());
        assert!(!document1.revision().as_str().is_empty());
        assert_eq!(&Content::Structured(customer()), document1.content());
    } else {
        panic!("Expected document 1, but got: {:?}", documents.get(0));
    }
    if let Ok(ref document2) = documents.get(1).unwrap() {
        assert_eq!("customers", document2.id().collection_name());
        assert!(!document2.id().document_key().is_empty());
        assert_eq!(document2.id().document_key(), document2.key().as_str());
        assert!(!document2.revision().as_str().is_empty());
        assert_eq!(&Content::Structured(customer2()), document2.content());
    } else {
        panic!("Expected document 2, but got: {:?}", documents.get(1));
    }
}

#[test]
fn insert_multiple_struct_documents_with_key() {
    let mut store = customer_store();

    let new_document1 = NewDocument::from_content(Content::Structured(customer()))
        .with_key(DocumentKey::new("94711").unwrap());
    let new_document2 = NewDocument::from_content(Content::Structured(customer2()))
        .with_key(DocumentKey::new("90815").unwrap());
    let method = InsertDocuments::new("customers", vec![new_document1, new_document2]);
    let documents = method.execute(&mut store).unwrap();

    if let Ok(ref header1) = documents.get(0).unwrap() {
        assert_eq!("customers/94711", &header1.id().to_string());
        assert_eq!("customers", header1.id().collection_name());
        assert_eq!("94711", header1.id().document_key());
        assert_eq!("94711", header1.key().as_str());
        assert!(!header1.revision().as_str().is_empty());
    } else {
        panic!("Expected document header 1, but got: {:?}", documents.get(0))
    }

    if let Ok(ref header2) = documents.get(1).unwrap() {
        assert_eq!("customers/90815", &header2.id().to_string());
        assert_eq!("customers", header2.id().collection_name());
        assert_eq!("90815", header2.id().document_key());
        assert_eq!("90815", header2.key().as_str());
        assert!(!header2.revision().as_str().is_empty());
    } else {
        panic!("Expected document header 2, but got: {:?}", documents.get(1))
    }
}

#[test]
fn insert_multiple_struct_documents_with_key_and_return_new() {
    let mut store = customer_store();

    let new_document1 = NewDocument::from_content(Content::Structured(customer()))
        .with_key(DocumentKey::new("94712").unwrap());
    let new_document2 = NewDocument::from_content(Content::Structured(customer2()))
        .with_key(DocumentKey::new("90815").unwrap());
    let method = InsertDocumentsReturnNew::new("customers", vec![new_document1, new_document2]);
    let documents = method.execute(&mut store).unwrap();

    if let Ok(ref document1) = documents.get(0).unwrap() {
        assert_eq!("customers/94712", &document1.id().to_string());
        assert_eq!("customers", document1.id().collection_name());
        assert_eq!("94712", document1.id().document_key());
        assert_eq!("94712", document1.key().as_str());
        assert!(!document1.revision().as_str().is_empty());
        assert_eq!(&Content::Structured(customer()), document1.content());
    } else {
        panic!("Expected document 1, but got: {:?}", documents.get(0));
    }

    if let Ok(ref document2) = documents.get(1).unwrap() {
        assert_eq!("customers/90815", &document2.id().to_string());
        assert_eq!("customers", document2.id().collection_name());
        assert_eq!("90815", document2.id().document_key());
        assert_eq!("90815", document2.key().as_str());
        assert!(!document2.revision().as_str().is_empty());
        assert_eq!(&Content::Structured(customer2()), document2.content());
    } else {
        panic!("Expected document 2, but got: {:?}", documents.get(1));
    }
}

#[test]
fn get_document_as_struct_inserted_as_struct() {
    let mut store = customer_store();

    let header = InsertDocument::new(
        "customers",
        NewDocument::from_content(Content::Structured(customer())),
    )
    .execute(&mut store)
    .unwrap();
    let (document_id, document_key, revision) = header.deconstruct();

    let method = GetDocument::new(document_id.clone());
    let document = method.execute(&store).unwrap();

    assert_eq!("customers", document.id().collection_name());
    assert_eq!(&document_id, document.id());
    assert_eq!(&document_key, document.key());
    assert_eq!(&revision, document.revision());
    assert_eq!(&Content::Structured(customer()), document.content());
}

#[test]
fn get_document_as_struct_inserted_as_json_string() {
    let mut store = customer_store();

    let header = InsertDocument::new(
        "customers",
        NewDocument::from_content(Content::Raw(JsonString::new(JSON_DOC).unwrap())),
    )
    .execute(&mut store)
    .unwrap();
    let (document_id, document_key, revision) = header.deconstruct();

    let method = GetDocument::new(document_id.clone());
    let document = method.execute(&store).unwrap();

    assert_eq!("customers", document.id().collection_name());
    assert_eq!(&document_id, document.id());
    assert_eq!(&document_key, document.key());
    assert_eq!(&revision, document.revision());
    assert_eq!(&Content::Structured(customer()), document.content());
}

#[test]
fn get_document_as_json_string_inserted_as_struct() {
    let mut store = customer_store();

    let header = InsertDocument::new(
        "customers",
        NewDocument::from_content(Content::Structured(customer()))
            .with_key(DocumentKey::new("7713996").unwrap()),
    )
    .execute(&mut store)
    .unwrap();
    let (document_id, document_key, revision) = header.deconstruct();

    let method = GetDocument::new(document_id.clone())
        .with_representation(Representation::RawText);
    let document = method.execute(&store).unwrap();

    assert_eq!("customers", document.id().collection_name());
    assert_eq!(&document_id, document.id());
    assert_eq!(&document_key, document.key());
    assert_eq!(&revision, document.revision());
    let expected = r#"{"active":true,"age":42,"contact":[{"address":"1-555-234523","kind":"Phone","tag":"work"}],"gender":"Female","groups":[],"name":"Jane Doe"}"#;
    assert_eq!(expected, document.content().to_wire());
}

#[test]
fn get_document_if_revision_matches() {
    let mut store = customer_store();

    let header = InsertDocument::new(
        "customers",
        NewDocument::from_content(Content::Structured(customer())),
    )
    .execute(&mut store)
    .unwrap();
    let (document_id, document_key, revision) = header.deconstruct();

    let method = GetDocument::new(document_id.clone())
        .with_if_match(revision.as_str().to_owned());
    let document = method.execute(&store).unwrap();

    assert_eq!("customers", document.id().collection_name());
    assert_eq!(&document_id, document.id());
    assert_eq!(&document_key, document.key());
    assert_eq!(&revision, document.revision());
    assert_eq!(&Content::Structured(customer()), document.content());
}

#[test]
fn get_document_if_revision_is_not_a_match() {
    let mut store = customer_store();

    let header = InsertDocument::new(
        "customers",
        NewDocument::from_content(Content::Structured(customer())),
    )
    .execute(&mut store)
    .unwrap();
    let (document_id, document_key, revision) = header.deconstruct();

    let method = GetDocument::new(document_id.clone())
        .with_if_non_match(String::from("not") + revision.as_str());
    let document = method.execute(&store).unwrap();

    assert_eq!("customers", document.id().collection_name());
    assert_eq!(&document_id, document.id());
    assert_eq!(&document_key, document.key());
    assert_eq!(&revision, document.revision());
    assert_eq!(&Content::Structured(customer()), document.content());
}

#[test]
fn get_document_but_revision_does_not_match() {
    let mut store = customer_store();

    let header = InsertDocument::new(
        "customers",
        NewDocument::from_content(Content::Structured(customer())),
    )
    .execute(&mut store)
    .unwrap();
    let (document_id, _, revision) = header.deconstruct();

    let method = GetDocument::new(document_id)
        .with_if_match(String::from("not") + revision.as_str());
    let result = method.execute(&store);

    match result {
        Err(error) => {
            assert_eq!(412, error.status_code());
            assert_eq!(ErrorCode::ArangoConflict, error.error_code());
            assert_eq!("precondition failed", error.message());
        },
        _ => panic!("Error expected, but got: {:?}", &result),
    }
}

#[test]
fn get_document_for_id_that_does_not_exist() {
    let mut store = customer_store();

    let header = InsertDocument::new(
        "customers",
        NewDocument::from_content(Content::Structured(customer())),
    )
    .execute(&mut store)
    .unwrap();
    let (_, document_key, _) = header.deconstruct();

    let method = GetDocument::new(DocumentId::new("customers", "notexisting999").unwrap());
    let result = method.execute(&store);

    match result {
        Err(error) => {
            assert_eq!(404, error.status_code());
            assert_eq!(ErrorCode::ArangoDocumentNotFound, error.error_code());
            assert_eq!("document not found", error.message());
        },
        _ => panic!("Error expected, but got: {:?}", &result),
    }

    let method = GetDocument::new(
        DocumentId::new("notexisting99", document_key.as_str()).unwrap(),
    );
    let result = method.execute(&store);

    match result {
        Err(error) => {
            assert_eq!(404, error.status_code());
            assert_eq!(ErrorCode::ArangoCollectionNotFound, error.error_code());
            assert_eq!("collection not found: notexisting99", error.message());
        },
        _ => panic!("Error expected, but got: {:?}", &result),
    }
}

#[test]
fn replace_with_struct_document_without_revision() {
    let mut store = customer_store();

    let header = InsertDocument::new(
        "customers",
        NewDocument::from_content(Content::Structured(customer())),
    )
    .execute(&mut store)
    .unwrap();
    let (document_id, document_key, revision) = header.deconstruct();

    let document_update = DocumentUpdate::new(
        document_key.clone(),
        Content::Structured(replacement_customer()),
    );
    let method = ReplaceDocument::new(document_id.clone(), document_update);
    let updated = method.execute(&mut store).unwrap();

    assert_eq!("customers", updated.id().collection_name());
    assert_eq!(&document_id, updated.id());
    assert_eq!(&document_key, updated.key());
    assert!(!updated.revision().as_str().is_empty());
    assert_ne!(&revision, updated.revision());
    assert_eq!(&revision, updated.old_revision());
    assert_eq!(None, updated.old_content());
    assert_eq!(None, updated.new_content());
}

#[test]
fn replace_with_struct_document_with_revision() {
    let mut store = customer_store();

    let header = InsertDocument::new(
        "customers",
        NewDocument::from_content(Content::Structured(customer())),
    )
    .execute(&mut store)
    .unwrap();
    let (document_id, document_key, revision) = header.deconstruct();

    let document_update = DocumentUpdate::new(
        document_key.clone(),
        Content::Structured(replacement_customer()),
    )
    .with_revision(revision.clone());
    let method = ReplaceDocument::new(document_id.clone(), document_update);
    let updated = method.execute(&mut store).unwrap();

    assert_eq!("customers", updated.id().collection_name());
    assert_eq!(&document_id, updated.id());
    assert_eq!(&document_key, updated.key());
    assert!(!updated.revision().as_str().is_empty());
    assert_eq!(&revision, updated.old_revision());
    assert_eq!(None, updated.old_content());
    assert_eq!(None, updated.new_content());
}

#[test]
fn replace_with_struct_document_of_other_type() {
    let mut store = customer_store();

    let header = InsertDocument::new(
        "customers",
        NewDocument::from_content(Content::Structured(customer())),
    )
    .execute(&mut store)
    .unwrap();
    let (document_id, document_key, revision) = header.deconstruct();

    let document_update = DocumentUpdate::new(
        document_key.clone(),
        Content::Structured(vip_customer()),
    )
    .with_revision(revision.clone());
    let method = ReplaceDocument::new(document_id.clone(), document_update);
    let updated = method.execute(&mut store).unwrap();

    assert_eq!("customers", updated.id().collection_name());
    assert_eq!(&document_id, updated.id());
    assert_eq!(&document_key, updated.key());
    assert!(!updated.revision().as_str().is_empty());
    assert_eq!(&revision, updated.old_revision());
    assert_eq!(None, updated.old_content());
    assert_eq!(None, updated.new_content());
}

#[test]
fn replace_with_struct_document_of_other_type_return_old() {
    let mut store = customer_store();

    let header = InsertDocument::new(
        "customers",
        NewDocument::from_content(Content::Structured(customer())),
    )
    .execute(&mut store)
    .unwrap();
    let (document_id, document_key, revision) = header.deconstruct();

    let document_update = DocumentUpdate::new(
        document_key.clone(),
        Content::Structured(vip_customer()),
    )
    .with_revision(revision.clone());
    let method = ReplaceDocument::new(document_id.clone(), document_update).with_return_old(true);
    let updated = method.execute(&mut store).unwrap();

    assert_eq!("customers", updated.id().collection_name());
    assert_eq!(&document_id, updated.id());
    assert_eq!(&document_key, updated.key());
    assert!(!updated.revision().as_str().is_empty());
    assert_eq!(&revision, updated.old_revision());
    assert_eq!(Some(&Content::Structured(customer())), updated.old_content());
    assert_eq!(None, updated.new_content());
}

#[test]
fn replace_with_struct_document_of_other_type_return_new() {
    let mut store = customer_store();

    let header = InsertDocument::new(
        "customers",
        NewDocument::from_content(Content::Structured(customer())),
    )
    .execute(&mut store)
    .unwrap();
    let (document_id, document_key, revision) = header.deconstruct();

    let document_update = DocumentUpdate::new(
        document_key.clone(),
        Content::Structured(vip_customer()),
    )
    .with_revision(revision.clone());
    let method = ReplaceDocument::new(document_id.clone(), document_update).with_return_new(true);
    let updated = method.execute(&mut store).unwrap();

    assert_eq!("customers", updated.id().collection_name());
    assert_eq!(&document_id, updated.id());
    assert_eq!(&document_key, updated.key());
    assert!(!updated.revision().as_str().is_empty());
    assert_eq!(&revision, updated.old_revision());
    assert_eq!(None, updated.old_content());
    assert_eq!(Some(&Content::Structured(vip_customer())), updated.new_content());
}

#[test]
fn replace_with_struct_document_of_other_type_return_old_and_new() {
    let mut store = customer_store();

    let header = InsertDocument::new(
        "customers",
        NewDocument::from_content(Content::Structured(customer())),
    )
    .execute(&mut store)
    .unwrap();
    let (document_id, document_key, revision) = header.deconstruct();

    let document_update = DocumentUpdate::new(
        document_key.clone(),
        Content::Structured(vip_customer()),
    )
    .with_revision(revision.clone());
    let method = ReplaceDocument::new(document_id.clone(), document_update)
        .with_return_new(true)
        .with_return_old(true);
    let updated = method.execute(&mut store).unwrap();

    assert_eq!("customers", updated.id().collection_name());
    assert_eq!(&document_id, updated.id());
    assert_eq!(&document_key, updated.key());
    assert!(!updated.revision().as_str().is_empty());
    assert_eq!(&revision, updated.old_revision());
    assert_eq!(Some(&Content::Structured(customer())), updated.old_content());
    assert_eq!(Some(&Content::Structured(vip_customer())), updated.new_content());
}

#[test]
fn replace_with_struct_document_with_ignore_revisions_return_old_and_new() {
    let mut store = customer_store();

    let header = InsertDocument::new(
        "customers",
        NewDocument::from_content(Content::Structured(customer())),
    )
    .execute(&mut store)
    .unwrap();
    let (document_id, document_key, revision) = header.deconstruct();

    let document_update = DocumentUpdate::new(
        document_key.clone(),
        Content::Structured(replacement_customer()),
    )
    .with_revision(Revision::new("wrong_revision"));
    let method = ReplaceDocument::new(document_id.clone(), document_update)
        .with_ignore_revisions(true)
        .with_return_old(true)
        .with_return_new(true)
        .with_force_wait_for_sync(true);
    let updated = method.execute(&mut store).unwrap();

    assert_eq!("customers", updated.id().collection_name());
    assert_eq!(&document_id, updated.id());
    assert_eq!(&document_key, updated.key());
    assert!(!updated.revision().as_str().is_empty());
    assert_eq!(&revision, updated.old_revision());
    assert_eq!(Some(&Content::Structured(customer())), updated.old_content());
    assert_eq!(
        Some(&Content::Structured(replacement_customer())),
        updated.new_content()
    );
}

#[test]
fn replace_with_struct_document_with_unknown_revision() {
    let mut store = customer_store();

    let header = InsertDocument::new(
        "customers",
        NewDocument::from_content(Content::Structured(customer())),
    )
    .execute(&mut store)
    .unwrap();
    let (document_id, document_key, _) = header.deconstruct();

    let document_update = DocumentUpdate::new(
        document_key.clone(),
        Content::Structured(replacement_customer()),
    )
    .with_revision(Revision::new("wrong_revision"));
    let method = ReplaceDocument::new(document_id.clone(), document_update)
        .with_ignore_revisions(false)
        .with_return_old(true)
        .with_return_new(true)
        .with_force_wait_for_sync(true);
    let result = method.execute(&mut store);

    match result {
        Err(error) => {
            assert_eq!(412, error.status_code());
            assert_eq!(ErrorCode::ArangoConflict, error.error_code());
            assert_eq!("precondition failed", error.message());
        },
        _ => panic!("Error expected, but got: {:?}", &result),
    }
}

#[test]
fn replace_with_struct_document_with_if_match_return_old_and_new() {
    let mut store = customer_store();

    let header = InsertDocument::new(
        "customers",
        NewDocument::from_content(Content::Structured(customer())),
    )
    .execute(&mut store)
    .unwrap();
    let (document_id, document_key, revision) = header.deconstruct();

    let document_update = DocumentUpdate::new(
        document_key.clone(),
        Content::Structured(replacement_customer()),
    );
    let method = ReplaceDocument::new(document_id.clone(), document_update)
        .with_if_match(revision.as_str().to_owned())
        .with_return_old(true)
        .with_return_new(true);
    let updated = method.execute(&mut store).unwrap();

    assert_eq!("customers", updated.id().collection_name());
    assert_eq!(&document_id, updated.id());
    assert_eq!(&document_key, updated.key());
    assert!(!updated.revision().as_str().is_empty());
    assert_eq!(&revision, updated.old_revision());
    assert_eq!(Some(&Content::Structured(customer())), updated.old_content());
    assert_eq!(
        Some(&Content::Structured(replacement_customer())),
        updated.new_content()
    );
}

#[test]
fn replace_with_struct_document_with_if_match_unknown_revision() {
    let mut store = customer_store();

    let header = InsertDocument::new(
        "customers",
        NewDocument::from_content(Content::Structured(customer())),
    )
    .execute(&mut store)
    .unwrap();
    let (document_id, document_key, _) = header.deconstruct();

    let document_update = DocumentUpdate::new(
        document_key.clone(),
        Content::Structured(replacement_customer()),
    );
    let method = ReplaceDocument::new(document_id.clone(), document_update)
        .with_if_match("wrong_revision".to_owned())
        .with_return_old(true)
        .with_return_new(true);
    let result = method.execute(&mut store);

    match result {
        Err(error) => {
            assert_eq!(412, error.status_code());
            assert_eq!(ErrorCode::ArangoConflict, error.error_code());
            assert_eq!("precondition failed", error.message());
        },
        _ => panic!("Error expected, but got: {:?}", &result),
    }
}

#[test]
fn update_struct_document() {
    let mut store = customer_store();

    let inserted = Value::Object(vec![
        fld("name", s("Jane Doe")),
        fld(
            "contact",
            Value::Array(vec![Value::Object(vec![
                fld("address", s("1-555-234523")),
                fld("kind", s("Phone")),
                fld("tag", Value::Null),
            ])]),
        ),
        fld("gender", s("Female")),
        fld("age", Value::Int(42)),
        fld("active", Value::Bool(true)),
        fld("groups", Value::Array(vec![])),
    ]);
    let header = InsertDocument::new(
        "customers",
        NewDocument::from_content(Content::Structured(inserted)),
    )
    .execute(&mut store)
    .unwrap();
    let (document_id, document_key, revision) = header.deconstruct();

    let update = Value::Object(vec![
        fld(
            "contact",
            Value::Array(vec![Value::Object(vec![
                fld("address", s("1-555-8212494")),
                fld("kind", s("Phone")),
                fld("tag", s("mobile")),
            ])]),
        ),
        fld("age", Value::Int(43)),
    ]);

    let document_update = DocumentUpdate::new(document_key.clone(), Content::Structured(update));
    let method = UpdateDocument::new(document_id.clone(), document_update).with_return_new(true);
    let updated = method.execute(&mut store).unwrap();

    assert_eq!("customers", updated.id().collection_name());
    assert_eq!(&document_id, updated.id());
    assert_eq!(&document_key, updated.key());
    assert!(!updated.revision().as_str().is_empty());
    assert_ne!(&revision, updated.revision());
    assert_eq!(&revision, updated.old_revision());
    assert_eq!(None, updated.old_content());
    let updated_content = match updated.new_content().unwrap() {
        Content::Structured(v) => v,
        other => panic!("Expected structured content, but got: {:?}", other),
    };
    assert_eq!(Some(&s("Jane Doe")), updated_content.get("name"));
    assert_eq!(Some(&s("Female")), updated_content.get("gender"));
    assert_eq!(Some(&Value::Int(43)), updated_content.get("age"));
    assert_eq!(Some(&Value::Bool(true)), updated_content.get("active"));
    assert_eq!(Some(&Value::Array(vec![])), updated_content.get("groups"));
    let updated_contact = match updated_content.get("contact").unwrap() {
        Value::Array(elems) => &elems[0],
        other => panic!("Expected contact array, but got: {:?}", other),
    };
    assert_eq!(Some(&s("1-555-8212494")), updated_contact.get("address"));
    assert_eq!(Some(&s("Phone")), updated_contact.get("kind"));
    assert_eq!(Some(&s("mobile")), updated_contact.get("tag"));
}

#[test]
fn insert_two_struct_documents_with_same_key() {
    let mut store = customer_store();

    let new_document1 = NewDocument::from_content(Content::Structured(customer()))
        .with_key(DocumentKey::new("94711").unwrap());
    let new_document2 = NewDocument::from_content(Content::Structured(customer2()))
        .with_key(DocumentKey::new("94711").unwrap());
    let method = InsertDocuments::new("customers", vec![new_document1, new_document2]);
    let documents = method.execute(&mut store).unwrap();

    if let Ok(ref header1) = documents.get(0).unwrap() {
        assert_eq!("customers/94711", &header1.id().to_string());
        assert_eq!("customers", header1.id().collection_name());
        assert_eq!("94711", header1.id().document_key());
        assert_eq!("94711", header1.key().as_str());
        assert!(!header1.revision().as_str().is_empty());
    } else {
        panic!("Expected document header 1, but got: {:?}", documents.get(0))
    }

    if let Err(ref error) = documents.get(1).unwrap() {
        assert_eq!(ErrorCode::ArangoUniqueConstraintViolated, error.code());
        assert_eq!(
            "unique constraint violated - in index 0 of type primary over [\"_key\"]",
            error.message()
        );
    } else {
        panic!("Expected method error, but got: {:?}", documents.get(1))
    }
}

#[test]
fn insert_two_struct_documents_with_same_key_and_return_new() {
    let mut store = customer_store();

    let new_document1 = NewDocument::from_content(Content::Structured(customer()))
        .with_key(DocumentKey::new("94712").unwrap());
    let new_document2 = NewDocument::from_content(Content::Structured(customer2()))
        .with_key(DocumentKey::new("94712").unwrap());
    let method = InsertDocumentsReturnNew::new("customers", vec![new_document1, new_document2]);
    let documents = method.execute(&mut store).unwrap();

    if let Ok(ref document1) = documents.get(0).unwrap() {
        assert_eq!("customers/94712", &document1.id().to_string());
        assert_eq!("customers", document1.id().collection_name());
        assert_eq!("94712", document1.id().document_key());
        assert_eq!("94712", document1.key().as_str());
        assert!(!document1.revision().as_str().is_empty());
        assert_eq!(&Content::Structured(customer()), document1.content());
    } else {
        panic!("Expected document 1, but got: {:?}", documents.get(0));
    }

    if let Err(ref error) = documents.get(1).unwrap() {
        assert_eq!(ErrorCode::ArangoUniqueConstraintViolated, error.code());
        assert_eq!(
            "unique constraint violated - in index 0 of type primary over [\"_key\"]",
            error.message()
        );
    } else {
        panic!("Expected method error, but got: {:?}", documents.get(1))
    }
}
