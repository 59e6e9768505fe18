//! The laws of the document method layer.
//!
//! Each proof function here states a property that relates several
//! operations, over the same store views and outcome functions the
//! operations' own contracts use. Laws that concern a single operation —
//! that a write always produces a fresh revision and reports the replaced
//! one, and that old and new content come back exactly as the two return
//! flags request — are stated directly on the `execute` contracts in
//! `store`.

use vstd::prelude::*;

use crate::document::{
    content_fields, is_system_name, user_fields, user_fields_upto, Representation, SpecContent,
    SpecNewDocument,
};
use crate::error::{ErrorCode, SpecMethodError};
use crate::ident::{spec_id_text, SpecDocumentId, SpecHeader};
use crate::methods::SpecGet;
use crate::methods::SpecWrite;
use crate::store::{
    batch_headers_ok, batch_item_ok, body_fields, collection_not_found, document_not_found,
    get_outcome, insert_applied, insert_check, precondition_failed, spec_content_of, write_applied,
    write_check, SpecDoc,
};
use crate::value::{SpecField, SpecValue};

verus! {

broadcast use vstd::seq::group_seq_axioms;

proof fn lemma_user_fields_prefix_id(fs: Seq<SpecField>, i: int)
    requires
        forall|n: int| 0 <= n < fs.len() ==> !is_system_name(#[trigger] fs[n].name),
        0 <= i <= fs.len(),
    ensures
        user_fields_upto(fs, i) == fs.subrange(0, i),
    decreases i,
{
    if i == 0 {
        assert(user_fields_upto(fs, 0) =~= fs.subrange(0, 0));
    } else {
        lemma_user_fields_prefix_id(fs, i - 1);
        assert(user_fields_upto(fs, i) =~= fs.subrange(0, i));
    }
}

/// Content without system-named fields is stored exactly as given: taking
/// the caller-visible fields changes nothing.
pub proof fn lemma_user_fields_identity(fs: Seq<SpecField>)
    requires
        forall|n: int| 0 <= n < fs.len() ==> !is_system_name(#[trigger] fs[n].name),
    ensures
        user_fields(fs) == fs,
{
    lemma_user_fields_prefix_id(fs, fs.len() as int);
    assert(fs.subrange(0, fs.len() as int) =~= fs);
}

/// Inserting and then fetching: after a successful insert answered with
/// header `h`, an unconditional get of `h`'s address answers the document
/// whose identity, key and revision are exactly the header's, and whose
/// content holds the inserted content's caller-visible fields. Structured
/// content without system-named fields comes back equal to what went in.
pub proof fn lemma_insert_then_get(
    s0: Map<Seq<char>, Map<Seq<char>, SpecDoc>>,
    s1: Map<Seq<char>, Map<Seq<char>, SpecDoc>>,
    coll: Seq<char>,
    nd: SpecNewDocument,
    h: SpecHeader,
    repr: Representation,
)
    requires
        insert_check(s0, coll, nd) is None,
        insert_applied(s0, s1, coll, nd, h),
    ensures
        get_outcome(
            s1,
            SpecGet { id: h.id, if_match: None, if_non_match: None, representation: repr },
        ) == Ok::<_, crate::error::SpecError>(
            crate::document::SpecDocument {
                id: h.id,
                key: h.key,
                revision: h.revision,
                content: spec_content_of(user_fields(body_fields(nd)), repr),
            },
        ),
        (nd.content matches SpecContent::Structured(v) && v matches SpecValue::Object(fs)
            && (forall|n: int| 0 <= n < fs.len() ==> !is_system_name(#[trigger] fs[n].name))
            && repr == Representation::Structured) ==> get_outcome(
            s1,
            SpecGet { id: h.id, if_match: None, if_non_match: None, representation: repr },
        )->Ok_0.content == nd.content,
{
    assert(s1.contains_key(coll));
    assert(s1[coll].contains_key(h.key));
    assert(s1[coll][h.key] == SpecDoc { revision: h.revision, fields: user_fields(body_fields(nd)) });
    match nd.content {
        SpecContent::Structured(v) => match v {
            SpecValue::Object(fs) => {
                if forall|n: int| 0 <= n < fs.len() ==> !is_system_name(#[trigger] fs[n].name) {
                    lemma_user_fields_identity(fs);
                    assert(body_fields(nd) == fs);
                }
            },
            _ => {},
        },
        _ => {},
    }
}

/// The key an insert assigns: with a caller key the header echoes it
/// exactly; in every case the key is non-empty and the header's address
/// renders as `collection/key`.
pub proof fn lemma_insert_key_assignment(
    s0: Map<Seq<char>, Map<Seq<char>, SpecDoc>>,
    s1: Map<Seq<char>, Map<Seq<char>, SpecDoc>>,
    coll: Seq<char>,
    nd: SpecNewDocument,
    h: SpecHeader,
)
    requires
        insert_check(s0, coll, nd) is None,
        insert_applied(s0, s1, coll, nd, h),
    ensures
        h.key.len() > 0,
        nd.key matches Some(k) ==> h.key == k,
        spec_id_text(h.id) == coll + seq!['/'] + h.key,
{
}

/// A write is never silent about versions: a replace or update of the
/// document a prior write produced reports that write's revision as the
/// replaced one, and assigns a revision different from it.
pub proof fn lemma_write_reports_prior_revision(
    s0: Map<Seq<char>, Map<Seq<char>, SpecDoc>>,
    s1: Map<Seq<char>, Map<Seq<char>, SpecDoc>>,
    s2: Map<Seq<char>, Map<Seq<char>, SpecDoc>>,
    coll: Seq<char>,
    nd: SpecNewDocument,
    h: SpecHeader,
    m: SpecWrite,
    new_fields: Seq<SpecField>,
    u: crate::document::SpecUpdatedDocument,
)
    requires
        insert_check(s0, coll, nd) is None,
        insert_applied(s0, s1, coll, nd, h),
        m.id == h.id,
        write_check(s1, m.id, m.update, m.if_match, m.ignore_revisions) is None,
        write_applied(s1, s2, m, new_fields, u),
    ensures
        u.old_revision == h.revision,
        u.revision != h.revision,
{
    assert(s1[coll][h.key].revision == h.revision);
}

/// The revision precondition of a read: with the stored revision a
/// conditional get answers the document; with any other revision it fails
/// with status 412, the conflict code, and the message
/// `precondition failed`.
pub proof fn lemma_get_if_match(
    s: Map<Seq<char>, Map<Seq<char>, SpecDoc>>,
    id: SpecDocumentId,
    given: Seq<char>,
    repr: Representation,
)
    requires
        s.contains_key(id.collection),
        s[id.collection].contains_key(id.key),
    ensures
        given == s[id.collection][id.key].revision ==> get_outcome(
            s,
            SpecGet { id, if_match: Some(given), if_non_match: None, representation: repr },
        ) == Ok::<_, crate::error::SpecError>(
            crate::document::SpecDocument {
                id,
                key: id.key,
                revision: s[id.collection][id.key].revision,
                content: spec_content_of(s[id.collection][id.key].fields, repr),
            },
        ),
        given != s[id.collection][id.key].revision ==> {
            let r = get_outcome(
                s,
                SpecGet { id, if_match: Some(given), if_non_match: None, representation: repr },
            );
            &&& r == Err::<crate::document::SpecDocument, _>(precondition_failed())
            &&& r->Err_0.status_code == 412
            &&& r->Err_0.error_code == ErrorCode::ArangoConflict
            &&& r->Err_0.message == "precondition failed"@
        },
{
}

/// Not-found discrimination: a read addressed at a collection that does
/// not exist and a read of a missing key in a collection that does exist
/// both fail with status 404, but with distinct codes and messages — the
/// collection's error names the collection, the document's says
/// `document not found`.
pub proof fn lemma_not_found_discrimination(
    s: Map<Seq<char>, Map<Seq<char>, SpecDoc>>,
    missing_coll: Seq<char>,
    existing_coll: Seq<char>,
    key: Seq<char>,
    repr: Representation,
)
    requires
        !s.contains_key(missing_coll),
        s.contains_key(existing_coll),
        !s[existing_coll].contains_key(key),
    ensures
        get_outcome(
            s,
            SpecGet {
                id: SpecDocumentId { collection: missing_coll, key },
                if_match: None,
                if_non_match: None,
                representation: repr,
            },
        ) == Err::<crate::document::SpecDocument, _>(collection_not_found(missing_coll)),
        get_outcome(
            s,
            SpecGet {
                id: SpecDocumentId { collection: existing_coll, key },
                if_match: None,
                if_non_match: None,
                representation: repr,
            },
        ) == Err::<crate::document::SpecDocument, _>(document_not_found()),
        collection_not_found(missing_coll).status_code == 404,
        document_not_found().status_code == 404,
        collection_not_found(missing_coll).error_code != document_not_found().error_code,
        collection_not_found(missing_coll).message == "collection not found: "@ + missing_coll,
        document_not_found().message == "document not found"@,
{
}

/// Batch partial failure: when one batch inserts two documents under the
/// same caller-assigned key that is not yet stored, the first item
/// succeeds and the second fails with the unique-constraint code and
/// message, while the call as a whole succeeds — the outcomes
/// [`batch_headers_ok`] admits say so for any conforming result sequence.
pub proof fn lemma_batch_duplicate_key(
    s0: Map<Seq<char>, Map<Seq<char>, SpecDoc>>,
    s1: Map<Seq<char>, Map<Seq<char>, SpecDoc>>,
    coll: Seq<char>,
    items: Seq<SpecNewDocument>,
    results: Seq<Result<crate::ident::DocumentHeader, crate::error::MethodError>>,
    k: Seq<char>,
)
    requires
        s0.contains_key(coll),
        items.len() == 2,
        items[0].key == Some(k),
        items[1].key == Some(k),
        content_fields(items[0].content) is Some,
        content_fields(items[1].content) is Some,
        !s0[coll].contains_key(k),
        batch_headers_ok(s0, s1, coll, items, results),
    ensures
        results[0] is Ok,
        results[0] matches Ok(h) && h@.key == k,
        results[1] matches Err(e) && e@ == (SpecMethodError {
            code: ErrorCode::ArangoUniqueConstraintViolated,
            message: "unique constraint violated - in index 0 of type primary over [\"_key\"]"@,
        }),
{
    let docs0 = s0[coll];
    assert(batch_item_ok(docs0, items, 0)) by {
        assert(crate::store::batch_taken_keys(docs0, items, 0) =~= Set::<Seq<char>>::empty());
    }
    assert(!batch_item_ok(docs0, items, 1)) by {
        assert(crate::store::batch_taken_keys(docs0, items, 1) == crate::store::batch_taken_keys(
            docs0,
            items,
            0,
        ).insert(k));
        assert(crate::store::batch_taken_keys(docs0, items, 1).contains(k));
    }
    assert(results[0] is Ok);
    assert(results[1] is Err);
    assert(results[1] matches Err(e) && e@ == crate::store::batch_item_error(items, 1));
}

} // verus!
