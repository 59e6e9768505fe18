//! The in-memory document store the method objects execute against.
//!
//! The store realizes the execution capability of the method layer: a set
//! of named collections, each a set of documents keyed by document key,
//! each document carrying its revision and its caller-visible fields. The
//! mathematical model of a store is a map from collection name to a map
//! from key to [`SpecDoc`], reached through `@`.
//!
//! Store-assigned keys and revisions are opaque tokens drawn from two
//! seeds that grow on every use, so a token handed out is strictly longer
//! than every token and caller key already stored: freshness is a length
//! argument, not a counter.

use vstd::prelude::*;
use vstd::string::*;

use crate::value::{clone_fields, field_views, str_eq, Field, SpecField, SpecValue, Value};
use crate::ident::{valid_name, DocumentKey, Revision, SpecDocumentId};
use crate::error::{Error, ErrorCode, SpecError};
use crate::document::{
    user_fields, user_fields_exec, Content, Document, JsonString, NewDocument, Representation,
    SpecContent, SpecDocument, SpecNewDocument,
};
use crate::ident::{spec_id_text, DocumentHeader, DocumentId, SpecHeader};
use crate::methods::{
    new_document_views, GetDocument, InsertDocument, InsertDocumentReturnNew, InsertDocuments,
    InsertDocumentsReturnNew, ReplaceDocument, SpecGet, SpecWrite, UpdateDocument,
};
use crate::error::{MethodError, SpecMethodError};
use crate::document::{DocumentUpdate, SpecDocumentUpdate, UpdatedDocument, SpecUpdatedDocument};

verus! {

broadcast use vstd::seq::group_seq_axioms, vstd::std_specs::vec::group_vec_axioms;

// ---------------------------------------------------------------------------
// Association sequences and their maps
// ---------------------------------------------------------------------------

/// The map an association sequence denotes: later entries win.
pub open spec fn assoc_map<V>(s: Seq<(Seq<char>, V)>) -> Map<Seq<char>, V>
    decreases s.len(),
{
    if s.len() == 0 {
        Map::empty()
    } else {
        assoc_map(s.drop_last()).insert(s.last().0, s.last().1)
    }
}

proof fn lemma_assoc_contains<V>(s: Seq<(Seq<char>, V)>, k: Seq<char>)
    ensures
        assoc_map(s).contains_key(k) <==> exists|i: int| 0 <= i < s.len() && s[i].0 == k,
    decreases s.len(),
{
    if s.len() > 0 {
        lemma_assoc_contains(s.drop_last(), k);
        if s.last().0 == k {
            assert(s[s.len() - 1].0 == k);
        } else {
            if exists|i: int| 0 <= i < s.len() - 1 && s.drop_last()[i].0 == k {
                let i = choose|i: int| 0 <= i < s.len() - 1 && s.drop_last()[i].0 == k;
                assert(s[i].0 == k);
            }
            if exists|i: int| 0 <= i < s.len() && s[i].0 == k {
                let i = choose|i: int| 0 <= i < s.len() && s[i].0 == k;
                assert(i < s.len() - 1 && s.drop_last()[i].0 == k);
            }
        }
    }
}

proof fn lemma_assoc_lookup<V>(s: Seq<(Seq<char>, V)>, i: int)
    requires
        0 <= i < s.len(),
        forall|j: int| i < j < s.len() ==> s[j].0 != s[i].0,
    ensures
        assoc_map(s).contains_key(s[i].0),
        assoc_map(s)[s[i].0] == s[i].1,
    decreases s.len(),
{
    if i < s.len() - 1 {
        assert(forall|j: int| i < j < s.len() - 1 ==> s.drop_last()[j].0 != s.drop_last()[i].0);
        lemma_assoc_lookup(s.drop_last(), i);
        assert(s.last().0 != s[i].0);
    }
}

proof fn lemma_assoc_update<V>(s: Seq<(Seq<char>, V)>, i: int, v: V)
    requires
        0 <= i < s.len(),
        forall|j: int| 0 <= j < s.len() && j != i ==> s[j].0 != s[i].0,
    ensures
        assoc_map(s.update(i, (s[i].0, v))) =~= assoc_map(s).insert(s[i].0, v),
    decreases s.len(),
{
    let t = s.update(i, (s[i].0, v));
    if i == s.len() - 1 {
        assert(t.drop_last() =~= s.drop_last());
    } else {
        assert(t.drop_last() =~= s.drop_last().update(i, (s[i].0, v)));
        lemma_assoc_update(s.drop_last(), i, v);
        assert(s.last().0 != s[i].0);
    }
}

// ---------------------------------------------------------------------------
// The store and its view
// ---------------------------------------------------------------------------

/// The mathematical model of one stored document.
pub ghost struct SpecDoc {
    /// The revision of the document's latest write.
    pub revision: Seq<char>,
    /// The caller-visible fields, in stored order, system fields excluded.
    pub fields: Seq<SpecField>,
}

struct StoredDoc {
    key: String,
    revision: String,
    fields: Vec<Field>,
}

struct Collection {
    name: String,
    docs: Vec<StoredDoc>,
}

/// The in-memory store.
pub struct Store {
    collections: Vec<Collection>,
    key_seed: String,
    rev_seed: String,
}

spec fn doc_view(d: StoredDoc) -> SpecDoc {
    SpecDoc { revision: d.revision@, fields: field_views(d.fields@) }
}

spec fn doc_pairs(docs: Seq<StoredDoc>) -> Seq<(Seq<char>, SpecDoc)> {
    Seq::new(
        docs.len(),
        |i: int| if 0 <= i < docs.len() {
            (docs[i].key@, doc_view(docs[i]))
        } else {
            (Seq::empty(), SpecDoc { revision: Seq::empty(), fields: Seq::empty() })
        },
    )
}

spec fn docs_view(docs: Seq<StoredDoc>) -> Map<Seq<char>, SpecDoc> {
    assoc_map(doc_pairs(docs))
}

spec fn coll_pairs(colls: Seq<Collection>) -> Seq<(Seq<char>, Map<Seq<char>, SpecDoc>)> {
    Seq::new(
        colls.len(),
        |i: int| if 0 <= i < colls.len() {
            (colls[i].name@, docs_view(colls[i].docs@))
        } else {
            (Seq::empty(), Map::empty())
        },
    )
}

impl View for Store {
    type V = Map<Seq<char>, Map<Seq<char>, SpecDoc>>;

    closed spec fn view(&self) -> Map<Seq<char>, Map<Seq<char>, SpecDoc>> {
        assoc_map(coll_pairs(self.collections@))
    }
}

/// A growing token seed: a non-empty run of `1`s.
spec fn seed_wf(s: Seq<char>) -> bool {
    s.len() >= 1 && forall|i: int| 0 <= i < s.len() ==> s[i] == '1'
}

spec fn coll_wf(c: Collection, key_seed: Seq<char>, rev_seed: Seq<char>) -> bool {
    &&& forall|i: int, j: int|
        0 <= i < j < c.docs@.len() ==> c.docs@[i].key@ != c.docs@[j].key@
    &&& forall|i: int|
        0 <= i < c.docs@.len() ==> valid_name(#[trigger] c.docs@[i].key@) && c.docs@[i].key@.len()
            < key_seed.len() && 1 <= c.docs@[i].revision@.len() < rev_seed.len()
}

impl Store {
    /// The store's internal consistency: collection names and keys are
    /// unique and valid, and every stored key and revision is shorter than
    /// the seed its successors are drawn from.
    pub closed spec fn wf(&self) -> bool {
        &&& seed_wf(self.key_seed@)
        &&& seed_wf(self.rev_seed@)
        &&& forall|i: int, j: int|
            0 <= i < j < self.collections@.len() ==> self.collections@[i].name@
                != self.collections@[j].name@
        &&& forall|i: int|
            0 <= i < self.collections@.len() ==> valid_name(
                #[trigger] self.collections@[i].name@,
            ) && coll_wf(self.collections@[i], self.key_seed@, self.rev_seed@)
    }

    /// An empty store: no collections.
    pub fn new() -> (r: Store)
        ensures
            r.wf(),
            r@ =~= Map::<Seq<char>, Map<Seq<char>, SpecDoc>>::empty(),
    {
        let r = Store {
            collections: Vec::new(),
            key_seed: String::from_str("1"),
            rev_seed: String::from_str("1"),
        };
        proof {
            reveal_strlit("1");
            assert(seed_wf(r.key_seed@));
            assert(coll_pairs(r.collections@) =~= Seq::empty());
        }
        r
    }

    /// Creates an empty collection of the given name. The name must be
    /// valid and not taken.
    pub fn create_collection(&mut self, name: &str) -> (r: Result<(), Error>)
        requires
            old(self).wf(),
        ensures
            final(self).wf(),
            !valid_name(name@) ==> (r matches Err(e) && e@.status_code == 400 && e@.error_code
                == ErrorCode::BadParameter && e@.message == "invalid collection name"@
                && final(self)@ == old(self)@),
            valid_name(name@) && old(self)@.contains_key(name@) ==> (r matches Err(e)
                && e@.status_code == 409 && e@.error_code == ErrorCode::ArangoDuplicateName
                && e@.message == "duplicate name"@ && final(self)@ == old(self)@),
            valid_name(name@) && !old(self)@.contains_key(name@) ==> (r is Ok && final(self)@
                =~= old(self)@.insert(name@, Map::empty())),
    {
        proof {
            lemma_assoc_contains(coll_pairs(self.collections@), name@);
        }
        if !crate::ident::valid_name_exec(name) {
            return Err(
                Error::new(
                    400,
                    ErrorCode::BadParameter,
                    String::from_str("invalid collection name"),
                ),
            );
        }
        if let Some(i) = find_collection(&self.collections, name) {
            proof {
                assert(coll_pairs(self.collections@)[i as int].0 == name@);
            }
            return Err(
                Error::new(409, ErrorCode::ArangoDuplicateName, String::from_str("duplicate name")),
            );
        }
        proof {
            assert forall|i: int| 0 <= i < coll_pairs(self.collections@).len() implies coll_pairs(
                self.collections@,
            )[i].0 != name@ by {}
        }
        let ghost before = self.collections@;
        let coll = Collection { name: name.to_owned(), docs: Vec::new() };
        self.collections.push(coll);
        proof {
            assert(coll_pairs(self.collections@).drop_last() =~= coll_pairs(before));
            assert(docs_view(self.collections@.last().docs@) =~= Map::<Seq<char>, SpecDoc>::empty())
                by {
                assert(doc_pairs(self.collections@.last().docs@) =~= Seq::empty());
            }
            assert(self@ =~= old(self)@.insert(name@, Map::empty()));
        }
        Ok(())
    }
}

fn find_collection(colls: &Vec<Collection>, name: &str) -> (r: Option<usize>)
    ensures
        match r {
            Some(i) => i < colls@.len() && colls@[i as int].name@ == name@,
            None => forall|i: int| 0 <= i < colls@.len() ==> colls@[i].name@ != name@,
        },
{
    let mut i: usize = 0;
    while i < colls.len()
        invariant
            i <= colls@.len(),
            forall|j: int| 0 <= j < i as int ==> colls@[j].name@ != name@,
        decreases colls@.len() - i,
    {
        if str_eq(colls[i].name.as_str(), name) {
            return Some(i);
        }
        i = i + 1;
    }
    None
}

fn find_doc(docs: &Vec<StoredDoc>, key: &str) -> (r: Option<usize>)
    ensures
        match r {
            Some(i) => i < docs@.len() && docs@[i as int].key@ == key@,
            None => forall|i: int| 0 <= i < docs@.len() ==> docs@[i].key@ != key@,
        },
{
    let mut i: usize = 0;
    while i < docs.len()
        invariant
            i <= docs@.len(),
            forall|j: int| 0 <= j < i as int ==> docs@[j].key@ != key@,
        decreases docs@.len() - i,
    {
        if str_eq(docs[i].key.as_str(), key) {
            return Some(i);
        }
        i = i + 1;
    }
    None
}

// ---------------------------------------------------------------------------
// The errors the operations answer with
// ---------------------------------------------------------------------------

/// The error for an address whose collection does not exist.
pub open spec fn collection_not_found(name: Seq<char>) -> SpecError {
    SpecError {
        status_code: 404,
        error_code: ErrorCode::ArangoCollectionNotFound,
        message: "collection not found: "@ + name,
    }
}

/// The error for a key unknown within an existing collection.
pub open spec fn document_not_found() -> SpecError {
    SpecError {
        status_code: 404,
        error_code: ErrorCode::ArangoDocumentNotFound,
        message: "document not found"@,
    }
}

/// The error for a revision precondition that was not met.
pub open spec fn precondition_failed() -> SpecError {
    SpecError {
        status_code: 412,
        error_code: ErrorCode::ArangoConflict,
        message: "precondition failed"@,
    }
}

/// The answer to a conditional read of a document whose revision equals
/// the if-non-match revision.
pub open spec fn not_modified() -> SpecError {
    SpecError { status_code: 304, error_code: ErrorCode::NoError, message: "not modified"@ }
}

/// The error for content that does not denote a document body.
pub open spec fn bad_document_body() -> SpecError {
    SpecError {
        status_code: 400,
        error_code: ErrorCode::BadParameter,
        message: "expecting a document body"@,
    }
}

/// The error for a caller-assigned key that already exists.
pub open spec fn unique_constraint_violated() -> SpecError {
    SpecError {
        status_code: 409,
        error_code: ErrorCode::ArangoUniqueConstraintViolated,
        message: "unique constraint violated - in index 0 of type primary over [\"_key\"]"@,
    }
}

fn err_collection_not_found(name: &str) -> (e: Error)
    ensures
        e@ == collection_not_found(name@),
{
    let mut m = String::from_str("collection not found: ");
    m.append(name);
    Error::new(404, ErrorCode::ArangoCollectionNotFound, m)
}

fn err_document_not_found() -> (e: Error)
    ensures
        e@ == document_not_found(),
{
    Error::new(404, ErrorCode::ArangoDocumentNotFound, String::from_str("document not found"))
}

fn err_precondition_failed() -> (e: Error)
    ensures
        e@ == precondition_failed(),
{
    Error::new(412, ErrorCode::ArangoConflict, String::from_str("precondition failed"))
}

fn err_not_modified() -> (e: Error)
    ensures
        e@ == not_modified(),
{
    Error::new(304, ErrorCode::NoError, String::from_str("not modified"))
}

fn err_unique_constraint_violated() -> (e: Error)
    ensures
        e@ == unique_constraint_violated(),
{
    Error::new(
        409,
        ErrorCode::ArangoUniqueConstraintViolated,
        String::from_str("unique constraint violated - in index 0 of type primary over [\"_key\"]"),
    )
}

fn err_bad_document_body() -> (e: Error)
    ensures
        e@ == bad_document_body(),
{
    Error::new(400, ErrorCode::BadParameter, String::from_str("expecting a document body"))
}

// ---------------------------------------------------------------------------
// Reading
// ---------------------------------------------------------------------------

/// The content a read of the given stored fields yields in the given
/// representation.
pub open spec fn spec_content_of(fields: Seq<SpecField>, repr: Representation) -> SpecContent {
    match repr {
        Representation::Structured => SpecContent::Structured(SpecValue::Object(fields)),
        Representation::RawText => SpecContent::Raw(fields),
    }
}

fn content_of(fields: &Vec<Field>, repr: Representation) -> (c: Content)
    ensures
        c@ == spec_content_of(field_views(fields@), repr),
{
    let copied = clone_fields(fields);
    proof {
        assert(field_views(copied@) =~= field_views(fields@));
    }
    match repr {
        Representation::Structured => Content::Structured(Value::Object(copied)),
        Representation::RawText => Content::Raw(JsonString::from_fields(copied)),
    }
}

/// What a get answers on the given store: the document, or the error,
/// decided entirely by the store's contents and the method's inputs.
///
/// The collection is consulted first, then the key, then the revision
/// preconditions, `if_match` before `if_non_match`.
pub open spec fn get_outcome(s: Map<Seq<char>, Map<Seq<char>, SpecDoc>>, m: SpecGet) -> Result<
    SpecDocument,
    SpecError,
> {
    if !s.contains_key(m.id.collection) {
        Err(collection_not_found(m.id.collection))
    } else if !s[m.id.collection].contains_key(m.id.key) {
        Err(document_not_found())
    } else {
        let doc = s[m.id.collection][m.id.key];
        let good = Ok::<SpecDocument, SpecError>(
            SpecDocument {
                id: m.id,
                key: m.id.key,
                revision: doc.revision,
                content: spec_content_of(doc.fields, m.representation),
            },
        );
        match m.if_match {
            Some(required) => if required != doc.revision {
                Err(precondition_failed())
            } else {
                good
            },
            None => match m.if_non_match {
                Some(absent) => if absent == doc.revision {
                    Err(not_modified())
                } else {
                    good
                },
                None => good,
            },
        }
    }
}

impl GetDocument {
    /// Dispatches the read against the store and decodes its answer.
    pub fn execute(&self, store: &Store) -> (r: Result<Document, Error>)
        requires
            store.wf(),
        ensures
            match get_outcome(store@, self@) {
                Ok(d) => r matches Ok(doc) && doc@ == d,
                Err(e) => r matches Err(err) && err@ == e,
            },
    {
        let ghost pairs = coll_pairs(store.collections@);
        proof {
            lemma_assoc_contains(pairs, self@.id.collection);
        }
        let ci = match find_collection(&store.collections, self.id.collection_name()) {
            Some(ci) => ci,
            None => {
                proof {
                    assert forall|i: int| 0 <= i < pairs.len() implies pairs[i].0
                        != self@.id.collection by {}
                }
                return Err(err_collection_not_found(self.id.collection_name()));
            },
        };
        proof {
            let cii = ci as int;
            assert(pairs[cii].0 == self@.id.collection);
            assert forall|j: int| cii < j < pairs.len() implies pairs[j].0 != pairs[cii].0 by {}
            lemma_assoc_lookup(pairs, cii);
        }
        let docs = &store.collections[ci].docs;
        let ghost dpairs = doc_pairs(docs@);
        proof {
            lemma_assoc_contains(dpairs, self@.id.key);
        }
        let di = match find_doc(docs, self.id.document_key()) {
            Some(di) => di,
            None => {
                proof {
                    assert forall|i: int| 0 <= i < dpairs.len() implies dpairs[i].0
                        != self@.id.key by {}
                }
                return Err(err_document_not_found());
            },
        };
        proof {
            let dii = di as int;
            assert(dpairs[dii].0 == self@.id.key);
            assert forall|j: int| dii < j < dpairs.len() implies dpairs[j].0 != dpairs[dii].0 by {}
            lemma_assoc_lookup(dpairs, dii);
        }
        let stored = &docs[di];
        match &self.if_match {
            Some(required) => {
                if !str_eq(required.as_str(), stored.revision.as_str()) {
                    return Err(err_precondition_failed());
                }
            },
            None => {
                if let Some(absent) = &self.if_non_match {
                    if str_eq(absent.as_str(), stored.revision.as_str()) {
                        return Err(err_not_modified());
                    }
                }
            },
        }
        let key = DocumentKey::from_valid(stored.key.clone());
        let revision = Revision::new(stored.revision.as_str());
        let content = content_of(&stored.fields, self.representation);
        Ok(Document::assemble(self.id.clone(), key, revision, content))
    }
}

// ---------------------------------------------------------------------------
// Fresh tokens
// ---------------------------------------------------------------------------

fn take_token(seed: &mut String) -> (r: String)
    requires
        seed_wf(old(seed)@),
    ensures
        r@ == old(seed)@,
        final(seed)@ == old(seed)@ + seq!['1'],
        seed_wf(final(seed)@),
        old(seed)@.len() < final(seed)@.len(),
        valid_name(r@),
        r@.len() >= 1,
{
    let r = seed.clone();
    seed.append("1");
    proof {
        reveal_strlit("1");
        assert(seed@ =~= old(seed)@ + seq!['1']);
        assert(seed_wf(seed@));
        assert(valid_name(r@));
    }
    r
}

fn grow_seed_past(seed: &mut String, len: usize)
    requires
        seed_wf(old(seed)@),
    ensures
        seed_wf(final(seed)@),
        final(seed)@.len() > len as int,
        final(seed)@.len() >= old(seed)@.len(),
    decreases len + 2,
{
    loop
        invariant
            seed_wf(seed@),
            seed@.len() >= old(seed)@.len(),
        decreases len as int + 1 - seed@.len(),
    {
        if seed.as_str().unicode_len() > len {
            return ;
        }
        seed.append("1");
        proof {
            reveal_strlit("1");
            assert(seed_wf(seed@));
        }
    }
}

// ---------------------------------------------------------------------------
// Inserting
// ---------------------------------------------------------------------------

/// The fields a new document's content denotes, or the empty sequence
/// where it denotes none.
pub open spec fn body_fields(nd: SpecNewDocument) -> Seq<SpecField> {
    match crate::document::content_fields(nd.content) {
        Some(fs) => fs,
        None => Seq::empty(),
    }
}

/// A stored document as raw text carries the store-injected identity
/// fields `_id`, `_key` and `_rev` in front of the caller's fields.
pub open spec fn with_system_fields(
    id: SpecDocumentId,
    rev: Seq<char>,
    fields: Seq<SpecField>,
) -> Seq<SpecField> {
    seq![
        SpecField { name: seq!['_', 'i', 'd'], value: SpecValue::Str(spec_id_text(id)) },
        SpecField { name: seq!['_', 'k', 'e', 'y'], value: SpecValue::Str(id.key) },
        SpecField { name: seq!['_', 'r', 'e', 'v'], value: SpecValue::Str(rev) },
    ] + fields
}

fn with_system_fields_exec(id: &DocumentId, rev: &str, fields: &Vec<Field>) -> (res: Vec<Field>)
    ensures
        field_views(res@) == with_system_fields(id@, rev@, field_views(fields@)),
{
    let ghost target = with_system_fields(id@, rev@, field_views(fields@));
    let mut out: Vec<Field> = Vec::new();
    out.push(Field { name: String::from_str("_id"), value: Value::Str(id.to_string()) });
    out.push(
        Field { name: String::from_str("_key"), value: Value::Str(id.document_key().to_owned()) },
    );
    out.push(Field { name: String::from_str("_rev"), value: Value::Str(rev.to_owned()) });
    proof {
        reveal_strlit("_id");
        reveal_strlit("_key");
        reveal_strlit("_rev");
        assert("_id"@ =~= seq!['_', 'i', 'd']);
        assert("_key"@ =~= seq!['_', 'k', 'e', 'y']);
        assert("_rev"@ =~= seq!['_', 'r', 'e', 'v']);
        assert(out@[0]@ == target[0]);
        assert(out@[1]@ == target[1]);
        assert(out@[2]@ == target[2]);
    }
    let mut i: usize = 0;
    while i < fields.len()
        invariant
            i <= fields@.len(),
            out@.len() == 3 + i as int,
            target == with_system_fields(id@, rev@, field_views(fields@)),
            out@[0]@ == target[0],
            out@[1]@ == target[1],
            out@[2]@ == target[2],
            forall|j: int| 0 <= j < i as int ==> out@[3 + j]@ == fields@[j]@,
        decreases fields@.len() - i,
    {
        out.push(fields[i].clone());
        i = i + 1;
    }
    proof {
        assert forall|j: int| 0 <= j < target.len() implies field_views(out@)[j] == target[j] by {
            if j >= 3 {
                assert(out@[j]@ == fields@[j - 3]@);
                assert(target[j] == field_views(fields@)[j - 3]);
            }
        }
        assert(field_views(out@) =~= target);
    }
    out
}

/// Why an insert of `nd` into `coll` on store `s` is refused, if it is:
/// content that is no document body is refused first, then a missing
/// collection, then a caller-assigned key that is already taken.
pub open spec fn insert_check(
    s: Map<Seq<char>, Map<Seq<char>, SpecDoc>>,
    coll: Seq<char>,
    nd: SpecNewDocument,
) -> Option<SpecError> {
    if crate::document::content_fields(nd.content) is None {
        Some(bad_document_body())
    } else if !s.contains_key(coll) {
        Some(collection_not_found(coll))
    } else {
        match nd.key {
            Some(k) => if s[coll].contains_key(k) {
                Some(unique_constraint_violated())
            } else {
                None
            },
            None => None,
        }
    }
}

/// How a successful insert relates the new store to the old: the header
/// addresses the collection, its key is the caller's or a fresh one, and
/// the collection gains exactly one document holding the caller-visible
/// fields of the inserted content under a non-empty revision.
pub open spec fn insert_applied(
    s0: Map<Seq<char>, Map<Seq<char>, SpecDoc>>,
    s1: Map<Seq<char>, Map<Seq<char>, SpecDoc>>,
    coll: Seq<char>,
    nd: SpecNewDocument,
    h: SpecHeader,
) -> bool {
    &&& h.id.collection == coll
    &&& h.id.key == h.key
    &&& valid_name(h.key)
    &&& (match nd.key {
        Some(k) => h.key == k,
        None => true,
    })
    &&& !s0[coll].contains_key(h.key)
    &&& h.revision.len() >= 1
    &&& s1 == s0.insert(
        coll,
        s0[coll].insert(h.key, SpecDoc { revision: h.revision, fields: user_fields(body_fields(nd)) }),
    )
}

impl Store {
    fn insert_core(&mut self, collection: &str, nd: &NewDocument) -> (r: Result<
        (DocumentKey, Revision),
        Error,
    >)
        requires
            old(self).wf(),
        ensures
            final(self).wf(),
            old(self).key_seed@.len() <= final(self).key_seed@.len(),
            match insert_check(old(self)@, collection@, nd@) {
                Some(e) => r matches Err(err) && err@ == e && final(self)@ == old(self)@,
                None => r matches Ok(p) && (nd@.key is None ==> p.0@ == old(self).key_seed@)
                    && valid_name(collection@) && insert_applied(
                    old(self)@,
                    final(self)@,
                    collection@,
                    nd@,
                    SpecHeader {
                        id: SpecDocumentId { collection: collection@, key: p.0@ },
                        key: p.0@,
                        revision: p.1@,
                    },
                ),
            },
    {
        let body = match nd.content().object_fields() {
            Some(f) => f,
            None => {
                return Err(err_bad_document_body());
            },
        };
        let ghost pairs = coll_pairs(self.collections@);
        proof {
            lemma_assoc_contains(pairs, collection@);
        }
        let ci = match find_collection(&self.collections, collection) {
            Some(ci) => ci,
            None => {
                proof {
                    assert forall|i: int| 0 <= i < pairs.len() implies pairs[i].0 != collection@
                        by {}
                }
                return Err(err_collection_not_found(collection));
            },
        };
        proof {
            let cii = ci as int;
            assert(pairs[cii].0 == collection@);
            assert forall|j: int| cii < j < pairs.len() implies pairs[j].0 != pairs[cii].0 by {}
            lemma_assoc_lookup(pairs, cii);
        }
        let ghost olddocs = self.collections@[ci as int].docs@;
        let ghost dpairs = doc_pairs(olddocs);
        proof {
            assert(old(self)@[collection@] == docs_view(olddocs));
        }
        let key: DocumentKey = match nd.key() {
            Some(k) => {
                proof {
                    lemma_assoc_contains(dpairs, k@);
                }
                match find_doc(&self.collections[ci].docs, k.as_str()) {
                    Some(di) => {
                        proof {
                            assert(dpairs[di as int].0 == k@);
                        }
                        return Err(err_unique_constraint_violated());
                    },
                    None => {},
                }
                proof {
                    assert forall|i: int| 0 <= i < dpairs.len() implies dpairs[i].0 != k@ by {}
                    use_type_invariant(k);
                }
                grow_seed_past(&mut self.key_seed, k.as_str().unicode_len());
                k.clone()
            },
            None => {
                let token = take_token(&mut self.key_seed);
                proof {
                    lemma_assoc_contains(dpairs, token@);
                    assert forall|i: int| 0 <= i < dpairs.len() implies dpairs[i].0 != token@ by {
                        assert(olddocs[i].key@.len() < token@.len());
                    }
                }
                DocumentKey::from_valid(token)
            },
        };
        proof {
            use_type_invariant(&key);
            assert(!docs_view(olddocs).contains_key(key@)) by {
                lemma_assoc_contains(dpairs, key@);
            }
        }
        let rev_token = take_token(&mut self.rev_seed);
        let revision = Revision::new(rev_token.as_str());
        let user = user_fields_exec(body);
        let doc = StoredDoc { key: key.as_str().to_owned(), revision: rev_token, fields: user };
        let ghost gdoc = doc;
        let ghost oldcolls = self.collections@;
        let coll_ref = &mut self.collections[ci];
        coll_ref.docs.push(doc);
        proof {
            let cii = ci as int;
            let newdocs = self.collections@[cii].docs@;
            let newdoc_view = SpecDoc {
                revision: revision@,
                fields: user_fields(body_fields(nd@)),
            };
            assert(newdocs =~= olddocs.push(gdoc));
            assert(doc_view(gdoc) == newdoc_view);
            // The new document map is the old one plus the new entry.
            assert(doc_pairs(newdocs).drop_last() =~= dpairs);
            assert(doc_pairs(newdocs).last() == (key@, newdoc_view));
            assert(docs_view(newdocs) == docs_view(olddocs).insert(key@, newdoc_view));
            // The new store view is the old one with this collection replaced.
            assert(self.collections@ =~= oldcolls.update(cii, self.collections@[cii]));
            assert(self.collections@[cii].name@ == collection@);
            assert(coll_pairs(self.collections@) =~= pairs.update(
                cii,
                (collection@, docs_view(newdocs)),
            ));
            assert forall|j: int| 0 <= j < pairs.len() && j != cii implies pairs[j].0
                != pairs[cii].0 by {}
            lemma_assoc_update(pairs, cii, docs_view(newdocs));
            assert(self@ =~= old(self)@.insert(collection@, docs_view(newdocs)));
            assert(insert_applied(
                old(self)@,
                self@,
                collection@,
                nd@,
                SpecHeader {
                    id: SpecDocumentId { collection: collection@, key: key@ },
                    key: key@,
                    revision: revision@,
                },
            ));
            // Well-formedness is preserved: the new key is unique and short
            // enough, the new revision fresh, and the grown seeds still
            // bound everything already stored.
            assert(key@.len() < self.key_seed@.len());
            assert(1 <= revision@.len() < self.rev_seed@.len());
            assert forall|i: int|
                0 <= i < self.collections@.len() implies valid_name(
                #[trigger] self.collections@[i].name@,
            ) && coll_wf(self.collections@[i], self.key_seed@, self.rev_seed@) by {
                assert(old(self).wf());
                if i == cii {
                    assert forall|a: int, b: int|
                        0 <= a < b < newdocs.len() implies newdocs[a].key@ != newdocs[b].key@ by {
                        if b == newdocs.len() - 1 {
                            assert(dpairs[a].0 == olddocs[a].key@);
                        }
                    }
                    assert(coll_wf(self.collections@[i], self.key_seed@, self.rev_seed@));
                } else {
                    assert(coll_wf(oldcolls[i], old(self).key_seed@, old(self).rev_seed@));
                    assert(coll_wf(self.collections@[i], self.key_seed@, self.rev_seed@));
                }
            }
            assert(self.wf());
        }
        Ok((key, revision))
    }
}

/// The content a write that asks for the new document back yields: in the
/// structured representation the caller-visible fields; as raw text the
/// whole stored document, store-injected identity fields included.
pub open spec fn spec_new_content(
    nd: SpecNewDocument,
    id: SpecDocumentId,
    rev: Seq<char>,
) -> SpecContent {
    match nd.content {
        SpecContent::Structured(_) => SpecContent::Structured(
            SpecValue::Object(user_fields(body_fields(nd))),
        ),
        SpecContent::Raw(_) => SpecContent::Raw(
            with_system_fields(id, rev, user_fields(body_fields(nd))),
        ),
    }
}

/// How a successful insert that returns the new document relates the new
/// store to the old: as [`insert_applied`], with the persisted content
/// handed back in the representation the content went in as.
pub open spec fn insert_return_new_applied(
    s0: Map<Seq<char>, Map<Seq<char>, SpecDoc>>,
    s1: Map<Seq<char>, Map<Seq<char>, SpecDoc>>,
    coll: Seq<char>,
    nd: SpecNewDocument,
    d: SpecDocument,
) -> bool {
    &&& insert_applied(
        s0,
        s1,
        coll,
        nd,
        SpecHeader { id: d.id, key: d.key, revision: d.revision },
    )
    &&& d.content == spec_new_content(nd, d.id, d.revision)
}

impl InsertDocument {
    /// Dispatches the insert against the store.
    pub fn execute(&self, store: &mut Store) -> (r: Result<DocumentHeader, Error>)
        requires
            old(store).wf(),
        ensures
            final(store).wf(),
            match insert_check(old(store)@, self@.collection, self@.new_document) {
                Some(e) => r matches Err(err) && err@ == e && final(store)@ == old(store)@,
                None => r matches Ok(h) && insert_applied(
                    old(store)@,
                    final(store)@,
                    self@.collection,
                    self@.new_document,
                    h@,
                ),
            },
    {
        match store.insert_core(self.collection.as_str(), &self.new_document) {
            Ok((key, revision)) => {
                proof {
                    use_type_invariant(&key);
                }
                let id = DocumentId::from_valid(self.collection.clone(), key.as_str().to_owned());
                Ok(DocumentHeader::assemble(id, key, revision))
            },
            Err(e) => Err(e),
        }
    }
}

impl InsertDocumentReturnNew {
    /// Dispatches the insert against the store and decodes the persisted
    /// document.
    pub fn execute(&self, store: &mut Store) -> (r: Result<Document, Error>)
        requires
            old(store).wf(),
        ensures
            final(store).wf(),
            match insert_check(old(store)@, self@.collection, self@.new_document) {
                Some(e) => r matches Err(err) && err@ == e && final(store)@ == old(store)@,
                None => r matches Ok(d) && insert_return_new_applied(
                    old(store)@,
                    final(store)@,
                    self@.collection,
                    self@.new_document,
                    d@,
                ),
            },
    {
        match store.insert_core(self.collection.as_str(), &self.new_document) {
            Ok((key, revision)) => {
                proof {
                    use_type_invariant(&key);
                }
                let id = DocumentId::from_valid(self.collection.clone(), key.as_str().to_owned());
                let body = match self.new_document.content().object_fields() {
                    Some(f) => f,
                    None => {
                        proof {
                            assert(false);
                        }
                        return Err(err_bad_document_body());
                    },
                };
                let user = user_fields_exec(body);
                let content = match self.new_document.content() {
                    Content::Structured(_) => Content::Structured(Value::Object(user)),
                    Content::Raw(_) => Content::Raw(
                        JsonString::from_fields(
                            with_system_fields_exec(&id, revision.as_str(), &user),
                        ),
                    ),
                };
                Ok(Document::assemble(id, key, revision, content))
            },
            Err(e) => Err(e),
        }
    }
}

// ---------------------------------------------------------------------------
// Replacing and patching
// ---------------------------------------------------------------------------

/// The fields an update's content denotes, or the empty sequence where it
/// denotes none.
pub open spec fn upd_fields(u: SpecDocumentUpdate) -> Seq<SpecField> {
    match crate::document::content_fields(u.content) {
        Some(fs) => fs,
        None => Seq::empty(),
    }
}

/// The view of an optional revision string.
pub open spec fn opt_view(o: Option<String>) -> Option<Seq<char>> {
    match o {
        Some(s) => Some(s@),
        None => None,
    }
}

/// The value the patch assigns to `name`, its last assignment winning, or
/// nothing if the patch does not mention `name`.
pub open spec fn patch_value(patch: Seq<SpecField>, name: Seq<char>) -> Option<SpecValue>
    decreases patch.len(),
{
    if patch.len() == 0 {
        None
    } else if patch.last().name == name {
        Some(patch.last().value)
    } else {
        patch_value(patch.drop_last(), name)
    }
}

/// Whether some field of `fs` is named `name`.
pub open spec fn has_field(fs: Seq<SpecField>, name: Seq<char>) -> bool {
    exists|i: int| 0 <= i < fs.len() && fs[i].name == name
}

/// The first `i` base fields, each with the patch's value where the patch
/// mentions its name.
pub open spec fn merged_base_upto(base: Seq<SpecField>, patch: Seq<SpecField>, i: int) -> Seq<
    SpecField,
>
    decreases i,
{
    if i <= 0 {
        Seq::empty()
    } else {
        merged_base_upto(base, patch, i - 1) + (if 0 <= i - 1 < base.len() {
            seq![
                match patch_value(patch, base[i - 1].name) {
                    Some(v) => SpecField { name: base[i - 1].name, value: v },
                    None => base[i - 1],
                },
            ]
        } else {
            Seq::<SpecField>::empty()
        })
    }
}

/// The first `i` patch fields whose names the base does not carry.
pub open spec fn appended_upto(patch: Seq<SpecField>, base: Seq<SpecField>, i: int) -> Seq<
    SpecField,
>
    decreases i,
{
    if i <= 0 {
        Seq::empty()
    } else {
        appended_upto(patch, base, i - 1) + (if 0 <= i - 1 < patch.len() && !has_field(
            base,
            patch[i - 1].name,
        ) {
            seq![patch[i - 1]]
        } else {
            Seq::<SpecField>::empty()
        })
    }
}

/// A field-by-field merge: every base field keeps its place, taking the
/// patch's value where the patch mentions its name; patch fields with new
/// names follow, in patch order. Fields absent from the patch stay as they
/// are.
pub open spec fn merge_fields(base: Seq<SpecField>, patch: Seq<SpecField>) -> Seq<SpecField> {
    merged_base_upto(base, patch, base.len() as int) + appended_upto(
        patch,
        base,
        patch.len() as int,
    )
}

fn patch_value_exec<'a>(patch: &'a Vec<Field>, name: &str) -> (r: Option<&'a Value>)
    ensures
        match r {
            Some(v) => patch_value(field_views(patch@), name@) == Some(v@),
            None => patch_value(field_views(patch@), name@) is None,
        },
{
    let ghost pfs = field_views(patch@);
    proof {
        assert(pfs.subrange(0, pfs.len() as int) =~= pfs);
    }
    let mut i: usize = patch.len();
    while i > 0
        invariant
            i <= patch@.len(),
            pfs == field_views(patch@),
            patch_value(pfs, name@) == patch_value(pfs.subrange(0, i as int), name@),
        decreases i,
    {
        if str_eq(patch[i - 1].name.as_str(), name) {
            proof {
                assert(pfs.subrange(0, i as int).last() == pfs[i as int - 1]);
            }
            return Some(&patch[i - 1].value);
        }
        proof {
            assert(pfs.subrange(0, i as int).last() == pfs[i as int - 1]);
            assert(pfs.subrange(0, i as int).drop_last() =~= pfs.subrange(0, i as int - 1));
        }
        i = i - 1;
    }
    proof {
        assert(pfs.subrange(0, 0) =~= Seq::<SpecField>::empty());
    }
    None
}

fn has_field_exec(fs: &Vec<Field>, name: &str) -> (r: bool)
    ensures
        r == has_field(field_views(fs@), name@),
{
    let ghost sfs = field_views(fs@);
    let mut i: usize = 0;
    while i < fs.len()
        invariant
            i <= fs@.len(),
            sfs == field_views(fs@),
            forall|j: int| 0 <= j < i as int ==> sfs[j].name != name@,
        decreases fs@.len() - i,
    {
        if str_eq(fs[i].name.as_str(), name) {
            proof {
                assert(sfs[i as int].name == name@);
            }
            return true;
        }
        i = i + 1;
    }
    false
}

fn merge_fields_exec(base: &Vec<Field>, patch: &Vec<Field>) -> (res: Vec<Field>)
    ensures
        field_views(res@) == merge_fields(field_views(base@), field_views(patch@)),
{
    let ghost bfs = field_views(base@);
    let ghost pfs = field_views(patch@);
    let mut out: Vec<Field> = Vec::new();
    let mut i: usize = 0;
    proof {
        assert(field_views(out@) =~= merged_base_upto(bfs, pfs, 0));
    }
    while i < base.len()
        invariant
            i <= base@.len(),
            bfs == field_views(base@),
            pfs == field_views(patch@),
            field_views(out@) =~= merged_base_upto(bfs, pfs, i as int),
        decreases base@.len() - i,
    {
        match patch_value_exec(patch, base[i].name.as_str()) {
            Some(v) => {
                out.push(Field { name: base[i].name.clone(), value: v.clone() });
            },
            None => {
                out.push(base[i].clone());
            },
        }
        proof {
            assert(field_views(out@) =~= merged_base_upto(bfs, pfs, i as int + 1));
        }
        i = i + 1;
    }
    let mut j: usize = 0;
    while j < patch.len()
        invariant
            j <= patch@.len(),
            bfs == field_views(base@),
            pfs == field_views(patch@),
            field_views(out@) =~= merged_base_upto(bfs, pfs, bfs.len() as int) + appended_upto(
                pfs,
                bfs,
                j as int,
            ),
        decreases patch@.len() - j,
    {
        proof {
            assert(pfs[j as int] == patch@[j as int]@);
        }
        if !has_field_exec(base, patch[j].name.as_str()) {
            let ghost before = out@;
            out.push(patch[j].clone());
            proof {
                assert(field_views(out@) =~= field_views(before).push(pfs[j as int]));
            }
        }
        proof {
            assert(field_views(out@) =~= merged_base_upto(bfs, pfs, bfs.len() as int)
                + appended_upto(pfs, bfs, j as int + 1));
        }
        j = j + 1;
    }
    proof {
        assert(field_views(out@) =~= merge_fields(bfs, pfs));
    }
    out
}

/// Why a replace or update of `id` is refused, if it is: content that is
/// no document body is refused first, then a missing collection, then a
/// missing document, then a revision precondition that is not met —
/// `if_match` when set, otherwise the update's embedded revision unless
/// revisions are ignored.
pub open spec fn write_check(
    s: Map<Seq<char>, Map<Seq<char>, SpecDoc>>,
    id: SpecDocumentId,
    upd: SpecDocumentUpdate,
    if_match: Option<Seq<char>>,
    ignore_revisions: bool,
) -> Option<SpecError> {
    if crate::document::content_fields(upd.content) is None {
        Some(bad_document_body())
    } else if !s.contains_key(id.collection) {
        Some(collection_not_found(id.collection))
    } else if !s[id.collection].contains_key(id.key) {
        Some(document_not_found())
    } else {
        let doc = s[id.collection][id.key];
        match if_match {
            Some(required) => if required != doc.revision {
                Some(precondition_failed())
            } else {
                None
            },
            None => if !ignore_revisions {
                match upd.revision {
                    Some(required) => if required != doc.revision {
                        Some(precondition_failed())
                    } else {
                        None
                    },
                    None => None,
                }
            } else {
                None
            },
        }
    }
}

/// How a successful replace or update relates the new store to the old:
/// the addressed document now holds `new_fields` under a fresh revision,
/// the result reports the replaced revision, and it carries the old and
/// the new content exactly as the two return flags request.
pub open spec fn write_applied(
    s0: Map<Seq<char>, Map<Seq<char>, SpecDoc>>,
    s1: Map<Seq<char>, Map<Seq<char>, SpecDoc>>,
    m: SpecWrite,
    new_fields: Seq<SpecField>,
    u: SpecUpdatedDocument,
) -> bool {
    let old_doc = s0[m.id.collection][m.id.key];
    &&& u.id == m.id
    &&& u.key == m.id.key
    &&& u.old_revision == old_doc.revision
    &&& u.revision != u.old_revision
    &&& u.revision.len() >= 1
    &&& u.old_content == (if m.return_old {
        Some(SpecContent::Structured(SpecValue::Object(old_doc.fields)))
    } else {
        None::<SpecContent>
    })
    &&& u.new_content == (if m.return_new {
        Some(SpecContent::Structured(SpecValue::Object(new_fields)))
    } else {
        None::<SpecContent>
    })
    &&& s1 == s0.insert(
        m.id.collection,
        s0[m.id.collection].insert(m.id.key, SpecDoc { revision: u.revision, fields: new_fields }),
    )
}

impl Store {
    fn write_core(
        &mut self,
        id: &DocumentId,
        update: &DocumentUpdate,
        if_match: &Option<String>,
        ignore_revisions: bool,
        merge: bool,
    ) -> (r: Result<(Revision, Revision, Vec<Field>, Vec<Field>), Error>)
        requires
            old(self).wf(),
        ensures
            final(self).wf(),
            match write_check(old(self)@, id@, update@, opt_view(*if_match), ignore_revisions) {
                Some(e) => r matches Err(err) && err@ == e && final(self)@ == old(self)@,
                None => r matches Ok(p) && {
                    let old_doc = old(self)@[id@.collection][id@.key];
                    let newf = if merge {
                        merge_fields(old_doc.fields, user_fields(upd_fields(update@)))
                    } else {
                        user_fields(upd_fields(update@))
                    };
                    &&& p.0@ == old_doc.revision
                    &&& p.1@ != p.0@
                    &&& p.1@.len() >= 1
                    &&& field_views(p.2@) == old_doc.fields
                    &&& field_views(p.3@) == newf
                    &&& final(self)@ == old(self)@.insert(
                        id@.collection,
                        old(self)@[id@.collection].insert(
                            id@.key,
                            SpecDoc { revision: p.1@, fields: newf },
                        ),
                    )
                },
            },
    {
        let body = match update.content().object_fields() {
            Some(f) => f,
            None => {
                return Err(err_bad_document_body());
            },
        };
        let ghost pairs = coll_pairs(self.collections@);
        proof {
            lemma_assoc_contains(pairs, id@.collection);
        }
        let ci = match find_collection(&self.collections, id.collection_name()) {
            Some(ci) => ci,
            None => {
                proof {
                    assert forall|i: int| 0 <= i < pairs.len() implies pairs[i].0 != id@.collection
                        by {}
                }
                return Err(err_collection_not_found(id.collection_name()));
            },
        };
        proof {
            let cii = ci as int;
            assert(pairs[cii].0 == id@.collection);
            assert forall|j: int| cii < j < pairs.len() implies pairs[j].0 != pairs[cii].0 by {}
            lemma_assoc_lookup(pairs, cii);
        }
        let ghost olddocs = self.collections@[ci as int].docs@;
        let ghost dpairs = doc_pairs(olddocs);
        proof {
            lemma_assoc_contains(dpairs, id@.key);
        }
        let di = match find_doc(&self.collections[ci].docs, id.document_key()) {
            Some(di) => di,
            None => {
                proof {
                    assert forall|i: int| 0 <= i < dpairs.len() implies dpairs[i].0 != id@.key
                        by {}
                }
                return Err(err_document_not_found());
            },
        };
        proof {
            let dii = di as int;
            assert(dpairs[dii].0 == id@.key);
            assert forall|j: int| dii < j < dpairs.len() implies dpairs[j].0 != dpairs[dii].0 by {}
            lemma_assoc_lookup(dpairs, dii);
        }
        let stored_rev_matches: bool = match if_match {
            Some(required) => str_eq(required.as_str(), self.collections[ci].docs[di].revision.as_str()),
            None => {
                if !ignore_revisions {
                    match update.revision() {
                        Some(required) => str_eq(
                            required.as_str(),
                            self.collections[ci].docs[di].revision.as_str(),
                        ),
                        None => true,
                    }
                } else {
                    true
                }
            },
        };
        if !stored_rev_matches {
            return Err(err_precondition_failed());
        }
        let old_rev = Revision::new(self.collections[ci].docs[di].revision.as_str());
        let old_fields = clone_fields(&self.collections[ci].docs[di].fields);
        let user = user_fields_exec(body);
        let new_fields = if merge {
            merge_fields_exec(&self.collections[ci].docs[di].fields, &user)
        } else {
            user
        };
        let rev_token = take_token(&mut self.rev_seed);
        let new_rev = Revision::new(rev_token.as_str());
        let stored_fields = clone_fields(&new_fields);
        let ghost oldcolls = self.collections@;
        let coll_ref = &mut self.collections[ci];
        let doc_ref = &mut coll_ref.docs[di];
        doc_ref.revision = rev_token;
        doc_ref.fields = stored_fields;
        proof {
            let cii = ci as int;
            let dii = di as int;
            let newdocs = self.collections@[cii].docs@;
            let newdoc_view = SpecDoc { revision: new_rev@, fields: field_views(new_fields@) };
            assert(newdocs =~= olddocs.update(dii, newdocs[dii]));
            assert(newdocs[dii].key@ == id@.key);
            assert(doc_view(newdocs[dii]) == newdoc_view) by {
                assert(field_views(newdocs[dii].fields@) =~= field_views(new_fields@));
            }
            assert(doc_pairs(newdocs) =~= dpairs.update(dii, (id@.key, newdoc_view)));
            assert forall|j: int| 0 <= j < dpairs.len() && j != dii implies dpairs[j].0
                != dpairs[dii].0 by {
                assert(old(self).wf());
                assert(dpairs[j].0 == olddocs[j].key@);
            }
            lemma_assoc_update(dpairs, dii, newdoc_view);
            assert(docs_view(newdocs) =~= docs_view(olddocs).insert(id@.key, newdoc_view));
            assert(self.collections@ =~= oldcolls.update(cii, self.collections@[cii]));
            assert(self.collections@[cii].name@ == id@.collection);
            assert(coll_pairs(self.collections@) =~= pairs.update(
                cii,
                (id@.collection, docs_view(newdocs)),
            ));
            assert forall|j: int| 0 <= j < pairs.len() && j != cii implies pairs[j].0
                != pairs[cii].0 by {}
            lemma_assoc_update(pairs, cii, docs_view(newdocs));
            assert(self@ =~= old(self)@.insert(id@.collection, docs_view(newdocs)));
            // The replaced revision was assigned under a shorter seed, so
            // the fresh one differs from it.
            assert(old_rev@.len() < rev_token@.len());
            assert forall|i: int|
                0 <= i < self.collections@.len() implies valid_name(
                #[trigger] self.collections@[i].name@,
            ) && coll_wf(self.collections@[i], self.key_seed@, self.rev_seed@) by {
                assert(old(self).wf());
                if i == cii {
                    assert forall|a: int, b: int|
                        0 <= a < b < newdocs.len() implies newdocs[a].key@ != newdocs[b].key@ by {
                        assert(olddocs[a].key@ != olddocs[b].key@);
                    }
                    assert forall|a: int|
                        0 <= a < newdocs.len() implies valid_name(#[trigger] newdocs[a].key@)
                            && newdocs[a].key@.len() < self.key_seed@.len()
                            && 1 <= newdocs[a].revision@.len() < self.rev_seed@.len() by {
                        assert(valid_name(olddocs[a].key@));
                        assert(olddocs[a].key@.len() < old(self).key_seed@.len());
                    }
                    assert(coll_wf(self.collections@[i], self.key_seed@, self.rev_seed@));
                } else {
                    assert(coll_wf(oldcolls[i], old(self).key_seed@, old(self).rev_seed@));
                    assert(coll_wf(self.collections@[i], self.key_seed@, self.rev_seed@));
                }
            }
            assert(self.wf());
        }
        Ok((old_rev, new_rev, old_fields, new_fields))
    }
}

impl ReplaceDocument {
    /// Dispatches the replace against the store.
    pub fn execute(&self, store: &mut Store) -> (r: Result<UpdatedDocument, Error>)
        requires
            old(store).wf(),
        ensures
            final(store).wf(),
            match write_check(
                old(store)@,
                self@.id,
                self@.update,
                self@.if_match,
                self@.ignore_revisions,
            ) {
                Some(e) => r matches Err(err) && err@ == e && final(store)@ == old(store)@,
                None => r matches Ok(u) && write_applied(
                    old(store)@,
                    final(store)@,
                    self@,
                    user_fields(upd_fields(self@.update)),
                    u@,
                ),
            },
    {
        match store.write_core(&self.id, &self.update, &self.if_match, self.ignore_revisions, false) {
            Ok((old_rev, new_rev, old_fields, new_fields)) => {
                proof {
                    use_type_invariant(&self.id);
                }
                let key = DocumentKey::from_valid(self.id.document_key().to_owned());
                let old_content = if self.return_old {
                    Some(Content::Structured(Value::Object(old_fields)))
                } else {
                    None
                };
                let new_content = if self.return_new {
                    Some(Content::Structured(Value::Object(new_fields)))
                } else {
                    None
                };
                Ok(
                    UpdatedDocument::assemble(
                        self.id.clone(),
                        key,
                        new_rev,
                        old_rev,
                        old_content,
                        new_content,
                    ),
                )
            },
            Err(e) => Err(e),
        }
    }
}

impl UpdateDocument {
    /// Dispatches the patch against the store.
    pub fn execute(&self, store: &mut Store) -> (r: Result<UpdatedDocument, Error>)
        requires
            old(store).wf(),
        ensures
            final(store).wf(),
            match write_check(
                old(store)@,
                self@.id,
                self@.update,
                self@.if_match,
                self@.ignore_revisions,
            ) {
                Some(e) => r matches Err(err) && err@ == e && final(store)@ == old(store)@,
                None => r matches Ok(u) && write_applied(
                    old(store)@,
                    final(store)@,
                    self@,
                    merge_fields(
                        old(store)@[self@.id.collection][self@.id.key].fields,
                        user_fields(upd_fields(self@.update)),
                    ),
                    u@,
                ),
            },
    {
        match store.write_core(&self.id, &self.update, &self.if_match, self.ignore_revisions, true) {
            Ok((old_rev, new_rev, old_fields, new_fields)) => {
                proof {
                    use_type_invariant(&self.id);
                }
                let key = DocumentKey::from_valid(self.id.document_key().to_owned());
                let old_content = if self.return_old {
                    Some(Content::Structured(Value::Object(old_fields)))
                } else {
                    None
                };
                let new_content = if self.return_new {
                    Some(Content::Structured(Value::Object(new_fields)))
                } else {
                    None
                };
                Ok(
                    UpdatedDocument::assemble(
                        self.id.clone(),
                        key,
                        new_rev,
                        old_rev,
                        old_content,
                        new_content,
                    ),
                )
            },
            Err(e) => Err(e),
        }
    }
}

// ---------------------------------------------------------------------------
// Batch inserts
// ---------------------------------------------------------------------------

/// Whether item `j` of a batch insert succeeds when the keys `taken` were
/// claimed by earlier items of the batch: its content must denote a
/// document body, and a caller-assigned key must be neither stored already
/// nor among the taken ones.
pub open spec fn batch_item_ok_at(
    docs0: Map<Seq<char>, SpecDoc>,
    taken: Set<Seq<char>>,
    items: Seq<SpecNewDocument>,
    j: int,
) -> bool {
    &&& crate::document::content_fields(items[j].content) is Some
    &&& match items[j].key {
        Some(k) => !docs0.contains_key(k) && !taken.contains(k),
        None => true,
    }
}

/// The caller-assigned keys the first `j` items of the batch claimed: each
/// successful item with an explicit key takes it from its siblings.
pub open spec fn batch_taken_keys(
    docs0: Map<Seq<char>, SpecDoc>,
    items: Seq<SpecNewDocument>,
    j: int,
) -> Set<Seq<char>>
    decreases j,
{
    if j <= 0 {
        Set::empty()
    } else {
        let prev = batch_taken_keys(docs0, items, j - 1);
        if batch_item_ok_at(docs0, prev, items, j - 1) {
            match items[j - 1].key {
                Some(k) => prev.insert(k),
                None => prev,
            }
        } else {
            prev
        }
    }
}

/// Whether item `j` of a batch insert succeeds, given the collection's
/// contents `docs0` before the call: its content must denote a document
/// body, and a caller-assigned key must be neither stored already nor
/// taken by an earlier successful item of the same batch. One item's
/// failure never affects its siblings.
pub open spec fn batch_item_ok(
    docs0: Map<Seq<char>, SpecDoc>,
    items: Seq<SpecNewDocument>,
    j: int,
) -> bool {
    batch_item_ok_at(docs0, batch_taken_keys(docs0, items, j), items, j)
}

/// The item-level error a failed batch item carries: a rejected body, or
/// otherwise the unique-constraint violation.
pub open spec fn batch_item_error(items: Seq<SpecNewDocument>, j: int) -> SpecMethodError {
    if crate::document::content_fields(items[j].content) is None {
        SpecMethodError { code: ErrorCode::BadParameter, message: "expecting a document body"@ }
    } else {
        SpecMethodError {
            code: ErrorCode::ArangoUniqueConstraintViolated,
            message: "unique constraint violated - in index 0 of type primary over [\"_key\"]"@,
        }
    }
}

/// What a successful batch item's header says, relative to the
/// collection's contents before the call (`docs0`) and after it (`docs1`).
pub open spec fn batch_header_facts(
    docs0: Map<Seq<char>, SpecDoc>,
    docs1: Map<Seq<char>, SpecDoc>,
    coll: Seq<char>,
    item: SpecNewDocument,
    h: SpecHeader,
) -> bool {
    &&& h.id.collection == coll
    &&& h.id.key == h.key
    &&& valid_name(h.key)
    &&& h.revision.len() >= 1
    &&& (match item.key {
        Some(k) => h.key == k,
        None => true,
    })
    &&& !docs0.contains_key(h.key)
    &&& docs1.contains_key(h.key)
    &&& docs1[h.key] == SpecDoc { revision: h.revision, fields: user_fields(body_fields(item)) }
}

/// How a batch insert relates the new store to the old: one outcome per
/// item in input order, each item succeeding exactly under
/// [`batch_item_ok`], the collection keeping every document it had and
/// gaining exactly the successful items' documents, other collections
/// untouched.
pub open spec fn batch_headers_ok(
    s0: Map<Seq<char>, Map<Seq<char>, SpecDoc>>,
    s1: Map<Seq<char>, Map<Seq<char>, SpecDoc>>,
    coll: Seq<char>,
    items: Seq<SpecNewDocument>,
    results: Seq<Result<DocumentHeader, MethodError>>,
) -> bool {
    let docs0 = s0[coll];
    let docs1 = s1[coll];
    &&& results.len() == items.len()
    &&& forall|j: int|
        0 <= j < results.len() ==> ((#[trigger] results[j]) is Ok <==> batch_item_ok(
            docs0,
            items,
            j,
        ))
    &&& forall|j: int|
        0 <= j < results.len() ==> (#[trigger] results[j] matches Ok(h) ==> batch_header_facts(
            docs0,
            docs1,
            coll,
            items[j],
            h@,
        ))
    &&& forall|j: int|
        0 <= j < results.len() ==> (#[trigger] results[j] matches Err(e) ==> e@
            == batch_item_error(items, j))
    &&& forall|c: Seq<char>| s1.contains_key(c) <==> s0.contains_key(c)
    &&& forall|c: Seq<char>|
        c != coll && s0.contains_key(c) ==> s1[c] == s0[c]
    &&& s1.contains_key(coll)
    &&& forall|k: Seq<char>|
        #[trigger] docs0.contains_key(k) ==> docs1.contains_key(k) && docs1[k] == docs0[k]
    &&& forall|k: Seq<char>|
        #[trigger] docs1.contains_key(k) ==> docs0.contains_key(k) || exists|j: int|
            0 <= j < results.len() && (#[trigger] results[j] matches Ok(h) && h@.key == k)
}

impl Store {
    fn insert_many_core(&mut self, collection: &str, documents: &Vec<NewDocument>) -> (r: Result<
        Vec<Result<DocumentHeader, MethodError>>,
        Error,
    >)
        requires
            old(self).wf(),
        ensures
            final(self).wf(),
            !old(self)@.contains_key(collection@) ==> (r matches Err(e) && e@
                == collection_not_found(collection@) && final(self)@ == old(self)@),
            old(self)@.contains_key(collection@) ==> (r matches Ok(results) && batch_headers_ok(
                old(self)@,
                final(self)@,
                collection@,
                new_document_views(documents@),
                results@,
            )),
    {
        let ghost pairs = coll_pairs(self.collections@);
        proof {
            lemma_assoc_contains(pairs, collection@);
        }
        match find_collection(&self.collections, collection) {
            None => {
                proof {
                    assert forall|i: int| 0 <= i < pairs.len() implies pairs[i].0 != collection@
                        by {}
                }
                return Err(err_collection_not_found(collection));
            },
            Some(c0) => {
                proof {
                    assert(pairs[c0 as int].0 == collection@);
                }
            },
        }
        let ghost items = new_document_views(documents@);
        let ghost s0 = self@;
        let ghost docs0 = self@[collection@];
        // First reserve key space past every caller-assigned key of the
        // batch, so that no store-assigned key of this batch can collide
        // with a later item's caller-assigned key.
        let mut i: usize = 0;
        while i < documents.len()
            invariant
                i <= documents@.len(),
                self.wf(),
                self@ == s0,
                self.collections@ == old(self).collections@,
                self.rev_seed@ == old(self).rev_seed@,
                forall|m: int|
                    0 <= m < i as int ==> (#[trigger] items[m].key matches Some(k) ==> k.len()
                        < self.key_seed@.len()),
                items == new_document_views(documents@),
            decreases documents@.len() - i,
        {
            match documents[i].key() {
                Some(k) => {
                    grow_seed_past(&mut self.key_seed, k.as_str().unicode_len());
                    proof {
                        assert(self@ == s0);
                    }
                },
                None => {},
            }
            i = i + 1;
        }
        let mut results: Vec<Result<DocumentHeader, MethodError>> = Vec::new();
        let mut j: usize = 0;
        while j < documents.len()
            invariant
                j <= documents@.len(),
                results@.len() == j as int,
                self.wf(),
                items == new_document_views(documents@),
                s0 == old(self)@,
                docs0 == old(self)@[collection@],
                old(self)@.contains_key(collection@),
                self@.contains_key(collection@),
                forall|c: Seq<char>| self@.contains_key(c) <==> old(self)@.contains_key(c),
                forall|c: Seq<char>|
                    c != collection@ && old(self)@.contains_key(c) ==> self@[c] == old(self)@[c],
                forall|k: Seq<char>|
                    #[trigger] docs0.contains_key(k) ==> self@[collection@].contains_key(k)
                        && self@[collection@][k] == docs0[k],
                forall|k: Seq<char>|
                    #[trigger] self@[collection@].contains_key(k) ==> docs0.contains_key(k)
                        || exists|m: int|
                        0 <= m < results@.len() && (#[trigger] results@[m] matches Ok(h) && h@.key
                            == k),
                forall|m: int|
                    0 <= m < j as int ==> ((#[trigger] results@[m]) is Ok <==> batch_item_ok(
                        docs0,
                        items,
                        m,
                    )),
                forall|m: int|
                    0 <= m < j as int ==> (#[trigger] results@[m] matches Ok(h)
                        ==> batch_header_facts(
                        docs0,
                        self@[collection@],
                        collection@,
                        items[m],
                        h@,
                    )),
                forall|m: int|
                    0 <= m < j as int ==> (#[trigger] results@[m] matches Err(e) ==> e@
                        == batch_item_error(items, m)),
                forall|m: int|
                    0 <= m < documents@.len() ==> (#[trigger] items[m].key matches Some(k)
                        ==> k.len() < self.key_seed@.len()),
                forall|m: int|
                    0 <= m < j as int ==> (#[trigger] results@[m] matches Ok(h) ==> (items[m].key
                        is None ==> forall|n: int|
                        0 <= n < documents@.len() ==> (#[trigger] items[n].key matches Some(k)
                            ==> h@.key.len() > k.len()))),
                forall|k: Seq<char>|
                    batch_taken_keys(docs0, items, j as int).contains(k)
                        ==> #[trigger] self@[collection@].contains_key(k),
                forall|m: int|
                    0 <= m < j as int ==> (#[trigger] results@[m] matches Ok(h) ==> (items[m].key
                        matches Some(k) ==> batch_taken_keys(docs0, items, j as int).contains(k))),
            decreases documents@.len() - j,
    {
            let ghost store_before = self@;
            let ghost docs_before = self@[collection@];
            proof {
                assert forall|k: Seq<char>| docs0.contains_key(k) implies docs_before.contains_key(
                    k,
                ) by {
                    assert(self@[collection@].contains_key(k) && self@[collection@][k] == docs0[k]);
                }
                assert forall|k2: Seq<char>|
                    #[trigger] docs_before.contains_key(k2) implies docs0.contains_key(k2)
                        || exists|m: int|
                        0 <= m < j as int && (#[trigger] results@[m] matches Ok(h) && h@.key == k2)
                    by {
                    assert(self@[collection@].contains_key(k2));
                }
                assert forall|m: int|
                    0 <= m < j as int && (#[trigger] results@[m]) is Ok implies batch_header_facts(
                    docs0,
                    docs_before,
                    collection@,
                    items[m],
                    results@[m]->Ok_0@,
                ) by {
                    assert(results@[m] matches Ok(h) ==> batch_header_facts(
                        docs0,
                        self@[collection@],
                        collection@,
                        items[m],
                        h@,
                    ));
                }
            }
            let outcome = self.insert_core(collection, &documents[j]);
            proof {
                assert(items[j as int] == documents@[j as int]@);
            }
            match outcome {
                Ok((key, revision)) => {
                    proof {
                        use_type_invariant(&key);
                        // This item was accepted, so it is one the batch
                        // semantics accepts: a fresh store-assigned key, or
                        // a caller key no earlier successful item claimed.
                        assert(insert_check(store_before, collection@, items[j as int]) is None);
                        assert(crate::document::content_fields(items[j as int].content) is Some);
                        let taken = batch_taken_keys(docs0, items, j as int);
                        match items[j as int].key {
                            Some(k) => {
                                assert(!docs_before.contains_key(k));
                                assert(!docs0.contains_key(k));
                                assert(!taken.contains(k));
                                assert(batch_item_ok(docs0, items, j as int));
                                assert(batch_taken_keys(docs0, items, j as int + 1)
                                    == taken.insert(k));
                            },
                            None => {
                                assert(batch_item_ok(docs0, items, j as int));
                                assert(batch_taken_keys(docs0, items, j as int + 1) == taken);
                            },
                        }
                    }
                    let id = DocumentId::from_valid(
                        collection.to_owned(),
                        key.as_str().to_owned(),
                    );
                    let ghost gkey = key@;
                    let ghost results_pre = results@;
                    results.push(Ok(DocumentHeader::assemble(id, key, revision)));
                    proof {
                        assert(results@[j as int] matches Ok(h) && h@.key == gkey);
                        assert forall|m: int| 0 <= m < j as int implies results@[m]
                            == results_pre[m] by {}
                        assert forall|k2: Seq<char>|
                            #[trigger] self@[collection@].contains_key(k2) implies
                            docs0.contains_key(k2) || exists|m: int|
                            0 <= m < results@.len() && (#[trigger] results@[m] matches Ok(h)
                                && h@.key == k2) by {
                            if k2 == gkey {
                                assert(results@[j as int] matches Ok(h) && h@.key == k2);
                            } else {
                                assert(docs_before.contains_key(k2));
                                if !docs0.contains_key(k2) {
                                    let m = choose|m: int|
                                        0 <= m < j as int && (#[trigger] results_pre[m] matches Ok(
                                            h,
                                        ) && h@.key == k2);
                                    assert(results@[m] matches Ok(h) && h@.key == k2);
                                }
                            }
                        }
                    }
                },
                Err(e) => {
                    proof {
                        // The collection exists, so the refusal was the
                        // body or the key, and the batch semantics refuses
                        // this item too.
                        assert(insert_check(store_before, collection@, items[j as int]) is Some);
                        assert(store_before.contains_key(collection@));
                        let taken = batch_taken_keys(docs0, items, j as int);
                        if crate::document::content_fields(items[j as int].content) is None {
                            assert(!batch_item_ok(docs0, items, j as int));
                            assert(e@ == bad_document_body());
                        }
                        match items[j as int].key {
                            Some(k) => {
                                if crate::document::content_fields(items[j as int].content)
                                    is Some {
                                    assert(e@ == unique_constraint_violated());
                                    assert(docs_before.contains_key(k));
                                    if !docs0.contains_key(k) {
                                        let m = choose|m: int|
                                            0 <= m < results@.len() && (#[trigger] results@[m]
                                                matches Ok(h) && h@.key == k);
                                        assert(batch_header_facts(
                                            docs0,
                                            docs_before,
                                            collection@,
                                            items[m],
                                            results@[m]->Ok_0@,
                                        ));
                                        if items[m].key is None {
                                            assert(results@[m]->Ok_0@.key.len() > k.len());
                                            assert(false);
                                        }
                                        assert(items[m].key == Some(k));
                                        assert(taken.contains(k));
                                    }
                                    assert(!batch_item_ok(docs0, items, j as int));
                                }
                            },
                            None => {
                                assert(crate::document::content_fields(items[j as int].content)
                                    is None);
                            },
                        }
                        assert(!batch_item_ok(docs0, items, j as int));
                        assert(batch_taken_keys(docs0, items, j as int + 1) == taken);
                        assert(e@.error_code == batch_item_error(items, j as int).code);
                        assert(e@.message == batch_item_error(items, j as int).message);
                    }
                    let ghost results_pre = results@;
                    results.push(
                        Err(MethodError::new(e.error_code(), e.message().to_owned())),
                    );
                    proof {
                        assert forall|m: int| 0 <= m < j as int implies results@[m]
                            == results_pre[m] by {}
                        assert forall|k2: Seq<char>|
                            #[trigger] self@[collection@].contains_key(k2) implies
                            docs0.contains_key(k2) || exists|m: int|
                            0 <= m < results@.len() && (#[trigger] results@[m] matches Ok(h)
                                && h@.key == k2) by {
                            if !docs0.contains_key(k2) {
                                let m = choose|m: int|
                                    0 <= m < j as int && (#[trigger] results_pre[m] matches Ok(h)
                                        && h@.key == k2);
                                assert(results@[m] matches Ok(h) && h@.key == k2);
                            }
                        }
                    }
                },
            }
            j = j + 1;
        }
        Ok(results)
    }
}

/// As [`batch_headers_ok`], for a batch that returns each persisted
/// document: each successful item also carries the persisted content, in
/// the representation its input content went in as.
pub open spec fn batch_documents_ok(
    s0: Map<Seq<char>, Map<Seq<char>, SpecDoc>>,
    s1: Map<Seq<char>, Map<Seq<char>, SpecDoc>>,
    coll: Seq<char>,
    items: Seq<SpecNewDocument>,
    results: Seq<Result<Document, MethodError>>,
) -> bool {
    let docs0 = s0[coll];
    let docs1 = s1[coll];
    &&& results.len() == items.len()
    &&& forall|j: int|
        0 <= j < results.len() ==> ((#[trigger] results[j]) is Ok <==> batch_item_ok(
            docs0,
            items,
            j,
        ))
    &&& forall|j: int|
        0 <= j < results.len() ==> (#[trigger] results[j] matches Ok(d) ==> batch_header_facts(
            docs0,
            docs1,
            coll,
            items[j],
            SpecHeader { id: d@.id, key: d@.key, revision: d@.revision },
        ) && d@.content == spec_new_content(items[j], d@.id, d@.revision))
    &&& forall|j: int|
        0 <= j < results.len() ==> (#[trigger] results[j] matches Err(e) ==> e@
            == batch_item_error(items, j))
    &&& forall|c: Seq<char>| s1.contains_key(c) <==> s0.contains_key(c)
    &&& forall|c: Seq<char>|
        c != coll && s0.contains_key(c) ==> s1[c] == s0[c]
    &&& s1.contains_key(coll)
    &&& forall|k: Seq<char>|
        #[trigger] docs0.contains_key(k) ==> docs1.contains_key(k) && docs1[k] == docs0[k]
    &&& forall|k: Seq<char>|
        #[trigger] docs1.contains_key(k) ==> docs0.contains_key(k) || exists|j: int|
            0 <= j < results.len() && (#[trigger] results[j] matches Ok(d) && d@.key == k)
}

impl InsertDocuments {
    /// Dispatches the batch insert against the store: one header or
    /// item-level error per input document, in input order.
    pub fn execute(&self, store: &mut Store) -> (r: Result<
        Vec<Result<DocumentHeader, MethodError>>,
        Error,
    >)
        requires
            old(store).wf(),
        ensures
            final(store).wf(),
            !old(store)@.contains_key(self@.collection) ==> (r matches Err(e) && e@
                == collection_not_found(self@.collection) && final(store)@ == old(store)@),
            old(store)@.contains_key(self@.collection) ==> (r matches Ok(results)
                && batch_headers_ok(
                old(store)@,
                final(store)@,
                self@.collection,
                self@.documents,
                results@,
            )),
    {
        store.insert_many_core(self.collection.as_str(), &self.documents)
    }
}

impl InsertDocumentsReturnNew {
    /// Dispatches the batch insert against the store: one persisted
    /// document or item-level error per input document, in input order.
    pub fn execute(&self, store: &mut Store) -> (r: Result<
        Vec<Result<Document, MethodError>>,
        Error,
    >)
        requires
            old(store).wf(),
        ensures
            final(store).wf(),
            !old(store)@.contains_key(self@.collection) ==> (r matches Err(e) && e@
                == collection_not_found(self@.collection) && final(store)@ == old(store)@),
            old(store)@.contains_key(self@.collection) ==> (r matches Ok(results)
                && batch_documents_ok(
                old(store)@,
                final(store)@,
                self@.collection,
                self@.documents,
                results@,
            )),
    {
        let ghost items = new_document_views(self.documents@);
        let headers = match store.insert_many_core(self.collection.as_str(), &self.documents) {
            Ok(h) => h,
            Err(e) => {
                return Err(e);
            },
        };
        let mut out: Vec<Result<Document, MethodError>> = Vec::new();
        let mut m: usize = 0;
        while m < headers.len()
            invariant
                m <= headers@.len(),
                out@.len() == m as int,
                headers@.len() == self.documents@.len(),
                items == new_document_views(self.documents@),
                store.wf(),
                old(store)@.contains_key(self@.collection),
                batch_headers_ok(old(store)@, store@, self@.collection, items, headers@),
                forall|n: int|
                    0 <= n < m as int ==> ((#[trigger] out@[n]) is Ok <==> headers@[n] is Ok),
                forall|n: int|
                    0 <= n < m as int ==> (#[trigger] out@[n] matches Ok(d) ==> (headers@[n]
                        matches Ok(h) && d@.id == h@.id && d@.key == h@.key && d@.revision
                        == h@.revision && d@.content == spec_new_content(
                        items[n],
                        d@.id,
                        d@.revision,
                    ))),
                forall|n: int|
                    0 <= n < m as int ==> (#[trigger] out@[n] matches Err(e) ==> (headers@[n]
                        matches Err(e2) && e@ == e2@)),
            decreases headers@.len() - m,
    {
            match &headers[m] {
                Ok(h) => {
                    let body = match self.documents[m].content().object_fields() {
                        Some(f) => f,
                        None => {
                            proof {
                                assert(items[m as int] == self.documents@[m as int]@);
                                assert(false);
                            }
                            return Err(err_bad_document_body());
                        },
                    };
                    proof {
                        assert(items[m as int] == self.documents@[m as int]@);
                    }
                    let user = user_fields_exec(body);
                    let content = match self.documents[m].content() {
                        Content::Structured(_) => Content::Structured(Value::Object(user)),
                        Content::Raw(_) => Content::Raw(
                            JsonString::from_fields(
                                with_system_fields_exec(h.id(), h.revision().as_str(), &user),
                            ),
                        ),
                    };
                    out.push(
                        Ok(
                            Document::assemble(
                                h.id().clone(),
                                h.key().clone(),
                                h.revision().clone(),
                                content,
                            ),
                        ),
                    );
                },
                Err(e) => {
                    out.push(Err(MethodError::new(e.code(), e.message().to_owned())));
                },
            }
            m = m + 1;
        }
        proof {
            let coll = self@.collection;
            let docs0 = old(store)@[coll];
            let docs1 = store@[coll];
            assert forall|n: int|
                0 <= n < out@.len() implies ((#[trigger] out@[n]) is Ok <==> batch_item_ok(
                docs0,
                items,
                n,
            )) by {
                assert((headers@[n]) is Ok <==> batch_item_ok(docs0, items, n));
            }
            assert forall|n: int|
                0 <= n < out@.len() && (#[trigger] out@[n]) is Ok implies batch_header_facts(
                docs0,
                docs1,
                coll,
                items[n],
                SpecHeader {
                    id: out@[n]->Ok_0@.id,
                    key: out@[n]->Ok_0@.key,
                    revision: out@[n]->Ok_0@.revision,
                },
            ) && out@[n]->Ok_0@.content == spec_new_content(
                items[n],
                out@[n]->Ok_0@.id,
                out@[n]->Ok_0@.revision,
            ) by {
                assert(headers@[n] matches Ok(h) && batch_header_facts(
                    docs0,
                    docs1,
                    coll,
                    items[n],
                    h@,
                ));
            }
            assert forall|n: int|
                0 <= n < out@.len() && (#[trigger] out@[n]) is Err implies out@[n]->Err_0@
                == batch_item_error(items, n) by {
                assert(headers@[n] matches Err(e2) && e2@ == batch_item_error(items, n));
            }
            assert forall|k: Seq<char>|
                #[trigger] docs1.contains_key(k) implies docs0.contains_key(k) || exists|n: int|
                0 <= n < out@.len() && (#[trigger] out@[n] matches Ok(d) && d@.key == k) by {
                if !docs0.contains_key(k) {
                    let n = choose|n: int|
                        0 <= n < headers@.len() && (#[trigger] headers@[n] matches Ok(h) && h@.key
                            == k);
                    assert(out@[n] matches Ok(d) && d@.key == k);
                }
            }
        }
        Ok(out)
    }
}

} // verus!
