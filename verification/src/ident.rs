//! Document identity and revision.
//!
//! A document is addressed by a collection-qualified key. Collection names
//! and document keys are non-empty strings without `/`, so the rendered
//! form `collection/key` of a [`DocumentId`] has exactly one `/` and can be
//! parsed back unambiguously. A [`Revision`] is the opaque token the store
//! assigns on every write; only equality of revisions is ever consulted.

use vstd::prelude::*;
use vstd::string::*;

use crate::error::{Error, ErrorCode};

verus! {

broadcast use vstd::seq::group_seq_axioms;

/// Whether `s` may serve as a collection name or a document key:
/// non-empty and without `/`.
pub open spec fn valid_name(s: Seq<char>) -> bool {
    s.len() > 0 && forall|i: int| 0 <= i < s.len() ==> s[i] != '/'
}

/// Checks a collection name or key for validity.
pub fn valid_name_exec(s: &str) -> (r: bool)
    ensures
        r == valid_name(s@),
{
    let len = s.unicode_len();
    if len == 0 {
        return false;
    }
    let mut i: usize = 0;
    while i < len
        invariant
            i <= len,
            len == s@.len(),
            forall|j: int| 0 <= j < i as int ==> s@[j] != '/',
        decreases len - i,
    {
        if s.get_char(i) == '/' {
            return false;
        }
        i = i + 1;
    }
    true
}

/// A validated document key, unique within its collection.
#[derive(Debug, PartialEq, Eq)]
pub struct DocumentKey {
    key: String,
}

impl View for DocumentKey {
    type V = Seq<char>;

    closed spec fn view(&self) -> Seq<char> {
        self.key@
    }
}

impl DocumentKey {
    /// Every key is a valid name.
    #[verifier::type_invariant]
    pub open spec fn wf(self) -> bool {
        valid_name(self@)
    }

    /// Builds a key after validating it: a key must be non-empty and must
    /// not contain `/`.
    pub fn new(key: &str) -> (r: Result<DocumentKey, Error>)
        ensures
            valid_name(key@) <==> r is Ok,
            r matches Ok(k) ==> k@ == key@,
            r matches Err(e) ==> e@.status_code == 400 && e@.error_code == ErrorCode::BadParameter
                && e@.message == "invalid document key"@,
    {
        if valid_name_exec(key) {
            Ok(DocumentKey { key: key.to_owned() })
        } else {
            Err(Error::new(400, ErrorCode::BadParameter, String::from_str("invalid document key")))
        }
    }

    /// The key as a string.
    pub fn as_str(&self) -> (r: &str)
        ensures
            r@ == self@,
    {
        self.key.as_str()
    }

    /// Wraps a key the store itself produced or already holds; the caller
    /// shows it valid.
    pub(crate) fn from_valid(key: String) -> (r: DocumentKey)
        requires
            valid_name(key@),
        ensures
            r@ == key@,
    {
        DocumentKey { key }
    }
}

/// The opaque revision token the store assigns on every write. Only
/// equality matters: two revisions match exactly when their strings do.
#[derive(Debug, PartialEq, Eq)]
pub struct Revision {
    value: String,
}

impl View for Revision {
    type V = Seq<char>;

    closed spec fn view(&self) -> Seq<char> {
        self.value@
    }
}

impl Revision {
    /// Wraps a revision string for a later precondition comparison.
    pub fn new(value: &str) -> (r: Revision)
        ensures
            r@ == value@,
    {
        Revision { value: value.to_owned() }
    }

    /// The token as a string.
    pub fn as_str(&self) -> (r: &str)
        ensures
            r@ == self@,
    {
        self.value.as_str()
    }
}

/// The mathematical model of a [`DocumentId`].
pub ghost struct SpecDocumentId {
    pub collection: Seq<char>,
    pub key: Seq<char>,
}

/// The rendered form of a document id: `collection/key`.
pub open spec fn spec_id_text(id: SpecDocumentId) -> Seq<char> {
    id.collection + seq!['/'] + id.key
}

/// Whether `s` renders some document id: one `/` splitting two valid names.
pub open spec fn spec_parseable_id(s: Seq<char>) -> bool {
    exists|i: int|
        0 <= i < s.len() && s[i] == '/' && valid_name(s.subrange(0, i)) && valid_name(
            s.subrange(i + 1, s.len() as int),
        )
}

/// A collection-qualified document address.
#[derive(Debug, PartialEq, Eq)]
pub struct DocumentId {
    collection: String,
    key: String,
}

impl View for DocumentId {
    type V = SpecDocumentId;

    closed spec fn view(&self) -> SpecDocumentId {
        SpecDocumentId { collection: self.collection@, key: self.key@ }
    }
}

impl DocumentId {
    /// Both parts of an id are valid names.
    #[verifier::type_invariant]
    pub open spec fn wf(self) -> bool {
        valid_name(self@.collection) && valid_name(self@.key)
    }

    /// Builds an id after validating both parts: each must be non-empty
    /// and must not contain `/`.
    pub fn new(collection: &str, key: &str) -> (r: Result<DocumentId, Error>)
        ensures
            (valid_name(collection@) && valid_name(key@)) <==> r is Ok,
            r matches Ok(id) ==> id@.collection == collection@ && id@.key == key@,
            r matches Err(e) ==> e@.status_code == 400 && e@.error_code == ErrorCode::BadParameter
                && e@.message == "invalid document id"@,
    {
        if valid_name_exec(collection) && valid_name_exec(key) {
            Ok(DocumentId { collection: collection.to_owned(), key: key.to_owned() })
        } else {
            Err(Error::new(400, ErrorCode::BadParameter, String::from_str("invalid document id")))
        }
    }

    /// The collection part of the address.
    pub fn collection_name(&self) -> (r: &str)
        ensures
            r@ == self@.collection,
    {
        self.collection.as_str()
    }

    /// The key part of the address.
    pub fn document_key(&self) -> (r: &str)
        ensures
            r@ == self@.key,
    {
        self.key.as_str()
    }

    /// Renders the address as `collection/key`.
    pub fn to_string(&self) -> (r: String)
        ensures
            r@ == spec_id_text(self@),
    {
        let mut out = String::new();
        out.append(self.collection.as_str());
        out.append("/");
        out.append(self.key.as_str());
        proof {
            reveal_strlit("/");
            assert(out@ =~= spec_id_text(self@));
        }
        out
    }

    /// Builds an address the store itself derived; the caller shows both
    /// parts valid.
    pub(crate) fn from_valid(collection: String, key: String) -> (r: DocumentId)
        requires
            valid_name(collection@),
            valid_name(key@),
        ensures
            r@.collection == collection@,
            r@.key == key@,
    {
        DocumentId { collection, key }
    }

    /// Parses a rendered address back into its parts. A string is accepted
    /// exactly when one `/` splits it into two valid names; since a valid
    /// name cannot contain `/`, such a split is unique.
    pub fn parse(s: &str) -> (r: Result<DocumentId, Error>)
        ensures
            spec_parseable_id(s@) <==> r is Ok,
            r matches Ok(id) ==> spec_id_text(id@) == s@ && valid_name(id@.collection)
                && valid_name(id@.key),
            r matches Err(e) ==> e@.status_code == 400 && e@.error_code == ErrorCode::BadParameter
                && e@.message == "invalid document id"@,
    {
        let len = s.unicode_len();
        let mut i: usize = 0;
        while i < len
            invariant
                i <= len,
                len == s@.len(),
                forall|j: int| 0 <= j < i as int ==> s@[j] != '/',
            decreases len - i,
        {
            if s.get_char(i) == '/' {
                let coll = s.substring_char(0, i);
                let key = s.substring_char(i + 1, len);
                if valid_name_exec(coll) && valid_name_exec(key) {
                    proof {
                        assert(spec_parseable_id(s@)) by {
                            assert(s@[i as int] == '/' && valid_name(s@.subrange(0, i as int))
                                && valid_name(s@.subrange(i as int + 1, s@.len() as int)));
                        }
                    }
                    let id = DocumentId { collection: coll.to_owned(), key: key.to_owned() };
                    proof {
                        assert(spec_id_text(id@) =~= s@);
                    }
                    return Ok(id);
                } else {
                    proof {
                        assert(!spec_parseable_id(s@)) by {
                            assert forall|m: int|
                                0 <= m < s@.len() && s@[m] == '/' implies !(valid_name(
                                s@.subrange(0, m),
                            ) && valid_name(s@.subrange(m + 1, s@.len() as int))) by {
                                if m == i as int {
                                } else {
                                    assert(m > i as int);
                                    assert(s@.subrange(0, m)[i as int] == '/');
                                }
                            }
                        }
                    }
                    return Err(
                        Error::new(
                            400,
                            ErrorCode::BadParameter,
                            String::from_str("invalid document id"),
                        ),
                    );
                }
            }
            i = i + 1;
        }
        proof {
            assert(!spec_parseable_id(s@)) by {
                assert forall|m: int| 0 <= m < s@.len() implies s@[m] != '/' by {}
            }
        }
        Err(Error::new(400, ErrorCode::BadParameter, String::from_str("invalid document id")))
    }
}

/// The mathematical model of a [`DocumentHeader`].
pub ghost struct SpecHeader {
    pub id: SpecDocumentId,
    pub key: Seq<char>,
    pub revision: Seq<char>,
}

/// The identity and version triple every write returns: the address, the
/// key within the collection, and the revision the write produced.
#[derive(Debug, PartialEq, Eq)]
pub struct DocumentHeader {
    id: DocumentId,
    key: DocumentKey,
    revision: Revision,
}

impl View for DocumentHeader {
    type V = SpecHeader;

    closed spec fn view(&self) -> SpecHeader {
        SpecHeader { id: self.id@, key: self.key@, revision: self.revision@ }
    }
}

impl DocumentHeader {
    /// Assembles a header from its three parts.
    pub fn assemble(id: DocumentId, key: DocumentKey, revision: Revision) -> (r: DocumentHeader)
        ensures
            r@ == (SpecHeader { id: id@, key: key@, revision: revision@ }),
    {
        DocumentHeader { id, key, revision }
    }

    /// The document's address.
    pub fn id(&self) -> (r: &DocumentId)
        ensures
            r@ == self@.id,
    {
        &self.id
    }

    /// The document's key within its collection.
    pub fn key(&self) -> (r: &DocumentKey)
        ensures
            r@ == self@.key,
    {
        &self.key
    }

    /// The revision the write produced.
    pub fn revision(&self) -> (r: &Revision)
        ensures
            r@ == self@.revision,
    {
        &self.revision
    }

    /// Takes the header apart, for the next operation's inputs.
    pub fn deconstruct(self) -> (r: (DocumentId, DocumentKey, Revision))
        ensures
            r.0@ == self@.id,
            r.1@ == self@.key,
            r.2@ == self@.revision,
    {
        let DocumentHeader { id, key, revision } = self;
        (id, key, revision)
    }
}

impl Clone for DocumentKey {
    fn clone(&self) -> (res: Self)
        ensures
            res@ == self@,
    {
        proof {
            use_type_invariant(self);
        }
        DocumentKey { key: self.key.clone() }
    }
}

impl Clone for Revision {
    fn clone(&self) -> (res: Self)
        ensures
            res@ == self@,
    {
        Revision { value: self.value.clone() }
    }
}

impl Clone for DocumentId {
    fn clone(&self) -> (res: Self)
        ensures
            res@ == self@,
    {
        proof {
            use_type_invariant(self);
        }
        DocumentId { collection: self.collection.clone(), key: self.key.clone() }
    }
}

impl Clone for DocumentHeader {
    fn clone(&self) -> (res: Self)
        ensures
            res@ == self@,
    {
        DocumentHeader { id: self.id.clone(), key: self.key.clone(), revision: self.revision.clone() }
    }
}

} // verus!
