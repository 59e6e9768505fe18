//! The method objects, one per operation.
//!
//! Each operation is a plain configuration value: required inputs set at
//! construction, optional behaviour switched on through `with_*` builders,
//! everything defaulting to off. A method object is built once, dispatched
//! once against a store, and carries no state of its own beyond its
//! configuration, so independent method objects may be dispatched in any
//! order.

use vstd::prelude::*;
use vstd::string::*;

use crate::document::{NewDocument, DocumentUpdate, Representation, SpecDocumentUpdate, SpecNewDocument};
use crate::ident::{DocumentId, SpecDocumentId};

verus! {

broadcast use vstd::seq::group_seq_axioms;

/// The mathematical model of an [`InsertDocument`] or
/// [`InsertDocumentReturnNew`].
pub ghost struct SpecInsert {
    pub collection: Seq<char>,
    pub new_document: SpecNewDocument,
    pub force_wait_for_sync: bool,
}

/// Inserts one document into a collection, returning its header.
///
/// Fails with a unique-constraint violation if the caller-assigned key
/// already exists, and with not-found if the collection does not exist.
#[derive(Clone, Debug)]
pub struct InsertDocument {
    /// The collection to insert into.
    pub collection: String,
    /// The document to insert.
    pub new_document: NewDocument,
    /// Whether the write must be flushed to durable storage before the
    /// call returns.
    pub force_wait_for_sync: bool,
}

impl View for InsertDocument {
    type V = SpecInsert;

    open spec fn view(&self) -> SpecInsert {
        SpecInsert {
            collection: self.collection@,
            new_document: self.new_document@,
            force_wait_for_sync: self.force_wait_for_sync,
        }
    }
}

impl InsertDocument {
    /// Builds the method for the given collection and document.
    pub fn new(collection: &str, new_document: NewDocument) -> (r: InsertDocument)
        ensures
            r@.collection == collection@,
            r@.new_document == new_document@,
            !r@.force_wait_for_sync,
    {
        InsertDocument {
            collection: collection.to_owned(),
            new_document,
            force_wait_for_sync: false,
        }
    }

    /// Switches synchronous durability on or off.
    pub fn with_force_wait_for_sync(self, force_wait_for_sync: bool) -> (r: InsertDocument)
        ensures
            r@ == (SpecInsert { force_wait_for_sync, ..self@ }),
    {
        InsertDocument { force_wait_for_sync, ..self }
    }
}

/// Inserts one document and returns it as persisted, content included.
#[derive(Clone, Debug)]
pub struct InsertDocumentReturnNew {
    /// The collection to insert into.
    pub collection: String,
    /// The document to insert.
    pub new_document: NewDocument,
    /// Whether the write must be flushed to durable storage before the
    /// call returns.
    pub force_wait_for_sync: bool,
}

impl View for InsertDocumentReturnNew {
    type V = SpecInsert;

    open spec fn view(&self) -> SpecInsert {
        SpecInsert {
            collection: self.collection@,
            new_document: self.new_document@,
            force_wait_for_sync: self.force_wait_for_sync,
        }
    }
}

impl InsertDocumentReturnNew {
    /// Builds the method for the given collection and document.
    pub fn new(collection: &str, new_document: NewDocument) -> (r: InsertDocumentReturnNew)
        ensures
            r@.collection == collection@,
            r@.new_document == new_document@,
            !r@.force_wait_for_sync,
    {
        InsertDocumentReturnNew {
            collection: collection.to_owned(),
            new_document,
            force_wait_for_sync: false,
        }
    }

    /// Switches synchronous durability on or off.
    pub fn with_force_wait_for_sync(self, force_wait_for_sync: bool) -> (r:
        InsertDocumentReturnNew)
        ensures
            r@ == (SpecInsert { force_wait_for_sync, ..self@ }),
    {
        InsertDocumentReturnNew { force_wait_for_sync, ..self }
    }
}

/// The mathematical model of an [`InsertDocuments`] or
/// [`InsertDocumentsReturnNew`].
pub ghost struct SpecInsertMany {
    pub collection: Seq<char>,
    pub documents: Seq<SpecNewDocument>,
    pub force_wait_for_sync: bool,
}

/// The views of a sequence of new documents, element by element.
pub open spec fn new_document_views(s: Seq<NewDocument>) -> Seq<SpecNewDocument> {
    Seq::new(s.len(), |i: int| s[i]@)
}

/// Inserts several documents into one collection in one call. The call
/// yields one result per input document, in input order; one document's
/// failure never affects its siblings.
#[derive(Clone, Debug)]
pub struct InsertDocuments {
    /// The collection to insert into.
    pub collection: String,
    /// The documents to insert, one outcome each.
    pub documents: Vec<NewDocument>,
    /// Whether the write must be flushed to durable storage before the
    /// call returns.
    pub force_wait_for_sync: bool,
}

impl View for InsertDocuments {
    type V = SpecInsertMany;

    open spec fn view(&self) -> SpecInsertMany {
        SpecInsertMany {
            collection: self.collection@,
            documents: new_document_views(self.documents@),
            force_wait_for_sync: self.force_wait_for_sync,
        }
    }
}

impl InsertDocuments {
    /// Builds the method for the given collection and documents.
    pub fn new(collection: &str, documents: Vec<NewDocument>) -> (r: InsertDocuments)
        ensures
            r@.collection == collection@,
            r@.documents == new_document_views(documents@),
            !r@.force_wait_for_sync,
    {
        InsertDocuments { collection: collection.to_owned(), documents, force_wait_for_sync: false }
    }

    /// Switches synchronous durability on or off.
    pub fn with_force_wait_for_sync(self, force_wait_for_sync: bool) -> (r: InsertDocuments)
        ensures
            r@ == (SpecInsertMany { force_wait_for_sync, ..self@ }),
    {
        InsertDocuments { force_wait_for_sync, ..self }
    }
}

/// Inserts several documents in one call and returns each persisted
/// document, content included.
#[derive(Clone, Debug)]
pub struct InsertDocumentsReturnNew {
    /// The collection to insert into.
    pub collection: String,
    /// The documents to insert, one outcome each.
    pub documents: Vec<NewDocument>,
    /// Whether the write must be flushed to durable storage before the
    /// call returns.
    pub force_wait_for_sync: bool,
}

impl View for InsertDocumentsReturnNew {
    type V = SpecInsertMany;

    open spec fn view(&self) -> SpecInsertMany {
        SpecInsertMany {
            collection: self.collection@,
            documents: new_document_views(self.documents@),
            force_wait_for_sync: self.force_wait_for_sync,
        }
    }
}

impl InsertDocumentsReturnNew {
    /// Builds the method for the given collection and documents.
    pub fn new(collection: &str, documents: Vec<NewDocument>) -> (r: InsertDocumentsReturnNew)
        ensures
            r@.collection == collection@,
            r@.documents == new_document_views(documents@),
            !r@.force_wait_for_sync,
    {
        InsertDocumentsReturnNew {
            collection: collection.to_owned(),
            documents,
            force_wait_for_sync: false,
        }
    }

    /// Switches synchronous durability on or off.
    pub fn with_force_wait_for_sync(self, force_wait_for_sync: bool) -> (r:
        InsertDocumentsReturnNew)
        ensures
            r@ == (SpecInsertMany { force_wait_for_sync, ..self@ }),
    {
        InsertDocumentsReturnNew { force_wait_for_sync, ..self }
    }
}

/// The mathematical model of a [`GetDocument`].
pub ghost struct SpecGet {
    pub id: SpecDocumentId,
    pub if_match: Option<Seq<char>>,
    pub if_non_match: Option<Seq<char>>,
    pub representation: Representation,
}

/// Fetches one document by its address.
///
/// With `if_match`, the stored revision must equal the given one or the
/// read fails with a precondition failure. With `if_non_match`, a read of
/// a document whose revision equals the given one answers not-modified;
/// any other revision is returned normally. Only one of the two
/// preconditions is meaningful per call; if both are set, `if_match` is
/// consulted.
#[derive(Clone, Debug)]
pub struct GetDocument {
    /// The address to fetch.
    pub id: DocumentId,
    /// A revision the stored document must have.
    pub if_match: Option<String>,
    /// A revision the stored document must not have.
    pub if_non_match: Option<String>,
    /// The representation to decode the content into.
    pub representation: Representation,
}

impl View for GetDocument {
    type V = SpecGet;

    open spec fn view(&self) -> SpecGet {
        SpecGet {
            id: self.id@,
            if_match: match self.if_match {
                Some(ref s) => Some(s@),
                None => None,
            },
            if_non_match: match self.if_non_match {
                Some(ref s) => Some(s@),
                None => None,
            },
            representation: self.representation,
        }
    }
}

impl GetDocument {
    /// Builds the method for the given address, decoding into structured
    /// content and checking no precondition.
    pub fn new(id: DocumentId) -> (r: GetDocument)
        ensures
            r@.id == id@,
            r@.if_match is None,
            r@.if_non_match is None,
            r@.representation == Representation::Structured,
    {
        GetDocument {
            id,
            if_match: None,
            if_non_match: None,
            representation: Representation::Structured,
        }
    }

    /// Requires the stored revision to equal the given one.
    pub fn with_if_match(self, revision: String) -> (r: GetDocument)
        ensures
            r@ == (SpecGet { if_match: Some(revision@), ..self@ }),
    {
        GetDocument { if_match: Some(revision), ..self }
    }

    /// Requires the stored revision to differ from the given one.
    pub fn with_if_non_match(self, revision: String) -> (r: GetDocument)
        ensures
            r@ == (SpecGet { if_non_match: Some(revision@), ..self@ }),
    {
        GetDocument { if_non_match: Some(revision), ..self }
    }

    /// Chooses the representation the content is decoded into.
    pub fn with_representation(self, representation: Representation) -> (r: GetDocument)
        ensures
            r@ == (SpecGet { representation, ..self@ }),
    {
        GetDocument { representation, ..self }
    }
}

/// The mathematical model of a [`ReplaceDocument`] or an
/// [`UpdateDocument`].
pub ghost struct SpecWrite {
    pub id: SpecDocumentId,
    pub update: SpecDocumentUpdate,
    pub if_match: Option<Seq<char>>,
    pub ignore_revisions: bool,
    pub return_old: bool,
    pub return_new: bool,
    pub force_wait_for_sync: bool,
}

/// Replaces one document's content wholesale.
///
/// The revision precondition is evaluated in this order: an `if_match`
/// revision, when set, must equal the stored one; otherwise the update's
/// embedded revision, when present and not switched off through
/// `ignore_revisions`, must equal the stored one. On success the result
/// carries the old content and the new content exactly as the two return
/// flags request. The identity written is the method's address; the
/// update's key is not consulted.
#[derive(Clone, Debug)]
pub struct ReplaceDocument {
    /// The address to write.
    pub id: DocumentId,
    /// The replacement content, with an optional embedded revision
    /// precondition.
    pub update: DocumentUpdate,
    /// A revision the stored document must have; checked before the
    /// update's embedded revision.
    pub if_match: Option<String>,
    /// Switches the update's embedded revision precondition off.
    pub ignore_revisions: bool,
    /// Whether the replaced content is wanted back.
    pub return_old: bool,
    /// Whether the written content is wanted back.
    pub return_new: bool,
    /// Whether the write must be flushed to durable storage before the
    /// call returns.
    pub force_wait_for_sync: bool,
}

impl View for ReplaceDocument {
    type V = SpecWrite;

    open spec fn view(&self) -> SpecWrite {
        SpecWrite {
            id: self.id@,
            update: self.update@,
            if_match: match self.if_match {
                Some(ref s) => Some(s@),
                None => None,
            },
            ignore_revisions: self.ignore_revisions,
            return_old: self.return_old,
            return_new: self.return_new,
            force_wait_for_sync: self.force_wait_for_sync,
        }
    }
}

impl ReplaceDocument {
    /// Builds the method for the given address and replacement.
    pub fn new(id: DocumentId, update: DocumentUpdate) -> (r: ReplaceDocument)
        ensures
            r@.id == id@,
            r@.update == update@,
            r@.if_match is None,
            !r@.ignore_revisions,
            !r@.return_old,
            !r@.return_new,
            !r@.force_wait_for_sync,
    {
        ReplaceDocument {
            id,
            update,
            if_match: None,
            ignore_revisions: false,
            return_old: false,
            return_new: false,
            force_wait_for_sync: false,
        }
    }

    /// Requires the stored revision to equal the given one, overriding the
    /// update's embedded revision.
    pub fn with_if_match(self, revision: String) -> (r: ReplaceDocument)
        ensures
            r@ == (SpecWrite { if_match: Some(revision@), ..self@ }),
    {
        ReplaceDocument { if_match: Some(revision), ..self }
    }

    /// Switches the update's embedded revision precondition off or on.
    pub fn with_ignore_revisions(self, ignore_revisions: bool) -> (r: ReplaceDocument)
        ensures
            r@ == (SpecWrite { ignore_revisions, ..self@ }),
    {
        ReplaceDocument { ignore_revisions, ..self }
    }

    /// Asks for the replaced content back, or not.
    pub fn with_return_old(self, return_old: bool) -> (r: ReplaceDocument)
        ensures
            r@ == (SpecWrite { return_old, ..self@ }),
    {
        ReplaceDocument { return_old, ..self }
    }

    /// Asks for the written content back, or not.
    pub fn with_return_new(self, return_new: bool) -> (r: ReplaceDocument)
        ensures
            r@ == (SpecWrite { return_new, ..self@ }),
    {
        ReplaceDocument { return_new, ..self }
    }

    /// Switches synchronous durability on or off.
    pub fn with_force_wait_for_sync(self, force_wait_for_sync: bool) -> (r: ReplaceDocument)
        ensures
            r@ == (SpecWrite { force_wait_for_sync, ..self@ }),
    {
        ReplaceDocument { force_wait_for_sync, ..self }
    }
}

/// Patches one document: the update's content is merged field by field
/// into the stored document, so fields absent from the patch stay as they
/// are. Preconditions and return flags behave as on [`ReplaceDocument`].
#[derive(Clone, Debug)]
pub struct UpdateDocument {
    /// The address to write.
    pub id: DocumentId,
    /// The patch content, with an optional embedded revision precondition.
    pub update: DocumentUpdate,
    /// A revision the stored document must have; checked before the
    /// update's embedded revision.
    pub if_match: Option<String>,
    /// Switches the update's embedded revision precondition off.
    pub ignore_revisions: bool,
    /// Whether the replaced content is wanted back.
    pub return_old: bool,
    /// Whether the merged content is wanted back.
    pub return_new: bool,
    /// Whether the write must be flushed to durable storage before the
    /// call returns.
    pub force_wait_for_sync: bool,
}

impl View for UpdateDocument {
    type V = SpecWrite;

    open spec fn view(&self) -> SpecWrite {
        SpecWrite {
            id: self.id@,
            update: self.update@,
            if_match: match self.if_match {
                Some(ref s) => Some(s@),
                None => None,
            },
            ignore_revisions: self.ignore_revisions,
            return_old: self.return_old,
            return_new: self.return_new,
            force_wait_for_sync: self.force_wait_for_sync,
        }
    }
}

impl UpdateDocument {
    /// Builds the method for the given address and patch.
    pub fn new(id: DocumentId, update: DocumentUpdate) -> (r: UpdateDocument)
        ensures
            r@.id == id@,
            r@.update == update@,
            r@.if_match is None,
            !r@.ignore_revisions,
            !r@.return_old,
            !r@.return_new,
            !r@.force_wait_for_sync,
    {
        UpdateDocument {
            id,
            update,
            if_match: None,
            ignore_revisions: false,
            return_old: false,
            return_new: false,
            force_wait_for_sync: false,
        }
    }

    /// Requires the stored revision to equal the given one, overriding the
    /// update's embedded revision.
    pub fn with_if_match(self, revision: String) -> (r: UpdateDocument)
        ensures
            r@ == (SpecWrite { if_match: Some(revision@), ..self@ }),
    {
        UpdateDocument { if_match: Some(revision), ..self }
    }

    /// Switches the update's embedded revision precondition off or on.
    pub fn with_ignore_revisions(self, ignore_revisions: bool) -> (r: UpdateDocument)
        ensures
            r@ == (SpecWrite { ignore_revisions, ..self@ }),
    {
        UpdateDocument { ignore_revisions, ..self }
    }

    /// Asks for the replaced content back, or not.
    pub fn with_return_old(self, return_old: bool) -> (r: UpdateDocument)
        ensures
            r@ == (SpecWrite { return_old, ..self@ }),
    {
        UpdateDocument { return_old, ..self }
    }

    /// Asks for the merged content back, or not.
    pub fn with_return_new(self, return_new: bool) -> (r: UpdateDocument)
        ensures
            r@ == (SpecWrite { return_new, ..self@ }),
    {
        UpdateDocument { return_new, ..self }
    }

    /// Switches synchronous durability on or off.
    pub fn with_force_wait_for_sync(self, force_wait_for_sync: bool) -> (r: UpdateDocument)
        ensures
            r@ == (SpecWrite { force_wait_for_sync, ..self@ }),
    {
        UpdateDocument { force_wait_for_sync, ..self }
    }
}

} // verus!
