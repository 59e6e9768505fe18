//! The content representation and the document envelopes.
//!
//! Content travels in one of two representations: a structured [`Value`],
//! or raw wire text held as the fields it denotes and rendered canonically
//! on demand. Both representations satisfy one `to_wire`/`from_wire`
//! contract, so every operation works uniformly on either. The envelopes
//! pair content with identity and revision: [`NewDocument`] goes into an
//! insert, [`Document`] comes out of reads, [`DocumentUpdate`] goes into
//! replace and update, and [`UpdatedDocument`] comes out of them.

use vstd::prelude::*;
use vstd::string::*;

use crate::error::{Error, ErrorCode};
use crate::ident::{DocumentId, DocumentKey, Revision, SpecDocumentId};
use crate::value::{clone_fields, field_views, Field, SpecField, SpecValue, Value};
use crate::wire::{encode_object_to_string, encode_to_string, parse_text, sp_text, spec_encode};

verus! {

broadcast use vstd::seq::group_seq_axioms;

// ---------------------------------------------------------------------------
// System fields
// ---------------------------------------------------------------------------

/// Whether `name` is one of the identity fields the store injects into a
/// stored document: `_id`, `_key` or `_rev`.
pub open spec fn is_system_name(name: Seq<char>) -> bool {
    name == seq!['_', 'i', 'd'] || name == seq!['_', 'k', 'e', 'y'] || name == seq![
        '_',
        'r',
        'e',
        'v',
    ]
}

/// Whether `name` is one of the identity fields the store injects.
pub fn is_system_name_exec(name: &str) -> (r: bool)
    ensures
        r == is_system_name(name@),
{
    let len = name.unicode_len();
    if len == 3 {
        let c0 = name.get_char(0);
        let c1 = name.get_char(1);
        let c2 = name.get_char(2);
        let r = c0 == '_' && c1 == 'i' && c2 == 'd';
        proof {
            if r {
                assert(name@ =~= seq!['_', 'i', 'd']);
            } else {
                assert(name@ != seq!['_', 'i', 'd']);
            }
            assert(name@ != seq!['_', 'k', 'e', 'y']);
            assert(name@ != seq!['_', 'r', 'e', 'v']);
        }
        r
    } else if len == 4 {
        let c0 = name.get_char(0);
        let c1 = name.get_char(1);
        let c2 = name.get_char(2);
        let c3 = name.get_char(3);
        let r = c0 == '_' && ((c1 == 'k' && c2 == 'e' && c3 == 'y') || (c1 == 'r' && c2 == 'e'
            && c3 == 'v'));
        proof {
            if r {
                if c1 == 'k' {
                    assert(name@ =~= seq!['_', 'k', 'e', 'y']);
                } else {
                    assert(name@ =~= seq!['_', 'r', 'e', 'v']);
                }
            } else {
                assert(name@ != seq!['_', 'k', 'e', 'y']);
                assert(name@ != seq!['_', 'r', 'e', 'v']);
            }
            assert(name@ != seq!['_', 'i', 'd']);
        }
        r
    } else {
        proof {
            assert(name@ != seq!['_', 'i', 'd']);
            assert(name@ != seq!['_', 'k', 'e', 'y']);
            assert(name@ != seq!['_', 'r', 'e', 'v']);
        }
        false
    }
}

/// The first `i` fields of `fs` with the system fields taken out: the
/// caller-visible part of a stored document, in stored order.
pub open spec fn user_fields_upto(fs: Seq<SpecField>, i: int) -> Seq<SpecField>
    decreases i,
{
    if i <= 0 {
        Seq::empty()
    } else {
        user_fields_upto(fs, i - 1) + (if 0 <= i - 1 < fs.len() && !is_system_name(
            fs[i - 1].name,
        ) {
            seq![fs[i - 1]]
        } else {
            Seq::<SpecField>::empty()
        })
    }
}

/// The fields of `fs` with the system fields taken out, in order.
pub open spec fn user_fields(fs: Seq<SpecField>) -> Seq<SpecField> {
    user_fields_upto(fs, fs.len() as int)
}

/// Copies `fs`, dropping the system fields.
pub fn user_fields_exec(fs: &Vec<Field>) -> (res: Vec<Field>)
    ensures
        field_views(res@) == user_fields(field_views(fs@)),
{
    let ghost spec_fs = field_views(fs@);
    let mut out: Vec<Field> = Vec::new();
    let mut i: usize = 0;
    while i < fs.len()
        invariant
            i <= fs@.len(),
            spec_fs == field_views(fs@),
            field_views(out@) =~= user_fields_upto(spec_fs, i as int),
        decreases fs@.len() - i,
    {
        proof {
            assert(spec_fs[i as int].name == fs@[i as int].name@);
        }
        if !is_system_name_exec(fs[i].name.as_str()) {
            out.push(fs[i].clone());
        }
        proof {
            assert(field_views(out@) =~= user_fields_upto(spec_fs, i as int + 1));
        }
        i = i + 1;
    }
    proof {
        assert(field_views(out@) =~= user_fields(spec_fs));
    }
    out
}

// ---------------------------------------------------------------------------
// Raw wire text
// ---------------------------------------------------------------------------

/// Content in its raw serialized form: the fields of one wire object,
/// passed through without further interpretation and rendered in the
/// canonical wire form on demand.
#[derive(Debug, PartialEq, Eq)]
pub struct JsonString {
    fields: Vec<Field>,
}

impl View for JsonString {
    type V = Seq<SpecField>;

    closed spec fn view(&self) -> Seq<SpecField> {
        field_views(self.fields@)
    }
}

impl Clone for JsonString {
    fn clone(&self) -> (res: Self)
        ensures
            res@ == self@,
    {
        JsonString { fields: clone_fields(&self.fields) }
    }
}

impl JsonString {
    /// Validates an explicit wire text and takes it over. The text must be
    /// one wire object; the fields kept are exactly the reading of the
    /// text.
    pub fn from_str(text: &str) -> (r: Result<JsonString, Error>)
        ensures
            r matches Ok(j) ==> sp_text(text@) == Some(SpecValue::Object(j@)),
            r matches Err(e) ==> !(sp_text(text@) matches Some(v) && v is Object)
                && e@.status_code == 400 && e@.error_code == ErrorCode::BadParameter && e@.message
                == "invalid wire text"@,
    {
        match crate::wire::parse_object_text(text) {
            Some(fields) => Ok(JsonString { fields }),
            None => Err(
                Error::new(400, ErrorCode::BadParameter, String::from_str("invalid wire text")),
            ),
        }
    }

    /// Validates an explicit wire text and takes it over, as
    /// [`JsonString::from_str`] does.
    pub fn new(text: &str) -> (r: Result<JsonString, Error>)
        ensures
            r matches Ok(j) ==> sp_text(text@) == Some(SpecValue::Object(j@)),
            r matches Err(e) ==> !(sp_text(text@) matches Some(v) && v is Object)
                && e@.status_code == 400 && e@.error_code == ErrorCode::BadParameter && e@.message
                == "invalid wire text"@,
    {
        JsonString::from_str(text)
    }

    /// Wraps fields received from the store, verbatim and unvalidated.
    pub fn from_fields(fields: Vec<Field>) -> (r: JsonString)
        ensures
            r@ == field_views(fields@),
    {
        JsonString { fields }
    }

    /// The fields the text denotes, in wire order.
    pub fn fields(&self) -> (r: &Vec<Field>)
        ensures
            field_views(r@) == self@,
    {
        &self.fields
    }

    /// The canonical wire rendering of the held fields.
    pub fn as_str(&self) -> (r: String)
        ensures
            r@ == spec_encode(SpecValue::Object(self@)),
    {
        encode_object_to_string(&self.fields)
    }
}

// ---------------------------------------------------------------------------
// Content
// ---------------------------------------------------------------------------

/// Which representation content travels in.
#[derive(Clone, Copy, Debug, PartialEq, Eq, Structural)]
pub enum Representation {
    /// A structured [`Value`].
    Structured,
    /// Raw wire text, passed through verbatim.
    RawText,
}

/// The mathematical model of a [`Content`].
pub ghost enum SpecContent {
    Structured(SpecValue),
    Raw(Seq<SpecField>),
}

/// The fields a content denotes when used as a document body: the fields
/// of a structured object or of raw text, and nothing for any other
/// structured value.
pub open spec fn content_fields(c: SpecContent) -> Option<Seq<SpecField>> {
    match c {
        SpecContent::Structured(v) => match v {
            SpecValue::Object(fs) => Some(fs),
            _ => None,
        },
        SpecContent::Raw(fs) => Some(fs),
    }
}

/// Document content in either representation.
#[derive(Debug, PartialEq, Eq)]
pub enum Content {
    /// A structured value.
    Structured(Value),
    /// Raw wire text.
    Raw(JsonString),
}

impl View for Content {
    type V = SpecContent;

    open spec fn view(&self) -> SpecContent {
        match self {
            Content::Structured(v) => SpecContent::Structured(v@),
            Content::Raw(j) => SpecContent::Raw(j@),
        }
    }
}

impl Clone for Content {
    fn clone(&self) -> (res: Self)
        ensures
            res@ == self@,
    {
        match self {
            Content::Structured(v) => Content::Structured(v.clone()),
            Content::Raw(j) => Content::Raw(j.clone()),
        }
    }
}

/// The wire rendering of content: the canonical form of its value.
pub open spec fn spec_content_wire(c: SpecContent) -> Seq<char> {
    match c {
        SpecContent::Structured(v) => spec_encode(v),
        SpecContent::Raw(fs) => spec_encode(SpecValue::Object(fs)),
    }
}

impl Content {
    /// Renders the content in the canonical wire form, whichever
    /// representation it is in.
    pub fn to_wire(&self) -> (r: String)
        ensures
            r@ == spec_content_wire(self@),
    {
        match self {
            Content::Structured(v) => encode_to_string(v),
            Content::Raw(j) => j.as_str(),
        }
    }

    /// Decodes wire text into content of the requested representation.
    /// Raw text must be one wire object; a structured value may be of any
    /// shape.
    pub fn from_wire(text: &str, representation: Representation) -> (r: Result<Content, Error>)
        ensures
            representation == Representation::Structured ==> match r {
                Ok(c) => c@ matches SpecContent::Structured(v) && sp_text(text@) == Some(v),
                Err(e) => sp_text(text@) is None && e@.status_code == 400 && e@.error_code
                    == ErrorCode::BadParameter && e@.message == "invalid wire text"@,
            },
            representation == Representation::RawText ==> match r {
                Ok(c) => c@ matches SpecContent::Raw(fs) && sp_text(text@) == Some(
                    SpecValue::Object(fs),
                ),
                Err(e) => !(sp_text(text@) matches Some(v) && v is Object) && e@.status_code == 400
                    && e@.error_code == ErrorCode::BadParameter && e@.message
                    == "invalid wire text"@,
            },
    {
        match representation {
            Representation::Structured => match parse_text(text) {
                Some(v) => Ok(Content::Structured(v)),
                None => Err(
                    Error::new(400, ErrorCode::BadParameter, String::from_str("invalid wire text")),
                ),
            },
            Representation::RawText => match JsonString::from_str(text) {
                Ok(j) => Ok(Content::Raw(j)),
                Err(e) => Err(e),
            },
        }
    }

    /// The fields this content denotes as a document body, or nothing for
    /// a structured value that is not an object.
    pub fn object_fields(&self) -> (r: Option<&Vec<Field>>)
        ensures
            match r {
                Some(fs) => content_fields(self@) == Some(field_views(fs@)),
                None => content_fields(self@) is None,
            },
    {
        match self {
            Content::Structured(v) => match v {
                Value::Object(fields) => Some(fields),
                _ => None,
            },
            Content::Raw(j) => Some(j.fields()),
        }
    }
}

// ---------------------------------------------------------------------------
// Envelopes
// ---------------------------------------------------------------------------

/// The mathematical model of a [`NewDocument`].
pub ghost struct SpecNewDocument {
    pub key: Option<Seq<char>>,
    pub content: SpecContent,
}

/// Content to be inserted, with an optional caller-assigned key. Without a
/// key the store assigns one.
#[derive(Clone, Debug, PartialEq, Eq)]
pub struct NewDocument {
    key: Option<DocumentKey>,
    content: Content,
}

impl View for NewDocument {
    type V = SpecNewDocument;

    closed spec fn view(&self) -> SpecNewDocument {
        SpecNewDocument {
            key: match self.key {
                Some(k) => Some(k@),
                None => None,
            },
            content: self.content@,
        }
    }
}

impl NewDocument {
    /// Starts a new document from its content, with no key: the store will
    /// assign one.
    pub fn from_content(content: Content) -> (r: NewDocument)
        ensures
            r@.key is None,
            r@.content == content@,
    {
        NewDocument { key: None, content }
    }

    /// Assigns an explicit key.
    pub fn with_key(self, key: DocumentKey) -> (r: NewDocument)
        ensures
            r@.key == Some(key@),
            r@.content == self@.content,
    {
        NewDocument { key: Some(key), ..self }
    }

    /// The caller-assigned key, if one was set.
    pub fn key(&self) -> (r: &Option<DocumentKey>)
        ensures
            match r {
                Some(k) => self@.key == Some(k@),
                None => self@.key is None,
            },
    {
        &self.key
    }

    /// The content to insert.
    pub fn content(&self) -> (r: &Content)
        ensures
            r@ == self@.content,
    {
        &self.content
    }
}

/// The mathematical model of a [`Document`].
pub ghost struct SpecDocument {
    pub id: SpecDocumentId,
    pub key: Seq<char>,
    pub revision: Seq<char>,
    pub content: SpecContent,
}

/// A read document: identity, revision and content.
#[derive(Clone, Debug, PartialEq, Eq)]
pub struct Document {
    id: DocumentId,
    key: DocumentKey,
    revision: Revision,
    content: Content,
}

impl View for Document {
    type V = SpecDocument;

    closed spec fn view(&self) -> SpecDocument {
        SpecDocument { id: self.id@, key: self.key@, revision: self.revision@, content: self.content@ }
    }
}

impl Document {
    /// Assembles a document envelope from its parts.
    pub fn assemble(id: DocumentId, key: DocumentKey, revision: Revision, content: Content) -> (r:
        Document)
        ensures
            r@ == (SpecDocument { id: id@, key: key@, revision: revision@, content: content@ }),
    {
        Document { id, key, revision, content }
    }

    /// The document's address.
    pub fn id(&self) -> (r: &DocumentId)
        ensures
            r@ == self@.id,
    {
        &self.id
    }

    /// The document's key within its collection.
    pub fn key(&self) -> (r: &DocumentKey)
        ensures
            r@ == self@.key,
    {
        &self.key
    }

    /// The document's current revision.
    pub fn revision(&self) -> (r: &Revision)
        ensures
            r@ == self@.revision,
    {
        &self.revision
    }

    /// The document's content, in the representation the read requested.
    pub fn content(&self) -> (r: &Content)
        ensures
            r@ == self@.content,
    {
        &self.content
    }
}

/// The mathematical model of a [`DocumentUpdate`].
pub ghost struct SpecDocumentUpdate {
    pub key: Seq<char>,
    pub content: SpecContent,
    pub revision: Option<Seq<char>>,
}

/// The input of a replace or update: the key, the replacement or patch
/// content, and an optional revision precondition.
#[derive(Clone, Debug, PartialEq, Eq)]
pub struct DocumentUpdate {
    key: DocumentKey,
    content: Content,
    revision: Option<Revision>,
}

impl View for DocumentUpdate {
    type V = SpecDocumentUpdate;

    closed spec fn view(&self) -> SpecDocumentUpdate {
        SpecDocumentUpdate {
            key: self.key@,
            content: self.content@,
            revision: match self.revision {
                Some(rev) => Some(rev@),
                None => None,
            },
        }
    }
}

impl DocumentUpdate {
    /// Starts an update of the document with the given key.
    pub fn new(key: DocumentKey, content: Content) -> (r: DocumentUpdate)
        ensures
            r@.key == key@,
            r@.content == content@,
            r@.revision is None,
    {
        DocumentUpdate { key, content, revision: None }
    }

    /// Embeds a revision precondition: unless revisions are ignored, the
    /// write only proceeds if the stored revision equals this one.
    pub fn with_revision(self, revision: Revision) -> (r: DocumentUpdate)
        ensures
            r@.key == self@.key,
            r@.content == self@.content,
            r@.revision == Some(revision@),
    {
        DocumentUpdate { revision: Some(revision), ..self }
    }

    /// The key of the document to write.
    pub fn key(&self) -> (r: &DocumentKey)
        ensures
            r@ == self@.key,
    {
        &self.key
    }

    /// The replacement or patch content.
    pub fn content(&self) -> (r: &Content)
        ensures
            r@ == self@.content,
    {
        &self.content
    }

    /// The embedded revision precondition, if one was set.
    pub fn revision(&self) -> (r: &Option<Revision>)
        ensures
            match r {
                Some(rev) => self@.revision == Some(rev@),
                None => self@.revision is None,
            },
    {
        &self.revision
    }
}

/// The mathematical model of an [`UpdatedDocument`].
pub ghost struct SpecUpdatedDocument {
    pub id: SpecDocumentId,
    pub key: Seq<char>,
    pub revision: Seq<char>,
    pub old_revision: Seq<char>,
    pub old_content: Option<SpecContent>,
    pub new_content: Option<SpecContent>,
}

/// The result of a replace or update: the new and the replaced revision,
/// and the old and new content exactly when the caller asked for them.
#[derive(Clone, Debug, PartialEq, Eq)]
pub struct UpdatedDocument {
    id: DocumentId,
    key: DocumentKey,
    revision: Revision,
    old_revision: Revision,
    old_content: Option<Content>,
    new_content: Option<Content>,
}

impl View for UpdatedDocument {
    type V = SpecUpdatedDocument;

    closed spec fn view(&self) -> SpecUpdatedDocument {
        SpecUpdatedDocument {
            id: self.id@,
            key: self.key@,
            revision: self.revision@,
            old_revision: self.old_revision@,
            old_content: match self.old_content {
                Some(ref c) => Some(c@),
                None => None,
            },
            new_content: match self.new_content {
                Some(ref c) => Some(c@),
                None => None,
            },
        }
    }
}

impl UpdatedDocument {
    /// Assembles a write result from its parts.
    pub fn assemble(
        id: DocumentId,
        key: DocumentKey,
        revision: Revision,
        old_revision: Revision,
        old_content: Option<Content>,
        new_content: Option<Content>,
    ) -> (r: UpdatedDocument)
        ensures
            r@.id == id@,
            r@.key == key@,
            r@.revision == revision@,
            r@.old_revision == old_revision@,
            r@.old_content == (match old_content {
                Some(c) => Some(c@),
                None => None::<SpecContent>,
            }),
            r@.new_content == (match new_content {
                Some(c) => Some(c@),
                None => None::<SpecContent>,
            }),
    {
        UpdatedDocument { id, key, revision, old_revision, old_content, new_content }
    }

    /// The document's address.
    pub fn id(&self) -> (r: &DocumentId)
        ensures
            r@ == self@.id,
    {
        &self.id
    }

    /// The document's key within its collection.
    pub fn key(&self) -> (r: &DocumentKey)
        ensures
            r@ == self@.key,
    {
        &self.key
    }

    /// The revision this write produced.
    pub fn revision(&self) -> (r: &Revision)
        ensures
            r@ == self@.revision,
    {
        &self.revision
    }

    /// The revision this write replaced.
    pub fn old_revision(&self) -> (r: &Revision)
        ensures
            r@ == self@.old_revision,
    {
        &self.old_revision
    }

    /// The replaced content, present exactly when the write asked for the
    /// old content back.
    pub fn old_content(&self) -> (r: Option<&Content>)
        ensures
            match r {
                Some(c) => self@.old_content == Some(c@),
                None => self@.old_content is None,
            },
    {
        self.old_content.as_ref()
    }

    /// The written content as stored, present exactly when the write asked
    /// for the new content back.
    pub fn new_content(&self) -> (r: Option<&Content>)
        ensures
            match r {
                Some(c) => self@.new_content == Some(c@),
                None => self@.new_content is None,
            },
    {
        self.new_content.as_ref()
    }
}

} // verus!
