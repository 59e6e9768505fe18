//! The error taxonomy of the document method layer.
//!
//! Every failed operation carries the store's numeric status, a domain
//! error code and a human-readable message, all preserved verbatim so that
//! callers can branch on them. Item-level failures inside a batch carry a
//! `MethodError` with the code and message alone.

use vstd::prelude::*;
use vstd::string::*;

use crate::wire::{dec_digits, push_dec_u64};

verus! {

broadcast use vstd::seq::group_seq_axioms;

/// A domain error code of the store.
///
/// Only the codes this layer distinguishes are modelled; every code renders
/// to the store's numeric form through [`ErrorCode::as_u16`].
#[derive(Clone, Copy, Debug, PartialEq, Eq, Structural)]
pub enum ErrorCode {
    /// No domain error: used for the not-modified outcome of a
    /// conditional read.
    NoError,
    /// A malformed request value, rejected before any store interaction.
    BadParameter,
    /// A revision precondition was not met.
    ArangoConflict,
    /// The addressed document does not exist in its collection.
    ArangoDocumentNotFound,
    /// The addressed collection does not exist.
    ArangoCollectionNotFound,
    /// A caller-assigned key already exists in the collection.
    ArangoUniqueConstraintViolated,
    /// A collection of that name already exists.
    ArangoDuplicateName,
}

impl ErrorCode {
    /// The numeric form of the code, as the store reports it.
    pub open spec fn spec_as_u16(self) -> u16 {
        match self {
            ErrorCode::NoError => 0,
            ErrorCode::BadParameter => 600,
            ErrorCode::ArangoConflict => 1200,
            ErrorCode::ArangoDocumentNotFound => 1202,
            ErrorCode::ArangoCollectionNotFound => 1203,
            ErrorCode::ArangoUniqueConstraintViolated => 1210,
            ErrorCode::ArangoDuplicateName => 1207,
        }
    }

    /// The numeric form of the code, as the store reports it.
    pub fn as_u16(self) -> (r: u16)
        ensures
            r == self.spec_as_u16(),
    {
        match self {
            ErrorCode::NoError => 0,
            ErrorCode::BadParameter => 600,
            ErrorCode::ArangoConflict => 1200,
            ErrorCode::ArangoDocumentNotFound => 1202,
            ErrorCode::ArangoCollectionNotFound => 1203,
            ErrorCode::ArangoUniqueConstraintViolated => 1210,
            ErrorCode::ArangoDuplicateName => 1207,
        }
    }
}

/// The mathematical model of an [`Error`].
pub ghost struct SpecError {
    pub status_code: u16,
    pub error_code: ErrorCode,
    pub message: Seq<char>,
}

/// A typed error of a failed operation: the transport status, the domain
/// error code and the message, preserved verbatim.
#[derive(Clone, Debug, PartialEq, Eq)]
pub struct Error {
    status_code: u16,
    error_code: ErrorCode,
    message: String,
}

impl View for Error {
    type V = SpecError;

    closed spec fn view(&self) -> SpecError {
        SpecError {
            status_code: self.status_code,
            error_code: self.error_code,
            message: self.message@,
        }
    }
}

impl Error {
    /// Builds an error from its three preserved parts.
    pub fn new(status_code: u16, error_code: ErrorCode, message: String) -> (r: Error)
        ensures
            r@ == (SpecError { status_code, error_code, message: message@ }),
    {
        Error { status_code, error_code, message }
    }

    /// The transport status the store answered with.
    pub fn status_code(&self) -> (r: u16)
        ensures
            r == self@.status_code,
    {
        self.status_code
    }

    /// The domain error code.
    pub fn error_code(&self) -> (r: ErrorCode)
        ensures
            r == self@.error_code,
    {
        self.error_code
    }

    /// The human-readable message, verbatim.
    pub fn message(&self) -> (r: &str)
        ensures
            r@ == self@.message,
    {
        self.message.as_str()
    }

    /// One-line rendering of the error, code and status included.
    pub fn to_text(&self) -> (r: String)
        ensures
            r@ == spec_error_text(self@),
    {
        let mut out = String::new();
        out.append("Error ");
        push_dec_u64(self.error_code.as_u16() as u64, &mut out);
        out.append(": ");
        out.append(self.message.as_str());
        out.append(" (Status: ");
        push_dec_u64(self.status_code as u64, &mut out);
        out.append(")");
        proof {
            reveal_strlit("Error ");
            reveal_strlit(": ");
            reveal_strlit(" (Status: ");
            reveal_strlit(")");
            assert(out@ =~= spec_error_text(self@));
        }
        out
    }
}

/// The one-line rendering of an error.
pub open spec fn spec_error_text(e: SpecError) -> Seq<char> {
    "Error "@ + dec_digits(e.error_code.spec_as_u16() as int) + ": "@ + e.message + " (Status: "@
        + dec_digits(e.status_code as int) + ")"@
}

/// The mathematical model of a [`MethodError`].
pub ghost struct SpecMethodError {
    pub code: ErrorCode,
    pub message: Seq<char>,
}

/// An item-level failure inside a batch operation.
#[derive(Clone, Debug, PartialEq, Eq)]
pub struct MethodError {
    code: ErrorCode,
    message: String,
}

impl View for MethodError {
    type V = SpecMethodError;

    closed spec fn view(&self) -> SpecMethodError {
        SpecMethodError { code: self.code, message: self.message@ }
    }
}

impl MethodError {
    /// Builds an item-level error from its two preserved parts.
    pub fn new(code: ErrorCode, message: String) -> (r: MethodError)
        ensures
            r@ == (SpecMethodError { code, message: message@ }),
    {
        MethodError { code, message }
    }

    /// The domain error code of the failed item.
    pub fn code(&self) -> (r: ErrorCode)
        ensures
            r == self@.code,
    {
        self.code
    }

    /// The human-readable message of the failed item, verbatim.
    pub fn message(&self) -> (r: &str)
        ensures
            r@ == self@.message,
    {
        self.message.as_str()
    }
}

} // verus!
