//! The ways in which an operation of this crate fails.

use vstd::prelude::*;

verus! {

/// What `url::Url::parse` and `url::Url::join` report for an address they
/// reject. Its content is not read here.
#[verifier::external_type_specification]
#[verifier::external_body]
pub struct ExUrlParseError(url::ParseError);

/// Why a package identifier was refused.
#[derive(Debug)]
pub enum IdentifierFault {
    /// The type or the name is empty.
    Empty,
    /// The type or the name holds one of the separators of the scheme.
    Separator,
    /// The type, or the key of a qualifier, is not valid: it holds a
    /// character that it may not hold, or starts with a digit.
    Component,
    /// The text of the identifier does not stand for the
    /// identifier: something of it is lost when it is written.
    Lossy,
    /// The identifier does not follow the grammar of package identifiers;
    /// the text says where.
    Malformed(String),
}

/// Why a request to the catalog did not give a record.
#[derive(Debug)]
pub enum RequestFailure {
    /// The catalog answered with this status, which is no success.
    Status(u16),
    /// No answer arrived; the text says why.
    Transport(String),
}

/// The failure of an operation.
#[derive(Debug)]
pub enum Error {
    /// The address of the catalog, or a path joined onto it, is no valid URL.
    InvalidUrl(url::ParseError),
    /// A package identifier is malformed.
    InvalidIdentifier(IdentifierFault),
    /// The request could not be carried out, or was answered with a failure.
    RequestFailed(RequestFailure),
    /// The body of the answer does not have the expected shape; the text
    /// says why.
    DecodeFailed(String),
}

} // verus!
