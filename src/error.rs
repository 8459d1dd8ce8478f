//! The error taxonomy shared by every stage of reading and writing.

use vstd::prelude::*;

verus! {

#[verifier::external_type_specification]
#[verifier::external_body]
pub struct ExJsonError(serde_json::Error);

#[verifier::external_type_specification]
#[verifier::external_body]
pub struct ExIoError(std::io::Error);

/// Why a message could not be read or written.
#[derive(Debug)]
pub enum DFParseError {
    /// The opening marker belongs to no known format.
    NotADFMessage(String),
    /// The marker is known but the header's fields fail validation.
    MalformedHeader(String),
    /// The format or metadata type is recognized but not handled.
    Unimplemented(String),
    /// The metadata codec failed.
    MetaError(serde_json::Error),
    /// The byte stream failed, or ended too early.
    IoError(std::io::Error),
}

impl DFParseError {
    /// The text that describes the error, for the variants that carry one.
    pub fn description(&self) -> (r: Option<&String>)
        ensures
            r matches Some(d) ==> match self {
                DFParseError::NotADFMessage(m) => d == m,
                DFParseError::MalformedHeader(m) => d == m,
                DFParseError::Unimplemented(m) => d == m,
                _ => false,
            },
            r is None <==> (self is MetaError || self is IoError),
    {
        match self {
            DFParseError::NotADFMessage(m) => Some(m),
            DFParseError::MalformedHeader(m) => Some(m),
            DFParseError::Unimplemented(m) => Some(m),
            _ => None,
        }
    }
}

impl From<std::io::Error> for DFParseError {
    fn from(err: std::io::Error) -> (r: DFParseError)
        ensures
            r == DFParseError::IoError(err),
    {
        DFParseError::IoError(err)
    }
}

impl vstd::std_specs::convert::FromSpecImpl<std::io::Error> for DFParseError {
    open spec fn obeys_from_spec() -> bool {
        true
    }

    open spec fn from_spec(v: std::io::Error) -> DFParseError {
        DFParseError::IoError(v)
    }
}

impl From<serde_json::Error> for DFParseError {
    fn from(err: serde_json::Error) -> (r: DFParseError)
        ensures
            r == DFParseError::MetaError(err),
    {
        DFParseError::MetaError(err)
    }
}

impl vstd::std_specs::convert::FromSpecImpl<serde_json::Error> for DFParseError {
    open spec fn obeys_from_spec() -> bool {
        true
    }

    open spec fn from_spec(v: serde_json::Error) -> DFParseError {
        DFParseError::MetaError(v)
    }
}

} // verus!
