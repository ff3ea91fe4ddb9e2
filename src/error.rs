//! The errors of a query of the archive.
use vstd::prelude::*;

verus! {

#[verifier::external_type_specification]
#[verifier::external_body]
pub struct ExReqwestError(reqwest::Error);

/// The ways a query of the archive fails.
#[derive(Debug)]
pub enum SecError {
    /// The request to the archive failed.
    Reqwest(reqwest::Error),
    /// A value that the archive gives as a number is not one.
    ParseInt(std::num::ParseIntError),
    /// The page lacks the control that the stage reads.
    Value(&'static str),
    /// The query is valid but matched no material.
    NoMaterial,
}

/// The result of a query of the archive.
pub type SecResult<T> = Result<T, SecError>;

} // verus!
