//! The error taxonomy: transport failures are retried, decode failures
//! are fatal, a missing competition or season ends the whole run, and a
//! single competitor's failure is skipped.

use vstd::prelude::*;

verus! {

/// Why a fetch failed: the transport failed (network error or non-2xx
/// status, retried with backoff), or a successful response did not decode
/// (fatal, never retried).
#[derive(Debug, Clone, Copy, PartialEq, Eq, Structural)]
pub enum FetchError {
    Transport,
    Decode,
}

impl FetchError {
    /// A short description of the failure.
    pub fn message(&self) -> (r: &'static str)
        ensures
            *self is Transport ==> r@ == "transport failure"@,
            *self is Decode ==> r@ == "malformed response"@,
    {
        match self {
            FetchError::Transport => "transport failure",
            FetchError::Decode => "malformed response",
        }
    }
}

/// Why an ingest run ended without data: no stored competition or season
/// matched the query, or the matched competition carries no gender.
#[derive(Debug, Clone, Copy, PartialEq, Eq, Structural)]
pub enum IngestError {
    CompetitionNotFound,
    SeasonNotFound,
    InvalidGender,
}

impl IngestError {
    /// A short description of the failure.
    pub fn message(&self) -> (r: &'static str)
        ensures
            *self is CompetitionNotFound ==> r@ == "competition not found"@,
            *self is SeasonNotFound ==> r@ == "season not found"@,
            *self is InvalidGender ==> r@ == "invalid gender in competition"@,
    {
        match self {
            IngestError::CompetitionNotFound => "competition not found",
            IngestError::SeasonNotFound => "season not found",
            IngestError::InvalidGender => "invalid gender in competition",
        }
    }
}

} // verus!
