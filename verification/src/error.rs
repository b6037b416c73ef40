use vstd::prelude::*;

verus! {

/// Error taxonomy of the crawl pipeline.
///
/// `Config` errors are fatal and arise before any crawling starts.
/// `Fetch`, `Extraction` and `Sink` errors are per-URL or per-item
/// failures that never abort a running crawl; they surface only through
/// logs and the failure counters. `Internal` is the catch-all.
#[derive(Debug, Clone)]
pub enum Error {
    /// Configuration could not be used: parse failure, cyclic
    /// inheritance, or validation failure on the merged document.
    Config(String),
    /// One fetch attempt failed: transport error or non-success status.
    Fetch(String),
    /// Single-item extraction found no data for any field.
    Extraction(String),
    /// The output sink failed to write or to close.
    Sink(String),
    /// Unexpected failure that fits no other category.
    Internal(String),
}

impl Error {
    /// The message carried by any variant.
    pub fn message(&self) -> (r: &String)
        ensures
            r@ == self.spec_message(),
    {
        match self {
            Error::Config(m) => m,
            Error::Fetch(m) => m,
            Error::Extraction(m) => m,
            Error::Sink(m) => m,
            Error::Internal(m) => m,
        }
    }

    pub open spec fn spec_message(&self) -> Seq<char> {
        match self {
            Error::Config(m) => m@,
            Error::Fetch(m) => m@,
            Error::Extraction(m) => m@,
            Error::Sink(m) => m@,
            Error::Internal(m) => m@,
        }
    }
}

} // verus!
