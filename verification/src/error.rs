//! The errors of the library.

use crate::text::{decimal, decimal_string};
use vstd::prelude::*;
use vstd::string::StringExecFns;

verus! {

/// Why a step of the work failed.
#[derive(Debug)]
pub enum OneKpError {
    /// No entry of the directory listing starts with the sample's identifier.
    PrefixNotFound { id: String },
    /// Every allowed attempt to fetch the address failed.
    FetchExhausted { url: String, attempts: usize },
    /// The cache directory or a file in it could not be read or written.
    CacheIo { detail: String },
    /// A fetched file could not be written to the target directory.
    Io { detail: String },
}

/// The words in which an error is reported.
pub open spec fn message_of(e: OneKpError) -> Seq<char> {
    match e {
        OneKpError::PrefixNotFound { id } => id@ + " dirname is not found"@,
        OneKpError::FetchExhausted { url, attempts } => "Error "@ + decimal(attempts as nat)
            + " times when fetching "@ + url@,
        OneKpError::CacheIo { detail } => detail@,
        OneKpError::Io { detail } => detail@,
    }
}

impl OneKpError {
    /// The words in which the error is reported.
    pub fn message(&self) -> (out: String)
        ensures
            out@ == message_of(*self),
    {
        match self {
            OneKpError::PrefixNotFound { id } => {
                let mut out = id.clone();
                out.append(" dirname is not found");
                out
            },
            OneKpError::FetchExhausted { url, attempts } => {
                let mut out = String::from_str("Error ");
                let count = decimal_string(*attempts);
                out.append(count.as_str());
                out.append(" times when fetching ");
                out.append(url.as_str());
                out
            },
            OneKpError::CacheIo { detail } => detail.clone(),
            OneKpError::Io { detail } => detail.clone(),
        }
    }
}

} // verus!
