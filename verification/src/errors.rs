//! What can go wrong, and how it is worded.

use vstd::prelude::*;
use vstd::string::*;

verus! {

/// Every failure the tool knows. Each holds the detail that its message
/// ends with.
///
/// Of these, `CacheNotFound` (no entry for a name), `CacheExpired` (an entry
/// past its time to live), `DeserializeFailed` (an entry that is no record),
/// `ReadFileError` and `OpenFileError` (the file system failed) are the ways
/// a cache read can miss; none of them ends a lookup. `TranslateFailed` and
/// `TranslateNetworkError` are the provider's failures, which do.
#[derive(Clone, Debug, PartialEq, Eq)]
pub enum Error {
    EnvNotExist(String),
    FileNotExist(String),
    OuterCrateInternalError(String),
    CacheExpired(String),
    CacheNotFound(String),
    SerializeError(String),
    DeserializeFailed(String),
    ReadFileError(String),
    OpenFileError(String),
    TranslateFailed(String),
    TranslateNetworkError(String),
}

impl Error {
    /// The detail that the failure holds.
    pub open spec fn detail(self) -> Seq<char> {
        match self {
            Error::EnvNotExist(d) => d@,
            Error::FileNotExist(d) => d@,
            Error::OuterCrateInternalError(d) => d@,
            Error::CacheExpired(d) => d@,
            Error::CacheNotFound(d) => d@,
            Error::SerializeError(d) => d@,
            Error::DeserializeFailed(d) => d@,
            Error::ReadFileError(d) => d@,
            Error::OpenFileError(d) => d@,
            Error::TranslateFailed(d) => d@,
            Error::TranslateNetworkError(d) => d@,
        }
    }

    /// Whether the failure is one of the ways a cache read can miss.
    pub open spec fn is_cache_miss(self) -> bool {
        self is CacheNotFound || self is CacheExpired || self is DeserializeFailed
            || self is ReadFileError || self is OpenFileError
    }

    /// Whether the failure came from the provider.
    pub open spec fn is_provider_failure(self) -> bool {
        self is TranslateFailed || self is TranslateNetworkError
    }

    /// The failure in words.
    pub open spec fn message(self) -> Seq<char> {
        match self {
            Error::EnvNotExist(d) => "Environment variable does not exist: "@ + d@,
            Error::FileNotExist(d) => "File does not exist: "@ + d@,
            Error::OuterCrateInternalError(d) => "External crate internal error: "@ + d@,
            Error::CacheExpired(d) => "Cache expired: "@ + d@,
            Error::CacheNotFound(d) => "Cache not found: "@ + d@,
            Error::SerializeError(d) => "Serialization failed: "@ + d@,
            Error::DeserializeFailed(d) => "Deserialization failed: "@ + d@,
            Error::ReadFileError(d) => "Read file error: "@ + d@,
            Error::OpenFileError(d) => "Open file error: "@ + d@,
            Error::TranslateFailed(d) => "Translate `"@ + d@ + "` failed"@,
            Error::TranslateNetworkError(d) => "Network error during translation: "@ + d@,
        }
    }

    pub fn to_string(&self) -> (s: String)
        ensures
            s@ == self.message(),
    {
        match self {
            Error::EnvNotExist(d) => String::from_str("Environment variable does not exist: ").concat(
                d.as_str(),
            ),
            Error::FileNotExist(d) => String::from_str("File does not exist: ").concat(d.as_str()),
            Error::OuterCrateInternalError(d) => String::from_str(
                "External crate internal error: ",
            ).concat(d.as_str()),
            Error::CacheExpired(d) => String::from_str("Cache expired: ").concat(d.as_str()),
            Error::CacheNotFound(d) => String::from_str("Cache not found: ").concat(d.as_str()),
            Error::SerializeError(d) => String::from_str("Serialization failed: ").concat(
                d.as_str(),
            ),
            Error::DeserializeFailed(d) => String::from_str("Deserialization failed: ").concat(
                d.as_str(),
            ),
            Error::ReadFileError(d) => String::from_str("Read file error: ").concat(d.as_str()),
            Error::OpenFileError(d) => String::from_str("Open file error: ").concat(d.as_str()),
            Error::TranslateFailed(d) => String::from_str("Translate `").concat(d.as_str()).concat(
                "` failed",
            ),
            Error::TranslateNetworkError(d) => String::from_str(
                "Network error during translation: ",
            ).concat(d.as_str()),
        }
    }

    pub fn is_miss(&self) -> (b: bool)
        ensures
            b == self.is_cache_miss(),
    {
        match self {
            Error::CacheNotFound(_) => true,
            Error::CacheExpired(_) => true,
            Error::DeserializeFailed(_) => true,
            Error::ReadFileError(_) => true,
            Error::OpenFileError(_) => true,
            _ => false,
        }
    }
}

} // verus!
