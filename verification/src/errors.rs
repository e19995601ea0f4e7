//! Error values surfaced by the library.
//!
//! Every fallible operation returns an explicit `Result` with one of these
//! values; the library itself never panics and never terminates the process.
//! The not-found case of optional lookups is modelled as `None`, not as an
//! error.

use vstd::prelude::*;

verus! {

/// Everything that can go wrong inside the library, or that the surrounding
/// driver can report into it.
///
/// The variants follow the operations: configuration (`NoStorageConfigured`,
/// `StorageNotAbsolute`), retrieval (`MissingUrlField`, `NoFileName`,
/// `Transport`), ingestion (`Io`, `SizeOverflow`), lookups (`UnknownBlob`,
/// `BlobUnavailable`), and formats (`BadLength`, `BadHexDigit`,
/// `BadManifest`).
#[derive(Debug, PartialEq, Eq)]
pub enum Error {
    /// No storage backend is defined in the user configuration.
    NoStorageConfigured,
    /// A filesystem storage area was configured with a relative path.
    StorageNotAbsolute(String),
    /// A digest string had the wrong length: expected, then actual.
    BadLength { expected: usize, actual: usize },
    /// A digest string held a character that is not a hexadecimal digit.
    BadHexDigit,
    /// An item specification lacks the string "url" field its retrieval
    /// strategy requires.
    MissingUrlField,
    /// No file name could be extracted from the given URL.
    NoFileName(String),
    /// No blob of the given name is known to the manifest.
    UnknownBlob(String),
    /// The named blob is not available from the storage backend.
    BlobUnavailable(String),
    /// A byte stream was longer than a 64-bit size can count.
    SizeOverflow,
    /// An I/O failure reported by the surrounding driver.
    Io(String),
    /// A transport failure reported by the surrounding driver.
    Transport(String),
    /// A persisted manifest could not be understood.
    BadManifest(String),
    /// An ingestion-mode word that names no known mode.
    UnknownIngestMode(String),
}

impl Clone for Error {
    fn clone(&self) -> (r: Self)
        ensures
            r == self,
    {
        match self {
            Error::NoStorageConfigured => Error::NoStorageConfigured,
            Error::StorageNotAbsolute(s) => Error::StorageNotAbsolute(s.clone()),
            Error::BadLength { expected, actual } => Error::BadLength {
                expected: *expected,
                actual: *actual,
            },
            Error::BadHexDigit => Error::BadHexDigit,
            Error::MissingUrlField => Error::MissingUrlField,
            Error::NoFileName(s) => Error::NoFileName(s.clone()),
            Error::UnknownBlob(s) => Error::UnknownBlob(s.clone()),
            Error::BlobUnavailable(s) => Error::BlobUnavailable(s.clone()),
            Error::SizeOverflow => Error::SizeOverflow,
            Error::Io(s) => Error::Io(s.clone()),
            Error::Transport(s) => Error::Transport(s.clone()),
            Error::BadManifest(s) => Error::BadManifest(s.clone()),
            Error::UnknownIngestMode(s) => Error::UnknownIngestMode(s.clone()),
        }
    }
}

impl Error {
    /// A short, fixed description of the error category.
    pub fn category(&self) -> (r: &'static str)
        ensures
            r@ == self.spec_category(),
    {
        match self {
            Error::NoStorageConfigured => "no storage backends defined in the config file",
            Error::StorageNotAbsolute(_) => "filesystem storage path must be absolute",
            Error::BadLength { .. } => "hexadecimal digest string has the wrong length",
            Error::BadHexDigit => "hexadecimal digest string holds a non-hex character",
            Error::MissingUrlField => "item is missing a string \"url\" field",
            Error::NoFileName(_) => "cannot extract a file name from the URL",
            Error::UnknownBlob(_) => "no known blob with this name",
            Error::BlobUnavailable(_) => "blob not available",
            Error::SizeOverflow => "byte stream too long to count",
            Error::Io(_) => "I/O failure",
            Error::Transport(_) => "transport failure",
            Error::BadManifest(_) => "malformed manifest",
            Error::UnknownIngestMode(_) => "unrecognized ingestion mode",
        }
    }

    /// What `category` returns for each variant.
    pub open spec fn spec_category(&self) -> Seq<char> {
        match self {
            Error::NoStorageConfigured => "no storage backends defined in the config file"@,
            Error::StorageNotAbsolute(_) => "filesystem storage path must be absolute"@,
            Error::BadLength { .. } => "hexadecimal digest string has the wrong length"@,
            Error::BadHexDigit => "hexadecimal digest string holds a non-hex character"@,
            Error::MissingUrlField => "item is missing a string \"url\" field"@,
            Error::NoFileName(_) => "cannot extract a file name from the URL"@,
            Error::UnknownBlob(_) => "no known blob with this name"@,
            Error::BlobUnavailable(_) => "blob not available"@,
            Error::SizeOverflow => "byte stream too long to count"@,
            Error::Io(_) => "I/O failure"@,
            Error::Transport(_) => "transport failure"@,
            Error::BadManifest(_) => "malformed manifest"@,
            Error::UnknownIngestMode(_) => "unrecognized ingestion mode"@,
        }
    }

    /// The free-form detail attached to the error, where one is carried.
    pub fn detail(&self) -> (r: Option<&String>)
        ensures
            match self {
                Error::StorageNotAbsolute(s) => r == Some(s),
                Error::NoFileName(s) => r == Some(s),
                Error::UnknownBlob(s) => r == Some(s),
                Error::BlobUnavailable(s) => r == Some(s),
                Error::Io(s) => r == Some(s),
                Error::Transport(s) => r == Some(s),
                Error::BadManifest(s) => r == Some(s),
                Error::UnknownIngestMode(s) => r == Some(s),
                _ => r is None,
            },
    {
        match self {
            Error::StorageNotAbsolute(s) => Some(s),
            Error::NoFileName(s) => Some(s),
            Error::UnknownBlob(s) => Some(s),
            Error::BlobUnavailable(s) => Some(s),
            Error::Io(s) => Some(s),
            Error::Transport(s) => Some(s),
            Error::BadManifest(s) => Some(s),
            Error::UnknownIngestMode(s) => Some(s),
            _ => None,
        }
    }
}

} // verus!
