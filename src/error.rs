//! The error taxonomy of the library.

use vstd::prelude::*;
use vstd::string::StringExecFns;
use crate::text::{decimal, decimal_text, decimal_text_u64};

verus! {

/// Every failure that an operation of the library can report.
#[derive(Debug, Clone, PartialEq, Eq)]
pub enum FlashFindError {
    /// A file could not be read.
    FileReadError { path: String },
    /// A file could not be written.
    FileWriteError { path: String },
    /// A directory could not be created.
    DirectoryCreationError { path: String },
    /// A path without a usable file name.
    InvalidPath(String),
    /// The stored index could not be decoded.
    CorruptedIndex,
    /// The index holds as many paths as it may.
    IndexFull(usize),
    /// A path could not be inserted.
    InsertionFailed(String),
    /// The change watcher could not start; the text says why.
    WatcherInitError(String),
    /// A directory could not be watched.
    WatchError { path: String },
    /// An operation ran out of time, after the given seconds.
    Timeout(u64),
    /// A background thread stopped unexpectedly.
    ThreadPanic(String),
    /// The configuration could not be used.
    InvalidConfig(String),
    /// The stored index has another layout version.
    VersionMismatch { found: u32, expected: u32 },
    /// The path could not be accessed.
    PermissionDenied(String),
    /// A well-known system folder could not be found.
    SystemFolderError(String),
    /// Memory ran out while indexing.
    OutOfMemory,
    /// The user cancelled the operation.
    Cancelled,
    /// The query could not be used.
    InvalidQuery(String),
}

} // verus!

verus! {

/// The technical description of an error.
pub open spec fn message_of(e: FlashFindError) -> Seq<char> {
    match e {
        FlashFindError::FileReadError { path } => "Failed to read file: "@ + path@,
        FlashFindError::FileWriteError { path } => "Failed to write file: "@ + path@,
        FlashFindError::DirectoryCreationError { path } => "Failed to create directory: "@ + path@,
        FlashFindError::InvalidPath(p) => "Invalid path: "@ + p@,
        FlashFindError::CorruptedIndex => "Index is corrupted or in invalid format"@,
        FlashFindError::IndexFull(n) => "Index has reached maximum capacity of "@ + decimal(n as nat) + " files"@,
        FlashFindError::InsertionFailed(p) => "Failed to insert path into index: "@ + p@,
        FlashFindError::WatcherInitError(_) => "Failed to initialize filesystem watcher"@,
        FlashFindError::WatchError { path } => "Failed to watch directory: "@ + path@,
        FlashFindError::Timeout(s) => "Operation timed out after "@ + decimal(s as nat) + " seconds"@,
        FlashFindError::ThreadPanic(m) => "Background thread panicked: "@ + m@,
        FlashFindError::InvalidConfig(m) => "Invalid configuration: "@ + m@,
        FlashFindError::VersionMismatch { found, expected } =>
            "Unsupported index version: "@ + decimal(found as nat) + ", expected: "@ + decimal(expected as nat),
        FlashFindError::PermissionDenied(p) => "Insufficient permissions to access: "@ + p@,
        FlashFindError::SystemFolderError(m) => "Failed to get system folder: "@ + m@,
        FlashFindError::OutOfMemory => "Out of memory while indexing"@,
        FlashFindError::Cancelled => "Operation cancelled by user"@,
        FlashFindError::InvalidQuery(q) => "Invalid query: "@ + q@,
    }
}

/// The message shown to a user for an error.
pub open spec fn user_message_of(e: FlashFindError) -> Seq<char> {
    match e {
        FlashFindError::IndexFull(n) =>
            "Index is full. Maximum "@ + decimal(n as nat) + " files supported. Consider excluding more directories."@,
        FlashFindError::CorruptedIndex => "Index file is corrupted. It will be rebuilt."@,
        FlashFindError::OutOfMemory => "Out of memory. Try excluding large directories or reducing index size."@,
        FlashFindError::PermissionDenied(p) => "Cannot access '"@ + p@ + "'. Permission denied."@,
        FlashFindError::WatcherInitError(_) => "Cannot monitor file changes. Real-time updates disabled."@,
        _ => message_of(e),
    }
}

/// `a` followed by `b`.
fn joined(a: &str, b: &str) -> (r: String)
    ensures
        r@ == a@ + b@,
{
    String::from_str(a).concat(b)
}

impl FlashFindError {
    /// Whether an operation may go on after this error: a timeout, a
    /// cancellation, an unusable query or a directory that cannot be watched.
    pub fn is_recoverable(&self) -> (r: bool)
        ensures
            r == (self matches FlashFindError::Timeout(_) || self matches FlashFindError::Cancelled
                || self matches FlashFindError::InvalidQuery(_) || self matches FlashFindError::WatchError { .. }),
    {
        match self {
            FlashFindError::Timeout(_) => true,
            FlashFindError::Cancelled => true,
            FlashFindError::InvalidQuery(_) => true,
            FlashFindError::WatchError { .. } => true,
            _ => false,
        }
    }

    /// The technical description of this error.
    pub fn message(&self) -> (r: String)
        ensures
            r@ == message_of(*self),
    {
        match self {
            FlashFindError::FileReadError { path } => joined("Failed to read file: ", path.as_str()),
            FlashFindError::FileWriteError { path } => joined("Failed to write file: ", path.as_str()),
            FlashFindError::DirectoryCreationError { path } => joined("Failed to create directory: ", path.as_str()),
            FlashFindError::InvalidPath(p) => joined("Invalid path: ", p.as_str()),
            FlashFindError::CorruptedIndex => String::from_str("Index is corrupted or in invalid format"),
            FlashFindError::IndexFull(n) => {
                let d = decimal_text(*n);
                joined(joined("Index has reached maximum capacity of ", d.as_str()).as_str(), " files")
            },
            FlashFindError::InsertionFailed(p) => joined("Failed to insert path into index: ", p.as_str()),
            FlashFindError::WatcherInitError(_) => String::from_str("Failed to initialize filesystem watcher"),
            FlashFindError::WatchError { path } => joined("Failed to watch directory: ", path.as_str()),
            FlashFindError::Timeout(s) => {
                let d = decimal_text_u64(*s);
                joined(joined("Operation timed out after ", d.as_str()).as_str(), " seconds")
            },
            FlashFindError::ThreadPanic(m) => joined("Background thread panicked: ", m.as_str()),
            FlashFindError::InvalidConfig(m) => joined("Invalid configuration: ", m.as_str()),
            FlashFindError::VersionMismatch { found, expected } => {
                let f = decimal_text_u64(*found as u64);
                let e = decimal_text_u64(*expected as u64);
                let head = joined(joined("Unsupported index version: ", f.as_str()).as_str(), ", expected: ");
                joined(head.as_str(), e.as_str())
            },
            FlashFindError::PermissionDenied(p) => joined("Insufficient permissions to access: ", p.as_str()),
            FlashFindError::SystemFolderError(m) => joined("Failed to get system folder: ", m.as_str()),
            FlashFindError::OutOfMemory => String::from_str("Out of memory while indexing"),
            FlashFindError::Cancelled => String::from_str("Operation cancelled by user"),
            FlashFindError::InvalidQuery(q) => joined("Invalid query: ", q.as_str()),
        }
    }

    /// The message shown to a user: a plainer wording for a full or
    /// corrupted index, a lack of memory or permission and a watcher that
    /// cannot start; the technical description otherwise.
    pub fn user_message(&self) -> (r: String)
        ensures
            r@ == user_message_of(*self),
    {
        match self {
            FlashFindError::IndexFull(n) => {
                let d = decimal_text(*n);
                joined(joined("Index is full. Maximum ", d.as_str()).as_str(),
                    " files supported. Consider excluding more directories.")
            },
            FlashFindError::CorruptedIndex => String::from_str("Index file is corrupted. It will be rebuilt."),
            FlashFindError::OutOfMemory =>
                String::from_str("Out of memory. Try excluding large directories or reducing index size."),
            FlashFindError::PermissionDenied(p) =>
                joined(joined("Cannot access '", p.as_str()).as_str(), "'. Permission denied."),
            FlashFindError::WatcherInitError(_) =>
                String::from_str("Cannot monitor file changes. Real-time updates disabled."),
            _ => self.message(),
        }
    }
}

} // verus!
