//! The failures that the library reports.

use vstd::prelude::*;

verus! {

/// Why an operation on the library was refused.
#[derive(Clone, Copy, Debug, PartialEq, Eq, Structural)]
pub enum LibraryError {
    /// No record carries the requested identifier.
    NotFound,
    /// A record with the same title and author is already present.
    Duplicate,
    /// A backup document has neither of the two known shapes.
    InvalidBackup,
    /// A cover was to be fetched from an empty or blank address.
    EmptyUrl,
}

/// The sentence shown to the user for each failure.
pub open spec fn message_text(e: LibraryError) -> Seq<char> {
    match e {
        LibraryError::NotFound => "Book not found"@,
        LibraryError::Duplicate => "Book already exists in library"@,
        LibraryError::InvalidBackup => "Invalid backup file"@,
        LibraryError::EmptyUrl => "empty url"@,
    }
}

impl LibraryError {
    /// The short human-readable text of this failure.
    pub fn message(&self) -> (r: String)
        ensures
            r@ == message_text(*self),
    {
        match self {
            LibraryError::NotFound => "Book not found".to_owned(),
            LibraryError::Duplicate => "Book already exists in library".to_owned(),
            LibraryError::InvalidBackup => "Invalid backup file".to_owned(),
            LibraryError::EmptyUrl => "empty url".to_owned(),
        }
    }
}

} // verus!
