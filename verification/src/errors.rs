//! The error taxonomy shared by table loading, mutation and resolution.

use vstd::prelude::*;

verus! {

/// A failure reported by the color-table operations.
///
/// Every failure is returned as a typed value; nothing panics. The variants
/// are distinguishable so that callers can branch on "malformed input"
/// versus an I/O or network fault.
#[derive(Debug)]
pub enum NamedColorsError {
    /// The input text is not a well-formed color table. `offset` is the
    /// character position at which decoding failed.
    ParseError { offset: usize },
    /// A mutation tried to reuse a name already present; carries the
    /// normalized (lowercase) name.
    DuplicateEntryError { name: String },
    /// A filesystem failure while reading or writing the local cache.
    IOError { detail: String },
    /// A network failure, or a non-success response, while fetching the
    /// remote table.
    FetchError { detail: String },
}

impl NamedColorsError {
    /// The characters of the human-readable message for this error.
    pub open spec fn spec_message(&self) -> Seq<char> {
        match self {
            NamedColorsError::ParseError { offset } => "Parse error: malformed color table"@,
            NamedColorsError::DuplicateEntryError { name } => "The color '"@ + name@
                + "' already exists."@,
            NamedColorsError::IOError { detail } => "I/O error: "@ + detail@,
            NamedColorsError::FetchError { detail } => "Fetch error: "@ + detail@,
        }
    }

    /// Renders the human-readable message for this error.
    pub fn message(&self) -> (result: String)
        ensures
            result@ == self.spec_message(),
    {
        match self {
            NamedColorsError::ParseError { offset: _ } => "Parse error: malformed color table".to_owned(),
            NamedColorsError::DuplicateEntryError { name } => {
                let mut m = "The color '".to_owned();
                m.append(name.as_str());
                m.append("' already exists.");
                m
            },
            NamedColorsError::IOError { detail } => {
                let mut m = "I/O error: ".to_owned();
                m.append(detail.as_str());
                m
            },
            NamedColorsError::FetchError { detail } => {
                let mut m = "Fetch error: ".to_owned();
                m.append(detail.as_str());
                m
            },
        }
    }
}

} // verus!
