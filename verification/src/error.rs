//! Why a document yields no hash line.

use vstd::prelude::*;
use vstd::string::*;

verus! {

/// `std::io::Error`: opaque here.
#[verifier::external_type_specification]
#[verifier::external_body]
pub struct ExIoError(std::io::Error);

/// Why a typed lookup in a dictionary gave no value.
#[derive(Clone, Copy, Debug, PartialEq, Eq, Structural)]
pub enum Absent {
    /// The key is not in the dictionary.
    Missing,
    /// The key is there, with a value of another kind.
    Invalid,
}

/// Why a document yields no record.
#[derive(Debug)]
pub enum ExtractError {
    /// The file could not be read.
    Io(std::io::Error),
    /// The bytes are not a document that the parser accepts.
    Pdf(lopdf::Error),
    /// The document declares no encryption dictionary.
    NotEncrypted,
    /// A required entry, named as in the PDF, is absent.
    MissingField(&'static str),
    /// A required entry, named as in the PDF, holds a value of the wrong kind.
    InvalidField(&'static str),
}

/// The `Display` text of an `lopdf::Error`: the parser's own description
/// of why it rejected the bytes. Nothing is claimed of it.
#[verifier::external_body]
fn pdf_error_text(error: &lopdf::Error) -> String {
    format!("{error}")
}

/// The `Display` text of a `std::io::Error`: the system's description of
/// why a file could not be read. Nothing is claimed of it.
#[verifier::external_body]
fn io_error_text(error: &std::io::Error) -> String {
    format!("{error}")
}

impl From<std::io::Error> for ExtractError {
    fn from(error: std::io::Error) -> (r: ExtractError) {
        ExtractError::Io(error)
    }
}

impl vstd::std_specs::convert::FromSpecImpl<std::io::Error> for ExtractError {
    open spec fn obeys_from_spec() -> bool {
        true
    }

    open spec fn from_spec(error: std::io::Error) -> ExtractError {
        ExtractError::Io(error)
    }
}

impl From<lopdf::Error> for ExtractError {
    fn from(error: lopdf::Error) -> (r: ExtractError) {
        ExtractError::Pdf(error)
    }
}

impl vstd::std_specs::convert::FromSpecImpl<lopdf::Error> for ExtractError {
    open spec fn obeys_from_spec() -> bool {
        true
    }

    open spec fn from_spec(error: lopdf::Error) -> ExtractError {
        ExtractError::Pdf(error)
    }
}

impl ExtractError {
    /// The message of a failure whose underlying error, if it has one,
    /// describes itself as `detail`: a fixed text for each kind of failure,
    /// followed by that description or by the field's name.
    pub open spec fn message_text(self, detail: Seq<char>) -> Seq<char> {
        match self {
            ExtractError::Io(_) => "I/O error: "@ + detail,
            ExtractError::Pdf(_) => "PDF error: "@ + detail,
            ExtractError::NotEncrypted => "File is not encrypted"@,
            ExtractError::MissingField(name) => "Missing field: "@ + name@,
            ExtractError::InvalidField(name) => "Invalid field: "@ + name@,
        }
    }

    /// Composes the message from the description of the underlying error.
    /// A failure without an underlying error makes no use of `detail`.
    pub fn message_with(&self, detail: &str) -> (text: String)
        ensures
            text@ == self.message_text(detail@),
    {
        match self {
            ExtractError::Io(_) => String::from_str("I/O error: ").concat(detail),
            ExtractError::Pdf(_) => String::from_str("PDF error: ").concat(detail),
            ExtractError::NotEncrypted => String::from_str("File is not encrypted"),
            ExtractError::MissingField(name) => String::from_str("Missing field: ").concat(name),
            ExtractError::InvalidField(name) => String::from_str("Invalid field: ").concat(name),
        }
    }

    /// The message for the user. For a failure of reading or parsing, the
    /// description is the one that the underlying error gives of itself,
    /// of which nothing is known here.
    pub fn message(&self) -> (text: String)
        ensures
            exists|detail: Seq<char>| #[trigger] self.message_text(detail) == text@,
            !(*self is Io || *self is Pdf) ==> text@ == self.message_text(Seq::empty()),
    {
        let detail = match self {
            ExtractError::Io(error) => io_error_text(error),
            ExtractError::Pdf(error) => pdf_error_text(error),
            _ => String::new(),
        };
        let text = self.message_with(detail.as_str());
        assert(self.message_text(detail@) == text@);
        text
    }
}

/// The error for a required field whose lookup gave no value.
pub open spec fn field_failure(name: &'static str, why: Absent) -> ExtractError {
    match why {
        Absent::Missing => ExtractError::MissingField(name),
        Absent::Invalid => ExtractError::InvalidField(name),
    }
}

/// Builds the error for a required field whose lookup gave no value.
pub fn field_error(name: &'static str, why: Absent) -> (e: ExtractError)
    ensures
        e == field_failure(name, why),
{
    match why {
        Absent::Missing => ExtractError::MissingField(name),
        Absent::Invalid => ExtractError::InvalidField(name),
    }
}

} // verus!
