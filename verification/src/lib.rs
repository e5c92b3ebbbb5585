//! Extraction of the encryption parameters of a PDF document and their
//! rendering as a `$pdf$` hash line for offline password crackers.

pub mod error;
pub mod extract;
pub mod format;
pub mod limits;
pub mod pdf;
pub mod text;

pub use error::ExtractError;
pub use extract::PdfHashExtractor;
pub use limits::max_password_length;
