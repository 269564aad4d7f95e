//! Agenda aggregation for outline documents.
//!
//! Each headline of a document may carry scheduling annotations. The
//! library resolves every annotation into occurrences on a timeline and
//! merges the occurrences of all documents into one agenda: strictly
//! ascending by time, then by label, with nothing listed twice.
//!
//! [`build_agenda`] is the entry point. It takes documents that have been
//! loaded and parsed already and does no input or output of its own.

pub mod agenda;
pub mod annotation;
pub mod label;
pub mod occurrence;
pub mod outline;
pub mod report;
pub mod time;

pub use agenda::Agenda;
pub use annotation::{resolve, Annotation, TimePoint, UnsupportedAnnotation};
pub use occurrence::{compose_line, Occurrence};
pub use outline::{scan, Finding, Headline, OrgFile, Planning};
pub use report::{build_agenda, AgendaReport};
pub use time::Instant;
