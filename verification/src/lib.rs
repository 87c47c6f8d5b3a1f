//! Verified core of a shelf-to-library availability checker.
//!
//! The library scrapes a user's "to-read" shelf from a book catalog site,
//! turns the paginated HTML into an ordered list of books, and, for each
//! book, combines per-library lending probes into a single availability
//! verdict.  All decision logic lives here, verified; network I/O is left
//! to the surrounding application.

pub mod aggregate;
pub mod books;
pub mod catalog;
pub mod directory;
pub mod probe;
pub mod schedule;
pub mod text;
pub mod urlencode;
pub mod urls;
