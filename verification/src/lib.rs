//! Parser for delimited text records: a line holds a timestamp, a semantic
//! version, a maximum value and a list of integer values.
//!
//! The canonical line grammar treats `|` and `:` as equivalent top-level
//! separators, with `,` reserved for the values list:
//!
//! ```text
//! <timestamp>|<version>|<max>:<v1>,<v2>,...,<vn>
//! ```
//!
//! The timestamp is `YYYY-MM-DD HH:MM`, interpreted as UTC; since its own
//! text holds a `:`, it spans the first two delimiter-bounded segments of
//! the line. The version is `MAJOR.MINOR.PATCH`, optionally followed by a
//! further delimiter and a verbatim extension. Every parse failure is a
//! typed, recoverable error naming the stage that failed.

pub mod entry;
pub mod error;
pub mod num;
pub mod text;
pub mod timestamp;
pub mod version;

pub use error::{EntryErrorKind, EntryField, IntError, ParseEntryError, ParseVersionError,
    VersionField};
pub use entry::{Entry, EntryView};
pub use timestamp::Timestamp;
pub use version::{Version, VersionView};
