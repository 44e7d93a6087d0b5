//! The bibliography pipeline.
//!
//! A bibliography is text. The entry extractor and the field extractor turn
//! it into raw entries, the reference mapper turns each raw entry into the
//! record that the site shows, and the module emitter renders the records as
//! the text of a data module. Reading the bibliography and writing the module
//! are left to the caller.

pub mod emitter;
pub mod entry;
pub mod reference;
pub mod sync;

pub use self::emitter::{generate_references_ts, MODULE_HEADER};
pub use self::entry::{
    entry_with_fields, parse_bibtex, set_field, BibEntry, BibEntryView, ENTRY_PATTERN,
    FIELD_PATTERN,
};
pub use self::reference::{
    derive_short_key, derive_surname, entry_to_reference, Reference, ReferenceView,
};
pub use self::sync::{
    read_bib_file, sync_outcome, sync_references, BibSource, SyncPlan, SyncResult, WriteOutcome,
};
