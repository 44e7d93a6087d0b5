//! Bibliography synchronisation and blog-post templating.
//!
//! The library turns the text of a bibliography into raw entries, maps each
//! entry to the record a static site shows, and renders the set of records as
//! the text of a data module. It also holds the text rules of the blog: the
//! file of a post, the listing, and slugs.
//!
//! Nothing here touches a file. The caller reads and writes, and hands the
//! library what reading gave.

pub mod bibtex;
pub mod blog;
pub mod number;
pub mod pattern;
pub mod search;
pub mod split;
pub mod text;
