//! The reference mapper: from a raw entry to its short key and its record.

use crate::bibtex::entry::{BibEntry, BibEntryView};
use crate::number::{parse_i32, parsed_i32};
use crate::search::{find_char, first_index};
use crate::split::{remove_char, split, split_chars, without_char};
use crate::text::{
    chars_of, extend_chars, last_word, last_word_of, lemma_chars_view, string_of, text_of,
};
use vstd::prelude::*;
use vstd::string::StringExecFns;

verus! {

/// The record that the site shows for one bibliography entry.
#[derive(Debug)]
pub struct Reference {
    pub author: String,
    pub year: i32,
    pub title: String,
    pub short_cite: String,
    pub booktitle: Option<String>,
    pub pages: Option<String>,
    pub publisher: Option<String>,
    pub url: Option<String>,
}

/// The mathematical value of a [`Reference`].
pub struct ReferenceView {
    pub author: Seq<char>,
    pub year: int,
    pub title: Seq<char>,
    pub short_cite: Seq<char>,
    pub booktitle: Option<Seq<char>>,
    pub pages: Option<Seq<char>>,
    pub publisher: Option<Seq<char>>,
    pub url: Option<Seq<char>>,
}

impl View for Reference {
    type V = ReferenceView;

    open spec fn view(&self) -> ReferenceView {
        ReferenceView {
            author: self.author@,
            year: self.year as int,
            title: self.title@,
            short_cite: self.short_cite@,
            booktitle: text_of(self.booktitle),
            pages: text_of(self.pages),
            publisher: text_of(self.publisher),
            url: text_of(self.url),
        }
    }
}

/// The short key of a citation key: the key without hyphens, cut into parts
/// at each underscore, of which the first two are laid end to end.
pub open spec fn short_key(key: Seq<char>) -> Seq<char> {
    let parts = split(without_char(key, '-'), '_');
    if parts.len() >= 2 {
        parts[0] + parts[1]
    } else {
        parts[0]
    }
}

/// The surname in an author field: the last word of what stands before the
/// first comma, and `Unknown` where that holds no word.
pub open spec fn surname(author: Seq<char>) -> Seq<char> {
    let word = last_word(author.take(first_index(author, ',')));
    if word.len() == 0 {
        "Unknown"@
    } else {
        word
    }
}

/// The short citation: the surname, a comma and a space, and the year as it
/// was written.
pub open spec fn short_cite(author: Seq<char>, year: Seq<char>) -> Seq<char> {
    surname(author) + ", "@ + year
}

/// The year as a number, 0 where the text is no `i32`.
pub open spec fn year_number(year: Seq<char>) -> int {
    match parsed_i32(year) {
        Some(n) => n as int,
        None => 0,
    }
}

/// The publisher of an entry: its publisher, else its journal.
pub open spec fn publisher_of(e: BibEntryView) -> Option<Seq<char>> {
    if e.publisher is Some {
        e.publisher
    } else {
        e.journal
    }
}

/// The record of a raw entry.
pub open spec fn reference_of(e: BibEntryView) -> ReferenceView {
    ReferenceView {
        author: e.author,
        year: year_number(e.year),
        title: e.title,
        short_cite: short_cite(e.author, e.year),
        booktitle: e.booktitle,
        pages: e.pages,
        publisher: publisher_of(e),
        url: e.url,
    }
}

/// A copy of an optional text.
fn copy_of(field: &Option<String>) -> (r: Option<String>)
    ensures
        text_of(r) == text_of(*field),
{
    match field {
        Some(s) => Some(s.clone()),
        None => None,
    }
}

/// Derives the short key of a citation key.
pub fn derive_short_key(key: &str) -> (r: String)
    ensures
        r@ == short_key(key@),
{
    let parts = split_chars(&remove_char(&chars_of(key), '-'), '_');
    assert(parts.len() >= 1) by {
        assert(split(without_char(key@, '-'), '_').len() >= 1);
    }
    let mut out: Vec<char> = Vec::new();
    proof {
        lemma_chars_view(parts[0]);
    }
    extend_chars(&mut out, &parts[0]);
    if parts.len() >= 2 {
        proof {
            lemma_chars_view(parts[1]);
        }
        extend_chars(&mut out, &parts[1]);
    }
    assert(out@ =~= short_key(key@));
    string_of(&out)
}

/// Derives the surname from an author field.
pub fn derive_surname(author: &str) -> (r: String)
    ensures
        r@ == surname(author@),
{
    let v = chars_of(author);
    let k = find_char(&v, 0, ',');
    assert(v@.skip(0) =~= v@);
    let word = last_word_of(&v, k);
    if word.len() == 0 {
        "Unknown".to_string()
    } else {
        string_of(&word)
    }
}

/// Maps a raw entry to its short key and its record.
///
/// The year is the number that the year field writes, and 0 where it writes
/// none; the short citation keeps the year field as it stands.
pub fn entry_to_reference(entry: &BibEntry) -> (r: (String, Reference))
    ensures
        r.0@ == short_key(entry@.key),
        r.1@ == reference_of(entry@),
{
    let ts_key = derive_short_key(entry.key.as_str());
    let year: i32 = match parse_i32(entry.year.as_str()) {
        Some(n) => n,
        None => 0,
    };
    let mut short_cite = derive_surname(entry.author.as_str());
    short_cite.append(", ");
    short_cite.append(entry.year.as_str());
    let publisher = match &entry.publisher {
        Some(p) => Some(p.clone()),
        None => copy_of(&entry.journal),
    };
    (
        ts_key,
        Reference {
            author: entry.author.clone(),
            year,
            title: entry.title.clone(),
            short_cite,
            booktitle: copy_of(&entry.booktitle),
            pages: copy_of(&entry.pages),
            publisher,
            url: copy_of(&entry.url),
        },
    )
}

} // verus!
