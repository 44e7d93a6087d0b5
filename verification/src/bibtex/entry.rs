//! Raw entries: the entry extractor and the field extractor.
//!
//! The grammar is held in two patterns, which the `regex` crate matches. The
//! extractor finds the head of each entry and cuts the bibliography at the
//! heads; the text behind a head, up to the next head, is the field block of
//! that entry. The fields of a block are the matches of the field pattern.

use crate::pattern::{captures_of, group, group_text, regex_captures, regex_split, split_by};
use crate::search::{replace, replaced};
use crate::text::{
    is_trimmed, lemma_trimmed_is_trimmed, lowercase_of, text_of, trim, trimmed,
};
use vstd::prelude::*;

verus! {

/// One entry of a bibliography as it was written, field by field.
#[derive(Debug, Clone)]
pub struct BibEntry {
    pub key: String,
    pub entry_type: String,
    pub author: String,
    pub year: String,
    pub title: String,
    pub url: Option<String>,
    pub booktitle: Option<String>,
    pub pages: Option<String>,
    pub publisher: Option<String>,
    pub journal: Option<String>,
}

/// The mathematical value of a [`BibEntry`].
pub struct BibEntryView {
    pub key: Seq<char>,
    pub entry_type: Seq<char>,
    pub author: Seq<char>,
    pub year: Seq<char>,
    pub title: Seq<char>,
    pub url: Option<Seq<char>>,
    pub booktitle: Option<Seq<char>>,
    pub pages: Option<Seq<char>>,
    pub publisher: Option<Seq<char>>,
    pub journal: Option<Seq<char>>,
}

impl View for BibEntry {
    type V = BibEntryView;

    open spec fn view(&self) -> BibEntryView {
        BibEntryView {
            key: self.key@,
            entry_type: self.entry_type@,
            author: self.author@,
            year: self.year@,
            title: self.title@,
            url: text_of(self.url),
            booktitle: text_of(self.booktitle),
            pages: text_of(self.pages),
            publisher: text_of(self.publisher),
            journal: text_of(self.journal),
        }
    }
}

/// Whether `e` is a raw entry as the extractor gives it: it has a key, and
/// the key has no whitespace around it.
pub open spec fn well_formed(e: BibEntryView) -> bool {
    e.key.len() > 0 && is_trimmed(e.key)
}

/// The pattern of the head of an entry: `@`, the entry's type, `{`, and the
/// key up to the first comma, comma included.
pub const ENTRY_PATTERN: &'static str = r"@(\w+)\s*\{\s*([^,]+),";

/// The pattern of one field: a name, `=`, and a value between braces or
/// quotes that may hold one more level of braces.
pub const FIELD_PATTERN: &'static str = r#"(\w+)\s*=\s*[{"]((?:[^{}"]|(?:\{[^}]*\}))*)[}"]"#;

/// An entry of the given type and key with no field set.
pub open spec fn blank_entry(entry_type: Seq<char>, key: Seq<char>) -> BibEntryView {
    BibEntryView {
        key,
        entry_type,
        author: Seq::empty(),
        year: Seq::empty(),
        title: Seq::empty(),
        url: None,
        booktitle: None,
        pages: None,
        publisher: None,
        journal: None,
    }
}

/// A page range with every `--` written as `-`.
pub open spec fn normal_pages(value: Seq<char>) -> Seq<char> {
    replaced(value, "--"@, "-"@)
}

/// `e` after the field `name` was read with the value `value`. The name is
/// taken as lower-cased and the value as trimmed. A field the entry does not
/// keep leaves it unchanged; a field read again replaces what was there.
pub open spec fn with_field(e: BibEntryView, name: Seq<char>, value: Seq<char>) -> BibEntryView {
    if name == "author"@ {
        BibEntryView { author: value, ..e }
    } else if name == "year"@ {
        BibEntryView { year: value, ..e }
    } else if name == "title"@ {
        BibEntryView { title: value, ..e }
    } else if name == "url"@ {
        BibEntryView { url: Some(value), ..e }
    } else if name == "booktitle"@ {
        BibEntryView { booktitle: Some(value), ..e }
    } else if name == "pages"@ {
        BibEntryView { pages: Some(normal_pages(value)), ..e }
    } else if name == "publisher"@ {
        BibEntryView { publisher: Some(value), ..e }
    } else if name == "journal"@ {
        BibEntryView { journal: Some(value), ..e }
    } else {
        e
    }
}

/// `e` after the matched fields were read in order: the name of each is its
/// group 1 lower-cased, the value its group 2 trimmed.
pub open spec fn with_fields(e: BibEntryView, fields: Seq<Seq<Option<Seq<char>>>>) -> BibEntryView
    decreases fields.len(),
{
    if fields.len() == 0 {
        e
    } else {
        with_field(
            with_fields(e, fields.drop_last()),
            lowercase_of(group_text(fields.last(), 1)),
            trimmed(group_text(fields.last(), 2)),
        )
    }
}

/// The fields found in a field block, in order; none where the search could
/// not be made.
pub open spec fn fields_in(block: Seq<char>) -> Seq<Seq<Option<Seq<char>>>> {
    match regex_captures(FIELD_PATTERN@, block) {
        Some(fields) => fields,
        None => Seq::empty(),
    }
}

/// The heads of the entries recognised in a bibliography, in source order;
/// none where the search could not be made.
pub open spec fn heads_in(content: Seq<char>) -> Seq<Seq<Option<Seq<char>>>> {
    match regex_captures(ENTRY_PATTERN@, content) {
        Some(heads) => heads,
        None => Seq::empty(),
    }
}

/// The bibliography cut at the heads of its entries: what stands before the
/// first head, then what stands behind each head up to the next head or to
/// the end of the text.
pub open spec fn parts_in(content: Seq<char>) -> Seq<Seq<char>> {
    match regex_split(ENTRY_PATTERN@, content) {
        Some(parts) => parts,
        None => Seq::empty(),
    }
}

/// The field block of entry `i`: the part that stands behind its head.
pub open spec fn block_of(parts: Seq<Seq<char>>, i: int) -> Seq<char> {
    if 0 <= i && i + 1 < parts.len() {
        parts[i + 1]
    } else {
        Seq::empty()
    }
}

/// The key that the head of an entry carries: its group 2, trimmed.
pub open spec fn key_of(head: Seq<Option<Seq<char>>>) -> Seq<char> {
    trimmed(group_text(head, 2))
}

/// The entry with the given head and field block: the type is group 1 of
/// the head lower-cased, the key its group 2 trimmed, and the fields are
/// those found in the block.
pub open spec fn entry_of(head: Seq<Option<Seq<char>>>, block: Seq<char>) -> BibEntryView {
    with_fields(blank_entry(lowercase_of(group_text(head, 1)), key_of(head)), fields_in(block))
}

/// The entries of the first `n` heads, in order, without the heads whose
/// key is blank.
pub open spec fn entries_of(heads: Seq<Seq<Option<Seq<char>>>>, parts: Seq<Seq<char>>, n: nat) -> Seq<
    BibEntryView,
>
    decreases n,
{
    if n == 0 || n > heads.len() {
        Seq::empty()
    } else if key_of(heads[n - 1]).len() == 0 {
        entries_of(heads, parts, (n - 1) as nat)
    } else {
        entries_of(heads, parts, (n - 1) as nat).push(
            entry_of(heads[n - 1], block_of(parts, n - 1)),
        )
    }
}

/// The raw entries of a bibliography.
pub open spec fn parsed(content: Seq<char>) -> Seq<BibEntryView> {
    entries_of(heads_in(content), parts_in(content), heads_in(content).len())
}

/// The views of a list of entries.
pub open spec fn entry_views(entries: Seq<BibEntry>) -> Seq<BibEntryView> {
    entries.map_values(|e: BibEntry| e@)
}

/// Reads one field into `entry`. `name` is the field's name in lower case
/// and `value` its trimmed value.
pub fn set_field(entry: &mut BibEntry, name: &str, value: String)
    ensures
        final(entry)@ == with_field(old(entry)@, name@, value@),
        well_formed(old(entry)@) ==> well_formed(final(entry)@),
{
    let name = name.to_string();
    if name == "author".to_string() {
        entry.author = value;
    } else if name == "year".to_string() {
        entry.year = value;
    } else if name == "title".to_string() {
        entry.title = value;
    } else if name == "url".to_string() {
        entry.url = Some(value);
    } else if name == "booktitle".to_string() {
        entry.booktitle = Some(value);
    } else if name == "pages".to_string() {
        entry.pages = Some(replace(value.as_str(), "--", "-"));
    } else if name == "publisher".to_string() {
        entry.publisher = Some(value);
    } else if name == "journal".to_string() {
        entry.journal = Some(value);
    }
}

/// Builds the entry of the given type and key from the fields matched in its
/// block, read in order.
pub fn entry_with_fields(entry_type: String, key: String, fields: &Vec<Vec<Option<String>>>) -> (entry:
    BibEntry)
    ensures
        entry@ == with_fields(blank_entry(entry_type@, key@), fields.deep_view()),
        entry@.key == key@,
        entry@.entry_type == entry_type@,
{
    let mut entry = BibEntry {
        key,
        entry_type,
        author: String::new(),
        year: String::new(),
        title: String::new(),
        url: None,
        booktitle: None,
        pages: None,
        publisher: None,
        journal: None,
    };
    let ghost blank = entry@;
    let mut i: usize = 0;
    while i < fields.len()
        invariant
            i <= fields.len(),
            entry@ == with_fields(blank, fields.deep_view().take(i as int)),
        decreases fields.len() - i,
    {
        assert(fields.deep_view().take(i + 1).drop_last() =~= fields.deep_view().take(i as int));
        assert(fields.deep_view()[i as int] == fields[i as int].deep_view());
        let name = group(&fields[i], 1).as_str().to_lowercase();
        let value = trim(group(&fields[i], 2).as_str());
        set_field(&mut entry, name.as_str(), value);
        i += 1;
    }
    assert(fields.deep_view().take(fields.len() as int) =~= fields.deep_view());
    proof {
        lemma_fields_keep_key(blank, fields.deep_view());
    }
    entry
}

/// Extracts the raw entries of a bibliography, in source order.
///
/// An entry is a match of the entry pattern whose key is not blank. Its
/// field block runs from behind the key's comma to the next entry or to the
/// end of the text, and its fields are the matches of the field pattern in
/// that block. Text that matches neither is passed over, so every input
/// gives a list, possibly empty.
pub fn parse_bibtex(content: &str) -> (entries: Vec<BibEntry>)
    ensures
        entry_views(entries@) == parsed(content@),
        forall|i: int| 0 <= i < entries.len() ==> well_formed((#[trigger] entries[i])@),
{
    let mut entries: Vec<BibEntry> = Vec::new();
    let heads = match captures_of(ENTRY_PATTERN, content) {
        Some(heads) => heads,
        None => Vec::new(),
    };
    let parts = match split_by(ENTRY_PATTERN, content) {
        Some(parts) => parts,
        None => Vec::new(),
    };
    assert(heads.deep_view() =~= heads_in(content@));
    assert(parts.deep_view() =~= parts_in(content@));
    let ghost all_heads = heads.deep_view();
    let ghost all_parts = parts.deep_view();
    let mut i: usize = 0;
    while i < heads.len()
        invariant
            i <= heads.len(),
            all_heads == heads.deep_view(),
            all_parts == parts.deep_view(),
            entry_views(entries@) == entries_of(all_heads, all_parts, i as nat),
        decreases heads.len() - i,
    {
        let ghost before = entry_views(entries@);
        assert(all_heads[i as int] == heads[i as int].deep_view());
        let key = trim(group(&heads[i], 2).as_str());
        if !key.as_str().is_empty() {
            let entry_type = group(&heads[i], 1).as_str().to_lowercase();
            let block = if i < usize::MAX && i + 1 < parts.len() {
                assert(all_parts[i + 1] == parts[i + 1]@);
                parts[i + 1].clone()
            } else {
                String::new()
            };
            assert(block@ == block_of(all_parts, i as int));
            let fields = match captures_of(FIELD_PATTERN, block.as_str()) {
                Some(fields) => fields,
                None => Vec::new(),
            };
            assert(fields.deep_view() =~= fields_in(block_of(all_parts, i as int)));
            let entry = entry_with_fields(entry_type, key, &fields);
            entries.push(entry);
            assert(entry_views(entries@) =~= before.push(entry@));
        }
        i += 1;
    }
    assert forall|i: int| 0 <= i < entries.len() implies well_formed((#[trigger] entries[i])@) by {
        lemma_entries_are_well_formed(all_heads, all_parts, all_heads.len(), i);
        assert(entry_views(entries@)[i] == entries[i]@);
    }
    entries
}

/// Reading fields leaves the key and the type of an entry as they are.
pub proof fn lemma_fields_keep_key(e: BibEntryView, fields: Seq<Seq<Option<Seq<char>>>>)
    ensures
        with_fields(e, fields).key == e.key,
        with_fields(e, fields).entry_type == e.entry_type,
    decreases fields.len(),
{
    if fields.len() > 0 {
        lemma_fields_keep_key(e, fields.drop_last());
    }
}

/// Every extracted entry is well formed.
pub proof fn lemma_entries_are_well_formed(
    heads: Seq<Seq<Option<Seq<char>>>>,
    parts: Seq<Seq<char>>,
    n: nat,
    i: int,
)
    requires
        0 <= i < entries_of(heads, parts, n).len(),
    ensures
        well_formed(entries_of(heads, parts, n)[i]),
    decreases n,
{
    if n > 0 && n <= heads.len() {
        let earlier = entries_of(heads, parts, (n - 1) as nat);
        if i < earlier.len() {
            lemma_entries_are_well_formed(heads, parts, (n - 1) as nat, i);
        } else {
            lemma_fields_keep_key(
                blank_entry(lowercase_of(group_text(heads[n - 1], 1)), key_of(heads[n - 1])),
                fields_in(block_of(parts, n - 1)),
            );
            lemma_trimmed_is_trimmed(group_text(heads[n - 1], 2));
        }
    }
}

/// Where each of the first `n` heads carries a key, they give `n` entries,
/// in the order of the heads.
proof fn lemma_one_entry_for_each_head(
    heads: Seq<Seq<Option<Seq<char>>>>,
    parts: Seq<Seq<char>>,
    n: nat,
)
    requires
        n <= heads.len(),
        forall|i: int| 0 <= i < n ==> key_of(#[trigger] heads[i]).len() > 0,
    ensures
        entries_of(heads, parts, n).len() == n,
        forall|i: int|
            0 <= i < n ==> #[trigger] entries_of(heads, parts, n)[i] == entry_of(
                heads[i],
                block_of(parts, i),
            ),
    decreases n,
{
    if n > 0 {
        lemma_one_entry_for_each_head(heads, parts, (n - 1) as nat);
        assert(key_of(heads[n - 1]).len() > 0);
    }
}

/// A bibliography in which every entry carries a key gives one raw entry
/// for each entry head found in it, in source order.
pub proof fn lemma_one_entry_for_each_block(content: Seq<char>)
    requires
        forall|i: int|
            0 <= i < heads_in(content).len() ==> key_of(#[trigger] heads_in(content)[i]).len() > 0,
    ensures
        parsed(content).len() == heads_in(content).len(),
        forall|i: int|
            0 <= i < heads_in(content).len() ==> #[trigger] parsed(content)[i] == entry_of(
                heads_in(content)[i],
                block_of(parts_in(content), i),
            ),
{
    lemma_one_entry_for_each_head(heads_in(content), parts_in(content), heads_in(content).len());
}

} // verus!
