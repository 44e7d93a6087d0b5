//! The module emitter: the text of the data module that holds the records.

use crate::bibtex::entry::BibEntryView;
use crate::bibtex::reference::{Reference, ReferenceView, reference_of, short_key, year_number};
use crate::number::{decimal, lemma_decimal_chars, lemma_decimal_injective, push_decimal};
use crate::search::{
    has_char, lemma_cut_at_first, lemma_same_after_prefix, lemma_same_before_suffix,
};
use crate::text::text_of;
use vstd::prelude::*;
use vstd::string::StringExecFns;

verus! {

/// What the data module starts with: a comment that warns against editing
/// it, the declaration of a record's shape, and the opening of the mapping.
pub const MODULE_HEADER: &'static str = r#"// Auto-generated from references.bib
// Run: npm run blog sync
// Do NOT edit manually - edit references.bib instead

export interface Reference {
    author: string;
    year: number;
    title: string;
    shortCite: string;
    booktitle?: string;
    pages?: string;
    publisher?: string;
    url?: string;
}

export const references: Record<string, Reference> = {
"#;

/// What the data module starts with.
pub open spec fn module_header() -> Seq<char> {
    MODULE_HEADER@
}

/// What the data module ends with: the close of the mapping.
pub open spec fn module_footer() -> Seq<char> {
    "};\n"@
}

/// The line of an optional field, led by the comma and line break that close
/// the line before it; nothing where the field is absent.
pub open spec fn optional_line(label: Seq<char>, value: Option<Seq<char>>) -> Seq<char> {
    match value {
        Some(text) => ",\n        "@ + label + ": \""@ + text + "\""@,
        None => Seq::empty(),
    }
}

/// The end of a record's fields: the short citation, then each optional
/// field that is present, on a line of its own. No comma follows the last.
pub open spec fn fields_from_cite(r: ReferenceView) -> Seq<char> {
    "        shortCite: \""@ + r.short_cite + "\""@
        + optional_line("booktitle"@, r.booktitle)
        + optional_line("pages"@, r.pages)
        + optional_line("publisher"@, r.publisher)
        + optional_line("url"@, r.url)
}

/// A record's fields from the title on.
pub open spec fn fields_from_title(r: ReferenceView) -> Seq<char> {
    "        title: \""@ + r.title + "\",\n"@ + fields_from_cite(r)
}

/// A record's fields from the year on. The year is written as a number,
/// without quotes.
pub open spec fn fields_from_year(r: ReferenceView) -> Seq<char> {
    "        year: "@ + decimal(r.year) + ",\n"@ + fields_from_title(r)
}

/// The fields of a record: author, year, title and short citation, which
/// every record has, then the optional ones.
pub open spec fn fields_text(r: ReferenceView) -> Seq<char> {
    "        author: \""@ + r.author + "\",\n"@ + fields_from_year(r)
}

/// The text of one record under its key.
pub open spec fn record_text(key: Seq<char>, r: ReferenceView) -> Seq<char> {
    "    "@ + key + ": {\n"@ + fields_text(r) + "\n    },\n"@
}

/// The records of a list of pairs, in the order of the list.
pub open spec fn records_text(pairs: Seq<(Seq<char>, ReferenceView)>) -> Seq<char>
    decreases pairs.len(),
{
    if pairs.len() == 0 {
        Seq::empty()
    } else {
        records_text(pairs.drop_last()) + record_text(pairs.last().0, pairs.last().1)
    }
}

/// The text of the data module for a list of pairs.
pub open spec fn module_text(pairs: Seq<(Seq<char>, ReferenceView)>) -> Seq<char> {
    module_header() + records_text(pairs) + module_footer()
}

/// The views of a list of pairs of short key and record.
pub open spec fn pair_views(pairs: Seq<(String, Reference)>) -> Seq<(Seq<char>, ReferenceView)> {
    pairs.map_values(|p: (String, Reference)| (p.0@, p.1@))
}

/// The line of an optional field, empty where the field is absent.
fn optional_line_text(label: &str, value: &Option<String>) -> (line: String)
    ensures
        line@ == optional_line(label@, text_of(*value)),
{
    match value {
        Some(text) => {
            let mut line = String::from_str(",\n        ");
            line.append(label);
            line.append(": \"");
            line.append(text.as_str());
            line.append("\"");
            line
        },
        None => String::new(),
    }
}

/// The fields of a record.
fn fields_string(r: &Reference) -> (fields: String)
    ensures
        fields@ == fields_text(r@),
{
    let mut cite = String::from_str("        shortCite: \"");
    cite.append(r.short_cite.as_str());
    cite.append("\"");
    cite.append(optional_line_text("booktitle", &r.booktitle).as_str());
    cite.append(optional_line_text("pages", &r.pages).as_str());
    cite.append(optional_line_text("publisher", &r.publisher).as_str());
    cite.append(optional_line_text("url", &r.url).as_str());
    let mut title = String::from_str("        title: \"");
    title.append(r.title.as_str());
    title.append("\",\n");
    title.append(cite.as_str());
    let mut year = String::from_str("        year: ");
    push_decimal(&mut year, r.year);
    year.append(",\n");
    year.append(title.as_str());
    let mut fields = String::from_str("        author: \"");
    fields.append(r.author.as_str());
    fields.append("\",\n");
    fields.append(year.as_str());
    fields
}

/// The text of one record under its key.
fn record_string(key: &str, r: &Reference) -> (record: String)
    ensures
        record@ == record_text(key@, r@),
{
    let mut record = String::from_str("    ");
    record.append(key);
    record.append(": {\n");
    record.append(fields_string(r).as_str());
    record.append("\n    },\n");
    record
}

/// Renders the data module for the given pairs of short key and record, one
/// record for each pair, in the order of the list.
///
/// Values are written between quotes as they stand: a quote inside a value
/// is not escaped.
pub fn generate_references_ts(references: &[(String, Reference)]) -> (content: String)
    ensures
        content@ == module_text(pair_views(references@)),
{
    let mut content = String::from_str(MODULE_HEADER);
    let ghost pairs = pair_views(references@);
    let mut i: usize = 0;
    assert(content@ =~= module_header() + records_text(pairs.take(0)));
    while i < references.len()
        invariant
            i <= references.len(),
            pairs == pair_views(references@),
            content@ == module_header() + records_text(pairs.take(i as int)),
        decreases references.len() - i,
    {
        assert(pairs.take(i + 1).drop_last() =~= pairs.take(i as int));
        let record = record_string(references[i].0.as_str(), &references[i].1);
        content.append(record.as_str());
        assert(content@ =~= module_header() + records_text(pairs.take(i + 1))) by {
            assert(pairs.take(i + 1).last() == pairs[i as int]);
        }
        i += 1;
    }
    assert(pairs.take(references.len() as int) =~= pairs);
    content.append("};\n");
    content
}

/// The records of two lists laid end to end are the records of the first
/// followed by the records of the second.
pub proof fn lemma_records_of_both(
    first: Seq<(Seq<char>, ReferenceView)>,
    second: Seq<(Seq<char>, ReferenceView)>,
)
    ensures
        records_text(first + second) == records_text(first) + records_text(second),
    decreases second.len(),
{
    if second.len() == 0 {
        assert(first + second =~= first);
        assert(records_text(first) + records_text(second) =~= records_text(first));
    } else {
        lemma_records_of_both(first, second.drop_last());
        assert((first + second).drop_last() =~= first + second.drop_last());
        assert((first + second).last() == second.last());
        assert(records_text(first + second) =~= records_text(first) + records_text(second));
    }
}

/// The data module holds the record of each pair, whole, between the
/// records of the pairs before it and those of the pairs after it.
pub proof fn lemma_module_holds_record(pairs: Seq<(Seq<char>, ReferenceView)>, i: int)
    requires
        0 <= i < pairs.len(),
    ensures
        module_text(pairs) == module_header() + records_text(pairs.take(i)) + record_text(
            pairs[i].0,
            pairs[i].1,
        ) + records_text(pairs.skip(i + 1)) + module_footer(),
{
    let upto = pairs.take(i + 1);
    assert(pairs =~= upto + pairs.skip(i + 1));
    lemma_records_of_both(upto, pairs.skip(i + 1));
    assert(upto.drop_last() =~= pairs.take(i));
    assert(upto.last() == pairs[i]);
    assert(module_text(pairs) =~= module_header() + records_text(pairs.take(i)) + record_text(
        pairs[i].0,
        pairs[i].1,
    ) + records_text(pairs.skip(i + 1)) + module_footer());
}

/// A record gives back what it was written from: two records that read the
/// same under one key have the same author, the same year and the same
/// title, where no author or title holds a quote.
pub proof fn lemma_record_gives_back_fields(key: Seq<char>, a: ReferenceView, b: ReferenceView)
    requires
        record_text(key, a) == record_text(key, b),
        !has_char(a.author, '"'),
        !has_char(b.author, '"'),
        !has_char(a.title, '"'),
        !has_char(b.title, '"'),
    ensures
        a.author == b.author,
        a.year == b.year,
        a.title == b.title,
{
    reveal_strlit("\",\n");
    reveal_strlit(",\n");
    let open = "    "@ + key + ": {\n"@;
    lemma_same_before_suffix(open + fields_text(a), open + fields_text(b), "\n    },\n"@);
    lemma_same_after_prefix(open, fields_text(a), fields_text(b));
    // the author, up to the quote that closes it
    let lead = "        author: \""@;
    let rest_a = "\",\n"@ + fields_from_year(a);
    let rest_b = "\",\n"@ + fields_from_year(b);
    assert(fields_text(a) =~= lead + (a.author + rest_a));
    assert(fields_text(b) =~= lead + (b.author + rest_b));
    lemma_same_after_prefix(lead, a.author + rest_a, b.author + rest_b);
    lemma_cut_at_first(a.author, rest_a, b.author, rest_b, '"');
    lemma_same_after_prefix("\",\n"@, fields_from_year(a), fields_from_year(b));
    // the year, up to the comma that follows it
    let lead = "        year: "@;
    let rest_a = ",\n"@ + fields_from_title(a);
    let rest_b = ",\n"@ + fields_from_title(b);
    assert(fields_from_year(a) =~= lead + (decimal(a.year) + rest_a));
    assert(fields_from_year(b) =~= lead + (decimal(b.year) + rest_b));
    lemma_same_after_prefix(lead, decimal(a.year) + rest_a, decimal(b.year) + rest_b);
    assert(!has_char(decimal(a.year), ',')) by {
        assert forall|i: int| 0 <= i < decimal(a.year).len() implies decimal(a.year)[i] != ',' by {
            lemma_decimal_chars(a.year, i);
        }
    }
    assert(!has_char(decimal(b.year), ',')) by {
        assert forall|i: int| 0 <= i < decimal(b.year).len() implies decimal(b.year)[i] != ',' by {
            lemma_decimal_chars(b.year, i);
        }
    }
    lemma_cut_at_first(decimal(a.year), rest_a, decimal(b.year), rest_b, ',');
    lemma_decimal_injective(a.year, b.year);
    lemma_same_after_prefix(",\n"@, fields_from_title(a), fields_from_title(b));
    // the title, up to the quote that closes it
    let lead = "        title: \""@;
    let rest_a = "\",\n"@ + fields_from_cite(a);
    let rest_b = "\",\n"@ + fields_from_cite(b);
    assert(fields_from_title(a) =~= lead + (a.title + rest_a));
    assert(fields_from_title(b) =~= lead + (b.title + rest_b));
    lemma_same_after_prefix(lead, a.title + rest_a, b.title + rest_b);
    lemma_cut_at_first(a.title, rest_a, b.title, rest_b, '"');
}

/// A raw entry is found again in its record: two entries whose records read
/// the same under one short key have the same author, the same title and
/// the same year number, where no author or title holds a quote.
pub proof fn lemma_entry_is_found_again(a: BibEntryView, b: BibEntryView)
    requires
        short_key(a.key) == short_key(b.key),
        record_text(short_key(a.key), reference_of(a)) == record_text(
            short_key(b.key),
            reference_of(b),
        ),
        !has_char(a.author, '"'),
        !has_char(b.author, '"'),
        !has_char(a.title, '"'),
        !has_char(b.title, '"'),
    ensures
        a.author == b.author,
        a.title == b.title,
        year_number(a.year) == year_number(b.year),
{
    lemma_record_gives_back_fields(short_key(a.key), reference_of(a), reference_of(b));
}

} // verus!
