use blog_manager::bibtex::{
    derive_short_key, derive_surname, entry_to_reference, entry_with_fields,
    generate_references_ts, parse_bibtex, read_bib_file, set_field, sync_outcome,
    sync_references, BibEntry, BibSource, Reference, WriteOutcome, MODULE_HEADER,
};

const DOE: &str = "@article{doe2020, author = {Doe, Jane}, year = {2020}, title = {A Study}, journal = {Nature}}";

fn blank(key: &str) -> BibEntry {
    BibEntry {
        key: key.to_string(),
        entry_type: "article".to_string(),
        author: String::new(),
        year: String::new(),
        title: String::new(),
        url: None,
        booktitle: None,
        pages: None,
        publisher: None,
        journal: None,
    }
}

fn reference(author: &str, year: i32, title: &str, cite: &str) -> Reference {
    Reference {
        author: author.to_string(),
        year,
        title: title.to_string(),
        short_cite: cite.to_string(),
        booktitle: None,
        pages: None,
        publisher: None,
        url: None,
    }
}

#[test]
fn one_entry_is_extracted() {
    let entries = parse_bibtex(DOE);
    assert_eq!(entries.len(), 1);
    let e = &entries[0];
    assert_eq!(e.key, "doe2020");
    assert_eq!(e.entry_type, "article");
    assert_eq!(e.author, "Doe, Jane");
    assert_eq!(e.year, "2020");
    assert_eq!(e.title, "A Study");
    assert_eq!(e.journal.as_deref(), Some("Nature"));
    assert_eq!(e.publisher, None);
    assert_eq!(e.url, None);
    assert_eq!(e.booktitle, None);
    assert_eq!(e.pages, None);
}

#[test]
fn entries_come_in_source_order() {
    let text = "% preamble\n@book{zeta, title = {Z}}\n\n@article{alpha, title = {A}}\n@misc{mid, title = {M}}\n";
    let entries = parse_bibtex(text);
    let keys: Vec<&str> = entries.iter().map(|e| e.key.as_str()).collect();
    assert_eq!(keys, vec!["zeta", "alpha", "mid"]);
    let kinds: Vec<&str> = entries.iter().map(|e| e.entry_type.as_str()).collect();
    assert_eq!(kinds, vec!["book", "article", "misc"]);
}

#[test]
fn no_entry_is_no_error() {
    assert_eq!(parse_bibtex("").len(), 0);
    assert_eq!(parse_bibtex("just some text, no entries").len(), 0);
}

#[test]
fn entry_without_comma_is_skipped() {
    let entries = parse_bibtex("@article{broken}\n@book{fine, title = {T}}");
    let keys: Vec<&str> = entries.iter().map(|e| e.key.as_str()).collect();
    // the first block has no comma of its own, so its key runs on to the next comma
    assert_eq!(keys.len(), 1);
    assert_eq!(parse_bibtex("@article{broken}").len(), 0);
}

#[test]
fn blank_key_is_skipped() {
    let entries = parse_bibtex("@article{ , title = {Lost}}\n@book{kept, title = {Kept}}");
    assert_eq!(entries.len(), 1);
    assert_eq!(entries[0].key, "kept");
    assert_eq!(entries[0].title, "Kept");
}

#[test]
fn entry_type_is_lower_cased_and_key_trimmed() {
    let entries = parse_bibtex("@InProceedings{  Key99  , Title = {T}, YEAR = \"1999\"}");
    assert_eq!(entries.len(), 1);
    assert_eq!(entries[0].entry_type, "inproceedings");
    assert_eq!(entries[0].key, "Key99");
    assert_eq!(entries[0].title, "T");
    assert_eq!(entries[0].year, "1999");
}

#[test]
fn unknown_entry_type_is_kept() {
    let entries = parse_bibtex("@podcast{show, title = {Show}}");
    assert_eq!(entries.len(), 1);
    assert_eq!(entries[0].entry_type, "podcast");
}

#[test]
fn field_values_are_trimmed_and_may_nest_once() {
    let entries = parse_bibtex("@book{b, title = {  The {LaTeX} Book  }, author = \"Lamport, Leslie\"}");
    assert_eq!(entries.len(), 1);
    assert_eq!(entries[0].title, "The {LaTeX} Book");
    assert_eq!(entries[0].author, "Lamport, Leslie");
}

#[test]
fn unknown_fields_are_dropped_and_last_occurrence_wins() {
    let entries = parse_bibtex("@book{b, note = {n}, title = {First}, isbn = {1}, title = {Second}, url = {http://x.y}}");
    assert_eq!(entries.len(), 1);
    assert_eq!(entries[0].title, "Second");
    assert_eq!(entries[0].url.as_deref(), Some("http://x.y"));
    assert_eq!(entries[0].author, "");
}

#[test]
fn field_block_runs_to_the_next_entry() {
    let entries = parse_bibtex(
        "@book{b, title = {T}, url = {mailto:a@b.c}, year = {1}}\n@misc{m, url = {https://x.y/@user/p}, title = {U}}",
    );
    assert_eq!(entries.len(), 2);
    assert_eq!(entries[0].key, "b");
    assert_eq!(entries[0].title, "T");
    assert_eq!(entries[0].url.as_deref(), Some("mailto:a@b.c"));
    assert_eq!(entries[0].year, "1");
    assert_eq!(entries[1].key, "m");
    assert_eq!(entries[1].url.as_deref(), Some("https://x.y/@user/p"));
    assert_eq!(entries[1].title, "U");
}

#[test]
fn entry_inside_a_block_starts_a_new_entry() {
    let entries = parse_bibtex("@book{b, title = {About @media{screen, print} rules}, year = {1}}");
    let keys: Vec<&str> = entries.iter().map(|e| e.key.as_str()).collect();
    assert_eq!(keys, vec!["b", "screen"]);
    assert_eq!(entries[0].title, "");
    assert_eq!(entries[0].year, "");
    assert_eq!(entries[1].entry_type, "media");
    assert_eq!(entries[1].year, "1");
}

fn fields_by_pattern(content: &str) -> Vec<Vec<String>> {
    let entry_re = regex::Regex::new(r"@(\w+)\s*\{\s*([^,]+),([^@]*)").unwrap();
    let field_re =
        regex::Regex::new(r#"(\w+)\s*=\s*[{"]((?:[^{}"]|(?:\{[^}]*\}))*)[}"]"#).unwrap();
    let mut found = Vec::new();
    for cap in entry_re.captures_iter(content) {
        let mut row = vec![cap[1].to_lowercase(), cap[2].trim().to_string()];
        let mut slots = vec![String::new(); 8];
        for field in field_re.captures_iter(&cap[3]) {
            let value = field[2].trim().to_string();
            match field[1].to_lowercase().as_str() {
                "author" => slots[0] = value,
                "year" => slots[1] = value,
                "title" => slots[2] = value,
                "url" => slots[3] = format!("+{}", value),
                "booktitle" => slots[4] = format!("+{}", value),
                "pages" => slots[5] = format!("+{}", value.replace("--", "-")),
                "publisher" => slots[6] = format!("+{}", value),
                "journal" => slots[7] = format!("+{}", value),
                _ => {}
            }
        }
        row.extend(slots);
        found.push(row);
    }
    found
}

fn fields_of(entries: &[BibEntry]) -> Vec<Vec<String>> {
    let opt = |o: &Option<String>| o.as_ref().map(|v| format!("+{}", v)).unwrap_or_default();
    entries
        .iter()
        .map(|e| {
            vec![
                e.entry_type.clone(),
                e.key.clone(),
                e.author.clone(),
                e.year.clone(),
                e.title.clone(),
                opt(&e.url),
                opt(&e.booktitle),
                opt(&e.pages),
                opt(&e.publisher),
                opt(&e.journal),
            ]
        })
        .collect()
}

#[test]
fn entries_agree_with_the_patterns_where_no_block_holds_an_at_sign() {
    let inputs = [
        "",
        "no entries here",
        DOE,
        "@Book{k1,\n  author = {Knuth, Donald E.},\n  title = {The {\\TeX}book},\n  year = 1984,\n  publisher = \"Addison-Wesley\"\n}\n\n@article{k2, pages={1--10}, journal={J}, url = \"http://a.b\" }",
        "@a{x,y={1}}@b{z,\ttitle  =  { spaced }  }@c{w}",
        "@inproceedings { sp , booktitle = {Proc. {ABC} 2020}, TITLE = \"Q\", title = {R} }",
        "@x{k, a = {1}, author = {A {B} C}, broken = {un{closed}, year = \"20\"20\"}",
        "@misc{ütf, title = {Émile — résumé}, note = {ignored}, year = {２０２０}}",
        "text before @string{foo = \"bar\"} and @comment{x, y} after",
        "@a{k1, title = {{{deep}}}, year = {1}}",
    ];
    for input in inputs {
        assert_eq!(fields_of(&parse_bibtex(input)), fields_by_pattern(input), "input {:?}", input);
    }
}

#[test]
fn pages_are_normalized() {
    let entries = parse_bibtex("@article{a, pages = {12--34}, booktitle = {B--C}}");
    assert_eq!(entries[0].pages.as_deref(), Some("12-34"));
    assert_eq!(entries[0].booktitle.as_deref(), Some("B--C"));
}

#[test]
fn set_field_dispatches_by_name() {
    let mut e = blank("k");
    set_field(&mut e, "author", "A".to_string());
    set_field(&mut e, "year", "1".to_string());
    set_field(&mut e, "title", "T".to_string());
    set_field(&mut e, "url", "U".to_string());
    set_field(&mut e, "booktitle", "B".to_string());
    set_field(&mut e, "pages", "1--2, 5---7, 9----10".to_string());
    set_field(&mut e, "publisher", "P".to_string());
    set_field(&mut e, "journal", "J".to_string());
    set_field(&mut e, "note", "N".to_string());
    set_field(&mut e, "Author", "ignored".to_string());
    assert_eq!(e.key, "k");
    assert_eq!(e.entry_type, "article");
    assert_eq!(e.author, "A");
    assert_eq!(e.year, "1");
    assert_eq!(e.title, "T");
    assert_eq!(e.url.as_deref(), Some("U"));
    assert_eq!(e.booktitle.as_deref(), Some("B"));
    assert_eq!(e.pages.as_deref(), Some("1-2, 5--7, 9--10"));
    assert_eq!(e.publisher.as_deref(), Some("P"));
    assert_eq!(e.journal.as_deref(), Some("J"));
}

#[test]
fn entry_with_fields_reads_groups_in_order() {
    let whole = || Some("whole match".to_string());
    let fields = vec![
        vec![whole(), Some("TITLE".to_string()), Some("  one ".to_string())],
        vec![whole(), Some("pages".to_string()), Some(" 3--4 ".to_string())],
        vec![whole(), Some("title".to_string()), None],
        vec![whole(), None, Some("x".to_string())],
        vec![whole(), Some("year".to_string())],
        vec![Some("author".to_string())],
        vec![],
    ];
    let e = entry_with_fields("misc".to_string(), "k".to_string(), &fields);
    assert_eq!(e.key, "k");
    assert_eq!(e.entry_type, "misc");
    assert_eq!(e.title, "");
    assert_eq!(e.pages.as_deref(), Some("3-4"));
    assert_eq!(e.year, "");
}

#[test]
fn short_keys() {
    assert_eq!(derive_short_key("thurston2009"), "thurston2009");
    assert_eq!(derive_short_key("razbuten_2025_12_17"), "razbuten2025");
    assert_eq!(derive_short_key("a-b_c_d_e"), "abc");
    assert_eq!(derive_short_key("thurston-2009"), "thurston2009");
    assert_eq!(derive_short_key(""), "");
    assert_eq!(derive_short_key("_"), "");
    assert_eq!(derive_short_key("a_"), "a");
    assert_eq!(derive_short_key("_b"), "b");
    assert_eq!(derive_short_key("a__b"), "a");
    assert_eq!(derive_short_key("-_-x-_y"), "x");
}

#[test]
fn short_key_agrees_with_split_take_join() {
    for key in ["", "a", "a_b", "a_b_c", "__", "a-b-c", "x_-_y", "é_ü_z", "_-_", "ab_cd_ef_gh"] {
        let expected: String =
            key.replace('-', "").split('_').take(2).collect::<Vec<_>>().join("");
        assert_eq!(derive_short_key(key), expected, "key {:?}", key);
    }
}

#[test]
fn surnames() {
    assert_eq!(derive_surname("Doe, Jane"), "Doe");
    assert_eq!(derive_surname("Jane Doe"), "Doe");
    assert_eq!(derive_surname("van der Berg, Anna"), "Berg");
    assert_eq!(derive_surname("  Knuth  , Donald"), "Knuth");
    assert_eq!(derive_surname(""), "Unknown");
    assert_eq!(derive_surname("   "), "Unknown");
    assert_eq!(derive_surname(", Jane"), "Unknown");
    assert_eq!(derive_surname("Doe"), "Doe");
    assert_eq!(derive_surname("A\tB\u{a0}C, D"), "C");
}

#[test]
fn surname_agrees_with_split_whitespace_last() {
    for author in ["", " ", "a", "a b", "a b ,c", ",", "x,y,z", " lead", "trail ", "mid  dle , x"] {
        let expected = author
            .split(',')
            .next()
            .unwrap_or(author)
            .split_whitespace()
            .last()
            .unwrap_or("Unknown");
        assert_eq!(derive_surname(author), expected, "author {:?}", author);
    }
}

#[test]
fn missing_year_is_zero() {
    let mut e = blank("k");
    e.author = "Doe, Jane".to_string();
    e.year = "n.d.".to_string();
    let (key, r) = entry_to_reference(&e);
    assert_eq!(key, "k");
    assert_eq!(r.year, 0);
    assert_eq!(r.short_cite, "Doe, n.d.");
}

#[test]
fn short_cite_keeps_the_year_as_written() {
    let mut e = blank("k_2024_x");
    e.author = "Roe".to_string();
    e.year = "2024a".to_string();
    e.title = "T".to_string();
    let (key, r) = entry_to_reference(&e);
    assert_eq!(key, "k2024");
    assert_eq!(r.year, 0);
    assert_eq!(r.short_cite, "Roe, 2024a");
    assert_eq!(r.title, "T");
    assert_eq!(r.author, "Roe");
}

#[test]
fn publisher_falls_back_to_journal() {
    let mut e = blank("k");
    e.journal = Some("J".to_string());
    assert_eq!(entry_to_reference(&e).1.publisher.as_deref(), Some("J"));
    e.publisher = Some("P".to_string());
    assert_eq!(entry_to_reference(&e).1.publisher.as_deref(), Some("P"));
    e.journal = None;
    assert_eq!(entry_to_reference(&e).1.publisher.as_deref(), Some("P"));
    e.publisher = None;
    assert_eq!(entry_to_reference(&e).1.publisher, None);
}

#[test]
fn optional_fields_are_carried_over() {
    let mut e = blank("k");
    e.url = Some("u".to_string());
    e.booktitle = Some("b".to_string());
    e.pages = Some("1-2".to_string());
    let (_, r) = entry_to_reference(&e);
    assert_eq!(r.url.as_deref(), Some("u"));
    assert_eq!(r.booktitle.as_deref(), Some("b"));
    assert_eq!(r.pages.as_deref(), Some("1-2"));
}

#[test]
fn empty_module() {
    let text = generate_references_ts(&[]);
    assert_eq!(text, format!("{}{}", MODULE_HEADER, "};\n"));
    assert!(text.starts_with("// Auto-generated from references.bib\n// Run: npm run blog sync\n// Do NOT edit manually - edit references.bib instead\n\nexport interface Reference {\n    author: string;\n"));
    assert!(text.ends_with("export const references: Record<string, Reference> = {\n};\n"));
}

#[test]
fn module_with_all_fields() {
    let mut r = reference("Doe, Jane", -5, "A \"quoted\" title", "Doe, -5");
    r.booktitle = Some("BT".to_string());
    r.pages = Some("1-2".to_string());
    r.publisher = Some("PB".to_string());
    r.url = Some("http://u".to_string());
    let text = generate_references_ts(&[("doe".to_string(), r)]);
    let expected = format!(
        "{}{}{}",
        MODULE_HEADER,
        "    doe: {\n        author: \"Doe, Jane\",\n        year: -5,\n        title: \"A \"quoted\" title\",\n        shortCite: \"Doe, -5\",\n        booktitle: \"BT\",\n        pages: \"1-2\",\n        publisher: \"PB\",\n        url: \"http://u\"\n    },\n",
        "};\n"
    );
    assert_eq!(text, expected);
}

#[test]
fn module_keeps_the_order_of_the_pairs() {
    let pairs = vec![
        ("zz".to_string(), reference("Z", 3, "tz", "Z, 3")),
        ("aa".to_string(), reference("A", 1, "ta", "A, 1")),
        ("zz".to_string(), reference("Y", 2147483647, "ty", "Y, x")),
    ];
    let text = generate_references_ts(&pairs);
    let expected = format!(
        "{}{}{}{}{}",
        MODULE_HEADER,
        "    zz: {\n        author: \"Z\",\n        year: 3,\n        title: \"tz\",\n        shortCite: \"Z, 3\"\n    },\n",
        "    aa: {\n        author: \"A\",\n        year: 1,\n        title: \"ta\",\n        shortCite: \"A, 1\"\n    },\n",
        "    zz: {\n        author: \"Y\",\n        year: 2147483647,\n        title: \"ty\",\n        shortCite: \"Y, x\"\n    },\n",
        "};\n"
    );
    assert_eq!(text, expected);
}

#[test]
fn end_to_end_record() {
    let plan = sync_references(&BibSource::Text(DOE.to_string())).unwrap();
    let expected = format!(
        "{}{}{}",
        MODULE_HEADER,
        "    doe2020: {\n        author: \"Doe, Jane\",\n        year: 2020,\n        title: \"A Study\",\n        shortCite: \"Doe, 2020\",\n        publisher: \"Nature\"\n    },\n",
        "};\n"
    );
    assert_eq!(plan.content, expected);
    assert!(!plan.content.contains("        booktitle: \""));
    assert!(!plan.content.contains("        pages: \""));
    assert!(!plan.content.contains("        url: \""));
    assert_eq!(plan.result.entries_synced, 1);
    assert_eq!(plan.result.message, "Synced 1 references");
}

#[test]
fn record_is_found_again_by_short_key() {
    let text = "@book{knuth_1997_taocp, author = {Knuth, Donald E.}, year = {1997}, title = {The Art}}\n@article{doe-2020, author = {Jane Doe}, year = {2020}, title = {A Study}}";
    let entries = parse_bibtex(text);
    let plan = sync_references(&BibSource::Text(text.to_string())).unwrap();
    assert_eq!(entries.len(), 2);
    for e in &entries {
        let (key, r) = entry_to_reference(e);
        let opening = format!("    {}: {{\n", key);
        let at = plan.content.find(&opening).unwrap();
        let record = &plan.content[at + opening.len()..];
        let record = &record[..record.find("\n    },\n").unwrap()];
        let lines: Vec<&str> = record.lines().collect();
        assert_eq!(lines[0], format!("        author: \"{}\",", e.author));
        assert_eq!(lines[1], format!("        year: {},", r.year));
        assert_eq!(lines[2], format!("        title: \"{}\",", e.title));
        assert_eq!(r.year.to_string(), e.year);
    }
}

#[test]
fn sync_is_repeatable() {
    let text = "@a{x_1_2, author = {A B}, year = {1}}\n@b{y, title = {T}, pages = {1--2}}";
    let first = sync_references(&BibSource::Text(text.to_string())).unwrap();
    let second = sync_references(&BibSource::Text(text.to_string())).unwrap();
    assert_eq!(first.content.as_bytes(), second.content.as_bytes());
    assert_eq!(first.result.entries_synced, 2);
    assert_eq!(second.result.entries_synced, 2);
    assert_eq!(first.result.message, "Synced 2 references");
    assert_eq!(first.result.message, second.result.message);
}

#[test]
fn sync_counts_many_entries() {
    let mut text = String::new();
    for i in 0..120 {
        text.push_str(&format!("@misc{{k{}, title = {{T{}}}}}\n", i, i));
    }
    let plan = sync_references(&BibSource::Text(text)).unwrap();
    assert_eq!(plan.result.entries_synced, 120);
    assert_eq!(plan.result.message, "Synced 120 references");
    assert!(plan.content.contains("    k119: {\n"));
}

#[test]
fn sync_of_empty_bibliography() {
    let plan = sync_references(&BibSource::Text(String::new())).unwrap();
    assert_eq!(plan.content, format!("{}{}", MODULE_HEADER, "};\n"));
    assert_eq!(plan.result.entries_synced, 0);
    assert_eq!(plan.result.message, "Synced 0 references");
}

#[test]
fn missing_input_is_an_error() {
    let r = sync_references(&BibSource::Missing);
    assert_eq!(r.err(), Some("references.bib not found".to_string()));
    let r = read_bib_file(&BibSource::Missing);
    assert_eq!(r.err(), Some("references.bib not found".to_string()));
}

#[test]
fn unreadable_input_is_an_error() {
    let r = sync_references(&BibSource::Unreadable("permission denied".to_string()));
    assert_eq!(r.err(), Some("Failed to read bib file: permission denied".to_string()));
    let r = read_bib_file(&BibSource::Unreadable("permission denied".to_string()));
    assert_eq!(r.err(), Some("Failed to read bib file: permission denied".to_string()));
}

#[test]
fn read_bib_file_lists_entries() {
    let entries = read_bib_file(&BibSource::Text(DOE.to_string())).unwrap();
    assert_eq!(entries.len(), 1);
    assert_eq!(entries[0].key, "doe2020");
}

#[test]
fn sync_outcome_reports_the_write() {
    let plan = sync_references(&BibSource::Text(DOE.to_string())).unwrap();
    let r = sync_outcome(plan, &WriteOutcome::Written).unwrap();
    assert_eq!(r.entries_synced, 1);
    assert_eq!(r.message, "Synced 1 references");
    let plan = sync_references(&BibSource::Text(DOE.to_string())).unwrap();
    let r = sync_outcome(plan, &WriteOutcome::DirectoryFailed("no space".to_string()));
    assert_eq!(r.err(), Some("Failed to create data directory: no space".to_string()));
    let plan = sync_references(&BibSource::Text(DOE.to_string())).unwrap();
    let r = sync_outcome(plan, &WriteOutcome::WriteFailed("read-only".to_string()));
    assert_eq!(r.err(), Some("Failed to write references.ts: read-only".to_string()));
}
