//! The pipeline as a whole, around the reading and the writing that the
//! caller does: from what reading the bibliography gave to the data module
//! to write, and from what writing it gave to the result to report.

use crate::bibtex::emitter::{generate_references_ts, module_text, pair_views};
use crate::bibtex::entry::{BibEntry, BibEntryView, entry_views, parse_bibtex, parsed};
use crate::bibtex::reference::{
    Reference, ReferenceView, entry_to_reference, reference_of, short_key,
};
use crate::number::{decimal_digits, push_digits};
use vstd::prelude::*;
use vstd::string::StringExecFns;

verus! {

/// What a synchronisation reports once the data module is written.
#[derive(Debug)]
pub struct SyncResult {
    pub entries_synced: usize,
    pub message: String,
}

/// What reading the bibliography file gave.
#[derive(Debug)]
pub enum BibSource {
    /// There is no such file.
    Missing,
    /// The file is there and could not be read; the system's message.
    Unreadable(String),
    /// The text of the file.
    Text(String),
}

/// The data module to write and the result to report once it is written.
#[derive(Debug)]
pub struct SyncPlan {
    pub content: String,
    pub result: SyncResult,
}

/// What writing the data module gave.
#[derive(Debug)]
pub enum WriteOutcome {
    /// The directory of the data module could not be made; the system's
    /// message.
    DirectoryFailed(String),
    /// The data module could not be written; the system's message.
    WriteFailed(String),
    /// The data module is written.
    Written,
}

/// The error for a bibliography that is missing or unreadable; `None` for
/// one that was read.
pub open spec fn source_error(source: BibSource) -> Option<Seq<char>> {
    match source {
        BibSource::Missing => Some("references.bib not found"@),
        BibSource::Unreadable(why) => Some("Failed to read bib file: "@ + why@),
        BibSource::Text(_) => None,
    }
}

/// The pairs of short key and record for a list of raw entries, in order.
pub open spec fn mapped(entries: Seq<BibEntryView>) -> Seq<(Seq<char>, ReferenceView)> {
    entries.map_values(|e: BibEntryView| (short_key(e.key), reference_of(e)))
}

/// The text of the data module for a bibliography text.
pub open spec fn synced_text(bibliography: Seq<char>) -> Seq<char> {
    module_text(mapped(parsed(bibliography)))
}

/// The message that reports `n` synchronised entries.
pub open spec fn sync_message(n: nat) -> Seq<char> {
    "Synced "@ + decimal_digits(n) + " references"@
}

/// Whether `plan` is the plan for the bibliography text `bibliography`.
pub open spec fn is_plan_for(plan: SyncPlan, bibliography: Seq<char>) -> bool {
    &&& plan.content@ == synced_text(bibliography)
    &&& plan.result.entries_synced == parsed(bibliography).len()
    &&& plan.result.message@ == sync_message(parsed(bibliography).len())
}

/// The error that a failed write is reported with; `None` where the module
/// was written.
pub open spec fn write_error(outcome: WriteOutcome) -> Option<Seq<char>> {
    match outcome {
        WriteOutcome::DirectoryFailed(why) => Some("Failed to create data directory: "@ + why@),
        WriteOutcome::WriteFailed(why) => Some("Failed to write references.ts: "@ + why@),
        WriteOutcome::Written => None,
    }
}

/// The error for a source that gave no text.
fn source_failure(source: &BibSource) -> (message: String)
    requires
        source_error(*source) is Some,
    ensures
        message@ == source_error(*source)->0,
{
    match source {
        BibSource::Missing => String::from_str("references.bib not found"),
        BibSource::Unreadable(why) => {
            let mut message = String::from_str("Failed to read bib file: ");
            message.append(why.as_str());
            message
        },
        BibSource::Text(_) => String::new(),
    }
}

/// Lists the raw entries of the bibliography, for inspection.
///
/// A missing or unreadable bibliography is an error; any text that was read
/// gives a list.
pub fn read_bib_file(source: &BibSource) -> (r: Result<Vec<BibEntry>, String>)
    ensures
        match r {
            Ok(entries) => source matches BibSource::Text(text) && entry_views(entries@) == parsed(
                text@,
            ),
            Err(message) => source_error(*source) == Some(message@),
        },
{
    match source {
        BibSource::Text(text) => Ok(parse_bibtex(text.as_str())),
        _ => Err(source_failure(source)),
    }
}

/// Runs the pipeline on what was read: extracts the entries, maps each to
/// its record and renders the data module.
///
/// A missing or unreadable bibliography is an error, and then there is
/// nothing to write. Any text that was read gives a plan: malformed entries
/// are passed over and a year that is no number counts as 0.
pub fn sync_references(source: &BibSource) -> (r: Result<SyncPlan, String>)
    ensures
        match r {
            Ok(plan) => source matches BibSource::Text(text) && is_plan_for(plan, text@),
            Err(message) => source_error(*source) == Some(message@),
        },
{
    match source {
        BibSource::Text(text) => {
            let entries = parse_bibtex(text.as_str());
            let mut references: Vec<(String, Reference)> = Vec::new();
            let mut i: usize = 0;
            while i < entries.len()
                invariant
                    i <= entries.len(),
                    pair_views(references@) =~= mapped(entry_views(entries@).take(i as int)),
                decreases entries.len() - i,
            {
                let ghost before = pair_views(references@);
                let pair = entry_to_reference(&entries[i]);
                references.push(pair);
                assert(pair_views(references@) =~= before.push((pair.0@, pair.1@)));
                assert(entry_views(entries@).take(i + 1) =~= entry_views(entries@).take(
                    i as int,
                ).push(entries[i as int]@));
                i += 1;
            }
            assert(entry_views(entries@).take(entries.len() as int) =~= entry_views(entries@));
            let content = generate_references_ts(references.as_slice());
            let mut message = String::from_str("Synced ");
            push_digits(&mut message, entries.len() as u64);
            message.append(" references");
            Ok(SyncPlan { content, result: SyncResult { entries_synced: entries.len(), message } })
        },
        _ => Err(source_failure(source)),
    }
}

/// Closes a synchronisation: the result of the plan where the data module
/// was written, and the error of the write where it was not.
pub fn sync_outcome(plan: SyncPlan, outcome: &WriteOutcome) -> (r: Result<SyncResult, String>)
    ensures
        match r {
            Ok(result) => outcome is Written && result == plan.result,
            Err(message) => write_error(*outcome) == Some(message@),
        },
{
    match outcome {
        WriteOutcome::DirectoryFailed(why) => {
            let mut message = String::from_str("Failed to create data directory: ");
            message.append(why.as_str());
            Err(message)
        },
        WriteOutcome::WriteFailed(why) => {
            let mut message = String::from_str("Failed to write references.ts: ");
            message.append(why.as_str());
            Err(message)
        },
        WriteOutcome::Written => Ok(plan.result),
    }
}

/// Synchronising the same bibliography text again gives the same data
/// module, character for character, and the same report.
pub proof fn lemma_sync_repeats(first: SyncPlan, second: SyncPlan, bibliography: Seq<char>)
    requires
        is_plan_for(first, bibliography),
        is_plan_for(second, bibliography),
    ensures
        first.content@ == second.content@,
        first.result.entries_synced == second.result.entries_synced,
        first.result.message@ == second.result.message@,
{
}

} // verus!
