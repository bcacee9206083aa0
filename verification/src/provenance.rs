//! The provenance log: an append-only record of content edits, and the
//! retrieval of a file's history from it.

use vstd::prelude::*;
use vstd::seq_lib::*;
use vstd::string::*;
use crate::models::{EntryView, ProvenanceEntry};
use crate::text::{
    copy_opt, lemma_lex_le_total, lemma_lex_le_trans, lex_le, opt_view, str_eq, str_le,
};
use crate::trusted::{current_timestamp, fresh_id};

verus! {

/// What each entry of a list records, in order.
pub open spec fn entry_views(entries: Seq<ProvenanceEntry>) -> Seq<EntryView> {
    Seq::new(entries.len(), |i: int| entries[i]@)
}

/// The ids of a list of entries, in order.
pub open spec fn entry_ids(entries: Seq<EntryView>) -> Seq<Seq<char>> {
    Seq::new(entries.len(), |i: int| entries[i].id)
}

/// The entries of `log` that belong to the file `file_path`, in log order.
pub open spec fn for_file(log: Seq<EntryView>, file_path: Seq<char>) -> Seq<EntryView> {
    log.filter(|e: EntryView| e.file_path == file_path)
}

/// Whether the entries are ordered by timestamp, the most recent first.
/// Timestamps are compared as strings, in lexical order.
pub open spec fn newest_first(entries: Seq<EntryView>) -> bool {
    forall|i: int, j: int|
        0 <= i < j < entries.len() ==> lex_le(
            (#[trigger] entries[j]).timestamp,
            (#[trigger] entries[i]).timestamp,
        )
}

/// The entry that records the given edit under the given id and timestamp.
pub open spec fn edit_entry(
    id: Seq<char>,
    timestamp: Seq<char>,
    file_path: Seq<char>,
    range_start: int,
    range_end: int,
    author_action: Seq<char>,
    ai_involved: bool,
    suggestion_id: Option<Seq<char>>,
    diff_hash: Seq<char>,
) -> EntryView {
    EntryView {
        id,
        timestamp,
        file_path,
        range_start,
        range_end,
        author_action,
        ai_involved,
        suggestion_id,
        diff_hash,
    }
}

/// A copy of an entry that records the same.
pub fn copy_entry(entry: &ProvenanceEntry) -> (copy: ProvenanceEntry)
    ensures
        copy@ == entry@,
{
    ProvenanceEntry {
        id: entry.id.clone(),
        timestamp: entry.timestamp.clone(),
        file_path: entry.file_path.clone(),
        range_start: entry.range_start,
        range_end: entry.range_end,
        author_action: entry.author_action.clone(),
        ai_involved: entry.ai_involved,
        suggestion_id: copy_opt(&entry.suggestion_id),
        diff_hash: entry.diff_hash.clone(),
    }
}

/// The log of edits. Entries are only ever added at the end; none is
/// changed or removed, and no two entries share an id.
#[derive(Debug)]
pub struct ProvenanceLog {
    entries: Vec<ProvenanceEntry>,
}

impl View for ProvenanceLog {
    type V = Seq<EntryView>;

    closed spec fn view(&self) -> Seq<EntryView> {
        entry_views(self.entries@)
    }
}

impl ProvenanceLog {
    #[verifier::type_invariant]
    spec fn distinct_ids(&self) -> bool {
        entry_ids(entry_views(self.entries@)).no_duplicates()
    }

    /// The empty log.
    pub fn new() -> (log: ProvenanceLog)
        ensures
            log@ == Seq::<EntryView>::empty(),
    {
        let log = ProvenanceLog { entries: Vec::new() };
        assert(entry_views(log.entries@) =~= Seq::<EntryView>::empty());
        log
    }

    /// The number of entries.
    pub fn len(&self) -> (n: usize)
        ensures
            n == self@.len(),
            entry_ids(self@).no_duplicates(),
    {
        proof {
            use_type_invariant(self);
        }
        self.entries.len()
    }

    /// The entries, borrowed, in the order in which they were recorded.
    pub fn entries(&self) -> (entries: &Vec<ProvenanceEntry>)
        ensures
            entry_views(entries@) == self@,
    {
        &self.entries
    }

    /// Whether some entry has the id `id`.
    pub fn has_id(&self, id: &str) -> (found: bool)
        ensures
            found == entry_ids(self@).contains(id@),
    {
        let mut i: usize = 0;
        while i < self.entries.len()
            invariant
                i <= self.entries.len(),
                forall|k: int| 0 <= k < i ==> entry_ids(self@)[k] != id@,
            decreases self.entries.len() - i,
        {
            if str_eq(self.entries[i].id.as_str(), id) {
                assert(entry_ids(self@)[i as int] == id@);
                return true;
            }
            i += 1;
        }
        false
    }

    /// Appends `entry` to the log. Fails, leaving the log as it was, exactly
    /// when the log already holds an entry with the same id.
    pub fn record(&mut self, entry: ProvenanceEntry) -> (result: Result<(), String>)
        ensures
            result is Ok <==> !entry_ids(old(self)@).contains(entry.id@),
            match result {
                Ok(_) => final(self)@ == old(self)@.push(entry@),
                Err(reason) => final(self)@ == old(self)@ && reason@
                    == "Provenance id already in use"@,
            },
    {
        proof {
            use_type_invariant(&*self);
        }
        if self.has_id(entry.id.as_str()) {
            return Err("Provenance id already in use".to_owned());
        }
        let ghost before = self@;
        let mut entries: Vec<ProvenanceEntry> = Vec::new();
        std::mem::swap(&mut self.entries, &mut entries);
        entries.push(entry);
        proof {
            let after = entry_views(entries@);
            assert(after =~= before.push(entry@));
            assert forall|i: int, j: int|
                0 <= i < after.len() && 0 <= j < after.len() && i != j implies entry_ids(after)[i]
                != entry_ids(after)[j] by {
                if i < before.len() && j < before.len() {
                    assert(entry_ids(before)[i] != entry_ids(before)[j]);
                } else if i < before.len() {
                    assert(entry_ids(before)[i] == after[i].id);
                } else {
                    assert(entry_ids(before)[j] == after[j].id);
                }
            }
        }
        self.entries = entries;
        Ok(())
    }

    /// The history of one file: all entries with this file path, ordered by
    /// timestamp with the most recent first. The order among entries with
    /// equal timestamps is not fixed.
    pub fn entries_for(&self, file_path: &str) -> (history: Vec<ProvenanceEntry>)
        ensures
            newest_first(entry_views(history@)),
            entry_views(history@).to_multiset() == for_file(self@, file_path@).to_multiset(),
    {
        file_history(&self.entries, file_path)
    }
}

/// The history of one file among the given entries: all entries with this
/// file path, ordered by timestamp with the most recent first. The order
/// among entries with equal timestamps is not fixed.
pub fn file_history(entries: &Vec<ProvenanceEntry>, file_path: &str) -> (history: Vec<
    ProvenanceEntry,
>)
    ensures
        newest_first(entry_views(history@)),
        entry_views(history@).to_multiset() == for_file(
            entry_views(entries@),
            file_path@,
        ).to_multiset(),
{
    let ghost log = entry_views(entries@);
    let ghost wanted = |e: EntryView| e.file_path == file_path@;
    let mut history: Vec<ProvenanceEntry> = Vec::new();
    let mut i: usize = 0;
    proof {
        assert(log.take(0) =~= Seq::<EntryView>::empty());
        assert(entry_views(history@) =~= Seq::<EntryView>::empty());
        assert(log.take(0).filter(wanted) =~= Seq::<EntryView>::empty()) by {
            reveal(Seq::filter);
        }
    }
    while i < entries.len()
        invariant
            i <= entries.len(),
            log == entry_views(entries@),
            wanted == (|e: EntryView| e.file_path == file_path@),
            newest_first(entry_views(history@)),
            entry_views(history@).to_multiset() == log.take(i as int).filter(wanted).to_multiset(),
        decreases entries.len() - i,
    {
        let entry = &entries[i];
        proof {
            assert(log.take(i + 1) =~= log.take(i as int).push(log[i as int]));
            log.take(i as int).lemma_filter_push(log[i as int], wanted);
            assert(log[i as int] == entry@);
        }
        if str_eq(entry.file_path.as_str(), file_path) {
            let ghost before = entry_views(history@);
            let at = insertion_point(&history, entry.timestamp.as_str());
            history.insert(at, copy_entry(entry));
            proof {
                let after = entry_views(history@);
                assert(after =~= before.insert(at as int, entry@));
                to_multiset_insert(before, at as int, entry@);
                to_multiset_build(log.take(i as int).filter(wanted), entry@);
                lemma_insert_keeps_order(before, at as int, entry@);
            }
        }
        i += 1;
    }
    proof {
        assert(log.take(i as int) =~= log);
    }
    history
}

/// Where an entry with the given timestamp goes in a history ordered with
/// the most recent first: before the first entry that is not more recent.
fn insertion_point(history: &Vec<ProvenanceEntry>, timestamp: &str) -> (at: usize)
    ensures
        at <= history.len(),
        forall|k: int| 0 <= k < at ==> !lex_le(history@[k].timestamp@, timestamp@),
        at < history.len() ==> lex_le(history@[at as int].timestamp@, timestamp@),
{
    let mut at: usize = 0;
    while at < history.len()
        invariant
            at <= history.len(),
            forall|k: int| 0 <= k < at ==> !lex_le(history@[k].timestamp@, timestamp@),
        decreases history.len() - at,
    {
        if str_le(history[at].timestamp.as_str(), timestamp) {
            return at;
        }
        at += 1;
    }
    at
}

/// An entry put before the first entry that is not more recent keeps the
/// history ordered.
proof fn lemma_insert_keeps_order(history: Seq<EntryView>, at: int, entry: EntryView)
    requires
        newest_first(history),
        0 <= at <= history.len(),
        forall|k: int| 0 <= k < at ==> !lex_le(history[k].timestamp, entry.timestamp),
        at < history.len() ==> lex_le(history[at].timestamp, entry.timestamp),
    ensures
        newest_first(history.insert(at, entry)),
{
    let after = history.insert(at, entry);
    assert forall|i: int, j: int| 0 <= i < j < after.len() implies lex_le(
        (#[trigger] after[j]).timestamp,
        (#[trigger] after[i]).timestamp,
    ) by {
        if j < at {
            assert(after[i] == history[i] && after[j] == history[j]);
        } else if j == at {
            assert(after[i] == history[i]);
            lemma_lex_le_total(history[i].timestamp, entry.timestamp);
        } else if i < at {
            assert(after[i] == history[i] && after[j] == history[j - 1]);
        } else if i == at {
            assert(after[j] == history[j - 1]);
            if j - 1 > at {
                assert(lex_le(history[j - 1].timestamp, history[at].timestamp));
                lemma_lex_le_trans(
                    history[j - 1].timestamp,
                    history[at].timestamp,
                    entry.timestamp,
                );
            }
        } else {
            assert(after[i] == history[i - 1] && after[j] == history[j - 1]);
        }
    }
}

/// Where the entries of a file all have different timestamps, its history
/// is strictly ordered: each entry is more recent than all that follow it.
pub proof fn lemma_history_strictly_ordered(file_entries: Seq<EntryView>, history: Seq<EntryView>)
    requires
        newest_first(history),
        history.to_multiset() == file_entries.to_multiset(),
        forall|a: int, b: int|
            0 <= a < file_entries.len() && 0 <= b < file_entries.len() && a != b
                ==> file_entries[a].timestamp != file_entries[b].timestamp,
    ensures
        forall|i: int, j: int|
            0 <= i < j < history.len() ==> {
                &&& lex_le((#[trigger] history[j]).timestamp, (#[trigger] history[i]).timestamp)
                &&& history[j].timestamp != history[i].timestamp
            },
{
    assert(file_entries.no_duplicates());
    file_entries.lemma_multiset_has_no_duplicates();
    history.lemma_multiset_has_no_duplicates_conv();
    assert forall|i: int, j: int| 0 <= i < j < history.len() implies (#[trigger] history[j]).timestamp
        != (#[trigger] history[i]).timestamp by {
        to_multiset_contains(history, history[i]);
        to_multiset_contains(history, history[j]);
        to_multiset_contains(file_entries, history[i]);
        to_multiset_contains(file_entries, history[j]);
        assert(history.contains(history[i]));
        assert(history.contains(history[j]));
        let a = choose|a: int| 0 <= a < file_entries.len() && file_entries[a] == history[i];
        let b = choose|b: int| 0 <= b < file_entries.len() && file_entries[b] == history[j];
        assert(history[i] != history[j]);
    }
}

/// Records content edits in a provenance log.
pub struct ProvenanceManager;

impl ProvenanceManager {
    /// The entry for an edit, under the given id and timestamp.
    pub fn entry(
        id: String,
        timestamp: String,
        file_path: &str,
        range_start: usize,
        range_end: usize,
        author_action: &str,
        ai_involved: bool,
        suggestion_id: Option<String>,
        diff_hash: &str,
    ) -> (entry: ProvenanceEntry)
        ensures
            entry@ == edit_entry(
                id@,
                timestamp@,
                file_path@,
                range_start as int,
                range_end as int,
                author_action@,
                ai_involved,
                opt_view(suggestion_id),
                diff_hash@,
            ),
    {
        ProvenanceEntry {
            id,
            timestamp,
            file_path: file_path.to_owned(),
            range_start,
            range_end,
            author_action: author_action.to_owned(),
            ai_involved,
            suggestion_id,
            diff_hash: diff_hash.to_owned(),
        }
    }

    /// The entry for an edit made now, under a newly generated id.
    pub fn stamp(
        file_path: &str,
        range_start: usize,
        range_end: usize,
        author_action: &str,
        ai_involved: bool,
        suggestion_id: Option<String>,
        diff_hash: &str,
    ) -> (entry: ProvenanceEntry)
        ensures
            entry@ == edit_entry(
                entry.id@,
                entry.timestamp@,
                file_path@,
                range_start as int,
                range_end as int,
                author_action@,
                ai_involved,
                opt_view(suggestion_id),
                diff_hash@,
            ),
    {
        let id = fresh_id();
        let timestamp = current_timestamp();
        ProvenanceManager::entry(
            id,
            timestamp,
            file_path,
            range_start,
            range_end,
            author_action,
            ai_involved,
            suggestion_id,
            diff_hash,
        )
    }

    /// Records one edit: appends a single entry, made now under a newly
    /// generated id, to the end of the log. Whatever the outcome, the
    /// entries that were in the log stay as they were. Fails, adding
    /// nothing, exactly when the generated id is already in use; on an
    /// empty log it always succeeds.
    pub fn log_edit(
        log: &mut ProvenanceLog,
        file_path: &str,
        range_start: usize,
        range_end: usize,
        author_action: &str,
        ai_involved: bool,
        suggestion_id: Option<String>,
        diff_hash: &str,
    ) -> (result: Result<(), String>)
        ensures
            exists|id: Seq<char>|
                {
                    &&& result is Ok <==> !entry_ids(old(log)@).contains(id)
                    &&& result is Ok ==> final(log)@.last().id == id
                },
            old(log)@.len() == 0 ==> result is Ok,
            match result {
                Ok(_) => {
                    &&& final(log)@.len() == old(log)@.len() + 1
                    &&& final(log)@.drop_last() == old(log)@
                    &&& !entry_ids(old(log)@).contains(final(log)@.last().id)
                    &&& final(log)@.last() == edit_entry(
                        final(log)@.last().id,
                        final(log)@.last().timestamp,
                        file_path@,
                        range_start as int,
                        range_end as int,
                        author_action@,
                        ai_involved,
                        opt_view(suggestion_id),
                        diff_hash@,
                    )
                },
                Err(reason) => final(log)@ == old(log)@ && reason@
                    == "Provenance id already in use"@,
            },
    {
        let entry = ProvenanceManager::stamp(
            file_path,
            range_start,
            range_end,
            author_action,
            ai_involved,
            suggestion_id,
            diff_hash,
        );
        let ghost before = log@;
        let ghost id = entry.id@;
        let result = log.record(entry);
        proof {
            if result is Ok {
                assert(before.push(entry@).drop_last() =~= before);
            }
            assert((result is Ok <==> !entry_ids(before).contains(id)) && (result is Ok ==> log@.last().id
                == id));
        }
        result
    }
}

} // verus!
