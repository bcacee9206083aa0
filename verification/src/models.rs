//! The story data that the analyses read and produce.

use vstd::prelude::*;
use crate::state_map::StateMap;
use crate::text::opt_view;

verus! {

/// A character of the story. `id` is stable and unique within a project;
/// `current_state` is an open bag of values of which the analyses interpret
/// only the key `status`.
#[derive(Clone, Debug)]
pub struct Character {
    pub id: String,
    pub name: String,
    pub aliases: Vec<String>,
    pub traits: Vec<String>,
    pub voice_notes: Option<String>,
    pub goals: Option<String>,
    pub secrets: Option<String>,
    pub current_state: StateMap,
    pub first_appearance: Option<String>,
    pub last_seen: Option<String>,
}

/// A place of the story and the places next to it.
#[derive(Clone, Debug)]
pub struct Location {
    pub id: String,
    pub name: String,
    pub description: Option<String>,
    pub rules: Option<String>,
    pub adjacency: Vec<String>,
}

/// A scene of the manuscript. `order` places it in the manuscript and need
/// not be unique; `participants` and `location_ids` are derived from the
/// scene's text whenever it is saved.
#[derive(Clone, Debug)]
pub struct Scene {
    pub id: String,
    pub title: String,
    pub order: i32,
    pub summary: Option<String>,
    pub pov: Option<String>,
    pub time_marker: Option<String>,
    pub location_ids: Vec<String>,
    pub participants: Vec<String>,
    pub extracted_facts: Vec<String>,
}

/// A weighted relation between two characters.
#[derive(Clone, Debug)]
pub struct Relationship {
    pub from_id: String,
    pub to_id: String,
    pub relation_type: String,
    pub strength: i32,
    pub since_chapter: Option<String>,
    pub notes: Option<String>,
}

/// An event on the story's timeline.
#[derive(Clone, Debug)]
pub struct TimelineEvent {
    pub id: String,
    pub time_index: i32,
    pub description: String,
    pub participants: Vec<String>,
    pub location_id: Option<String>,
    pub dependencies: Vec<String>,
}

/// One record of an edit to a file: who or what changed which byte range,
/// and a fingerprint of the content that resulted.
#[derive(Clone, Debug)]
pub struct ProvenanceEntry {
    pub id: String,
    pub timestamp: String,
    pub file_path: String,
    pub range_start: usize,
    pub range_end: usize,
    pub author_action: String,
    pub ai_involved: bool,
    pub suggestion_id: Option<String>,
    pub diff_hash: String,
}

/// What a `ProvenanceEntry` records.
pub struct EntryView {
    pub id: Seq<char>,
    pub timestamp: Seq<char>,
    pub file_path: Seq<char>,
    pub range_start: int,
    pub range_end: int,
    pub author_action: Seq<char>,
    pub ai_involved: bool,
    pub suggestion_id: Option<Seq<char>>,
    pub diff_hash: Seq<char>,
}

impl View for ProvenanceEntry {
    type V = EntryView;

    open spec fn view(&self) -> EntryView {
        EntryView {
            id: self.id@,
            timestamp: self.timestamp@,
            file_path: self.file_path@,
            range_start: self.range_start as int,
            range_end: self.range_end as int,
            author_action: self.author_action@,
            ai_involved: self.ai_involved,
            suggestion_id: opt_view(self.suggestion_id),
            diff_hash: self.diff_hash@,
        }
    }
}

} // verus!
