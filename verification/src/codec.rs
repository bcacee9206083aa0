//! The stored form of list- and map-valued fields: JSON text.
//!
//! Lists of strings and maps from strings to strings are stored as JSON
//! text. Reading is lenient: text that does not parse as the expected
//! shape stands for the empty list or map.

use vstd::prelude::*;
use crate::models::{Character, Location, Scene};
use crate::state_map::{entries_fold, StateMap};
use crate::text::{copy_opt, opt_view, opt_views, views};
use crate::trusted::{
    json_of_string_list, json_of_string_map, json_string_list, json_string_map,
    parse_string_list, parse_string_map, write_string_list, write_string_map,
};

verus! {

/// The list read from a field: what the text stands for, or the empty list.
pub open spec fn list_or_empty(parsed: Option<Seq<Seq<char>>>) -> Seq<Seq<char>> {
    match parsed {
        Some(list) => list,
        None => Seq::empty(),
    }
}

/// The map read from a field: what the text stands for, or the empty map.
pub open spec fn map_or_empty(parsed: Option<Map<Seq<char>, Seq<char>>>) -> Map<
    Seq<char>,
    Seq<char>,
> {
    match parsed {
        Some(map) => map,
        None => Map::empty(),
    }
}

/// What a parsed field holds: the parsed list, or the empty list where the
/// text did not parse.
pub fn list_or_default(parsed: Option<Vec<String>>) -> (list: Vec<String>)
    ensures
        views(list@) == list_or_empty(opt_views(parsed)),
{
    match parsed {
        Some(list) => list,
        None => {
            let list: Vec<String> = Vec::new();
            assert(views(list@) =~= Seq::<Seq<char>>::empty());
            list
        },
    }
}

/// What a parsed field holds: the map of the parsed entries, or the empty
/// map where the text did not parse.
pub fn map_or_default(parsed: Option<Vec<(String, String)>>) -> (map: StateMap)
    ensures
        map@ == match parsed {
            Some(entries) => entries_fold(entries@),
            None => Map::empty(),
        },
{
    match parsed {
        Some(entries) => StateMap::from_entries(entries),
        None => StateMap::new(),
    }
}

/// Reads a list-valued field: the list that the JSON text stands for, and
/// the empty list where the text is malformed.
pub fn decode_string_list(text: &str) -> (list: Vec<String>)
    ensures
        views(list@) == list_or_empty(json_string_list(text@)),
{
    list_or_default(parse_string_list(text))
}

/// Reads a map-valued field: the map that the JSON text stands for, and the
/// empty map where the text is malformed.
pub fn decode_string_map(text: &str) -> (map: StateMap)
    ensures
        map@ == map_or_empty(json_string_map(text@)),
{
    map_or_default(parse_string_map(text))
}

/// A character as stored: the list- and map-valued fields as JSON text.
#[derive(Clone, Debug)]
pub struct CharacterRow {
    pub id: String,
    pub name: String,
    pub aliases: String,
    pub traits: String,
    pub voice_notes: Option<String>,
    pub goals: Option<String>,
    pub secrets: Option<String>,
    pub current_state: String,
    pub first_appearance: Option<String>,
    pub last_seen: Option<String>,
}

/// A location as stored: the adjacency list as JSON text.
#[derive(Clone, Debug)]
pub struct LocationRow {
    pub id: String,
    pub name: String,
    pub description: Option<String>,
    pub rules: Option<String>,
    pub adjacency: String,
}

/// A scene as stored: the list-valued fields as JSON text.
#[derive(Clone, Debug)]
pub struct SceneRow {
    pub id: String,
    pub title: String,
    pub order: i32,
    pub summary: Option<String>,
    pub pov: Option<String>,
    pub time_marker: Option<String>,
    pub location_ids: String,
    pub participants: String,
    pub extracted_facts: String,
}

/// The character that a stored row stands for. A malformed list or map
/// reads as empty.
pub fn decode_character(row: CharacterRow) -> (character: Character)
    ensures
        character.id@ == row.id@,
        character.name@ == row.name@,
        views(character.aliases@) == list_or_empty(json_string_list(row.aliases@)),
        views(character.traits@) == list_or_empty(json_string_list(row.traits@)),
        opt_view(character.voice_notes) == opt_view(row.voice_notes),
        opt_view(character.goals) == opt_view(row.goals),
        opt_view(character.secrets) == opt_view(row.secrets),
        character.current_state@ == map_or_empty(json_string_map(row.current_state@)),
        opt_view(character.first_appearance) == opt_view(row.first_appearance),
        opt_view(character.last_seen) == opt_view(row.last_seen),
{
    let aliases = decode_string_list(row.aliases.as_str());
    let traits = decode_string_list(row.traits.as_str());
    let current_state = decode_string_map(row.current_state.as_str());
    Character {
        id: row.id,
        name: row.name,
        aliases,
        traits,
        voice_notes: row.voice_notes,
        goals: row.goals,
        secrets: row.secrets,
        current_state,
        first_appearance: row.first_appearance,
        last_seen: row.last_seen,
    }
}

/// The row under which a character is stored; `None` exactly when one of
/// its lists or its state cannot be written as JSON.
pub fn encode_character(character: &Character) -> (row: Option<CharacterRow>)
    ensures
        row is Some <==> {
            &&& json_of_string_list(views(character.aliases@)) is Some
            &&& json_of_string_list(views(character.traits@)) is Some
            &&& json_of_string_map(character.current_state@) is Some
        },
        row matches Some(r) ==> {
            &&& r.id@ == character.id@
            &&& r.name@ == character.name@
            &&& Some(r.aliases@) == json_of_string_list(views(character.aliases@))
            &&& Some(r.traits@) == json_of_string_list(views(character.traits@))
            &&& opt_view(r.voice_notes) == opt_view(character.voice_notes)
            &&& opt_view(r.goals) == opt_view(character.goals)
            &&& opt_view(r.secrets) == opt_view(character.secrets)
            &&& Some(r.current_state@) == json_of_string_map(character.current_state@)
            &&& opt_view(r.first_appearance) == opt_view(character.first_appearance)
            &&& opt_view(r.last_seen) == opt_view(character.last_seen)
        },
{
    let aliases = match write_string_list(&character.aliases) {
        Some(text) => text,
        None => {
            return None;
        },
    };
    let traits = match write_string_list(&character.traits) {
        Some(text) => text,
        None => {
            return None;
        },
    };
    let current_state = match write_string_map(&character.current_state.sorted_entries()) {
        Some(text) => text,
        None => {
            return None;
        },
    };
    Some(
        CharacterRow {
            id: character.id.clone(),
            name: character.name.clone(),
            aliases,
            traits,
            voice_notes: copy_opt(&character.voice_notes),
            goals: copy_opt(&character.goals),
            secrets: copy_opt(&character.secrets),
            current_state,
            first_appearance: copy_opt(&character.first_appearance),
            last_seen: copy_opt(&character.last_seen),
        },
    )
}

/// The location that a stored row stands for. A malformed adjacency list
/// reads as empty.
pub fn decode_location(row: LocationRow) -> (location: Location)
    ensures
        location.id@ == row.id@,
        location.name@ == row.name@,
        opt_view(location.description) == opt_view(row.description),
        opt_view(location.rules) == opt_view(row.rules),
        views(location.adjacency@) == list_or_empty(json_string_list(row.adjacency@)),
{
    let adjacency = decode_string_list(row.adjacency.as_str());
    Location {
        id: row.id,
        name: row.name,
        description: row.description,
        rules: row.rules,
        adjacency,
    }
}

/// The row under which a scene is stored; `None` exactly when one of its
/// lists cannot be written as JSON.
pub fn encode_scene(scene: &Scene) -> (row: Option<SceneRow>)
    ensures
        row is Some <==> {
            &&& json_of_string_list(views(scene.location_ids@)) is Some
            &&& json_of_string_list(views(scene.participants@)) is Some
            &&& json_of_string_list(views(scene.extracted_facts@)) is Some
        },
        row matches Some(r) ==> {
            &&& r.id@ == scene.id@
            &&& r.title@ == scene.title@
            &&& r.order == scene.order
            &&& opt_view(r.summary) == opt_view(scene.summary)
            &&& opt_view(r.pov) == opt_view(scene.pov)
            &&& opt_view(r.time_marker) == opt_view(scene.time_marker)
            &&& Some(r.location_ids@) == json_of_string_list(views(scene.location_ids@))
            &&& Some(r.participants@) == json_of_string_list(views(scene.participants@))
            &&& Some(r.extracted_facts@) == json_of_string_list(views(scene.extracted_facts@))
        },
{
    let location_ids = match write_string_list(&scene.location_ids) {
        Some(text) => text,
        None => {
            return None;
        },
    };
    let participants = match write_string_list(&scene.participants) {
        Some(text) => text,
        None => {
            return None;
        },
    };
    let extracted_facts = match write_string_list(&scene.extracted_facts) {
        Some(text) => text,
        None => {
            return None;
        },
    };
    Some(
        SceneRow {
            id: scene.id.clone(),
            title: scene.title.clone(),
            order: scene.order,
            summary: copy_opt(&scene.summary),
            pov: copy_opt(&scene.pov),
            time_marker: copy_opt(&scene.time_marker),
            location_ids,
            participants,
            extracted_facts,
        },
    )
}

} // verus!
