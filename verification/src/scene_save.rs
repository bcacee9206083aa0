//! Saving a scene: its participants and locations are read anew from the
//! text, and the edit is written down for the provenance log.

use std::collections::hash_map::DefaultHasher;
use std::hash::Hasher;
use vstd::prelude::*;
use vstd::std_specs::hash::*;
use vstd::string::*;
use vstd::utf8::*;
use crate::analysis::extraction::{
    extract_entities, tag_at, tagged_tokens, CHARACTER_SIGIL, LOCATION_SIGIL,
};
use crate::digits::{hex_string, padded_decimal, padded_decimal_string, radix_digits};
use crate::models::{ProvenanceEntry, Scene};
use crate::provenance::{edit_entry, ProvenanceManager};
use crate::text::{opt_view, views};

verus! {

/// The width to which the chapter number of a file name is padded.
pub const CHAPTER_DIGITS: usize = 3;

/// The name of the manuscript file of the scene with the given order:
/// `chapter-`, the order padded with zeros to three characters, `.md`.
pub open spec fn chapter_file_name(order: int) -> Seq<char> {
    "chapter-"@ + padded_decimal(order, CHAPTER_DIGITS as nat) + ".md"@
}

/// The digest of a text: that of the standard hasher fed with the text's
/// bytes and the byte that ends a string.
pub open spec fn content_digest(content: Seq<char>) -> u64 {
    DefaultHasher::spec_finish(seq![encode_utf8(content), seq![0xffu8]])
}

/// The fingerprint of a text: its digest in hexadecimal. The same text
/// always has the same fingerprint.
pub open spec fn fingerprint(content: Seq<char>) -> Seq<char> {
    radix_digits(content_digest(content) as nat, 16)
}

/// The name of the manuscript file of the scene with the given order.
pub fn chapter_file(order: i32) -> (name: String)
    ensures
        name@ == chapter_file_name(order as int),
{
    let mut name = "chapter-".to_owned();
    let number = padded_decimal_string(order, CHAPTER_DIGITS);
    name.append(number.as_str());
    name.append(".md");
    name
}

/// The fingerprint of `content`.
pub fn content_fingerprint(content: &str) -> (print: String)
    ensures
        print@ == fingerprint(content@),
{
    let mut hasher = DefaultHasher::new();
    hasher.write(content.as_bytes());
    let mut end: Vec<u8> = Vec::new();
    end.push(0xffu8);
    hasher.write(end.as_slice());
    proof {
        assert(hasher@ =~= seq![encode_utf8(content@), seq![0xffu8]]);
    }
    hex_string(hasher.finish())
}

/// Whether `after` is `before` with its participants and locations replaced
/// by the names that `content` mentions, each once, and everything else as
/// it was.
pub open spec fn refreshed(before: Scene, content: Seq<char>, after: Scene) -> bool {
    &&& after.id@ == before.id@
    &&& after.title@ == before.title@
    &&& after.order == before.order
    &&& opt_view(after.summary) == opt_view(before.summary)
    &&& opt_view(after.pov) == opt_view(before.pov)
    &&& opt_view(after.time_marker) == opt_view(before.time_marker)
    &&& views(after.extracted_facts@) == views(before.extracted_facts@)
    &&& views(after.participants@).no_duplicates()
    &&& views(after.participants@).to_set() == tagged_tokens(content, CHARACTER_SIGIL)
    &&& views(after.location_ids@).no_duplicates()
    &&& views(after.location_ids@).to_set() == tagged_tokens(content, LOCATION_SIGIL)
}

/// The scene with its participants and locations read anew from `content`.
/// What the scene listed before is dropped, not merged.
pub fn refresh_scene(scene: Scene, content: &str) -> (after: Scene)
    ensures
        refreshed(scene, content@, after),
{
    let entities = extract_entities(content);
    Scene {
        id: scene.id,
        title: scene.title,
        order: scene.order,
        summary: scene.summary,
        pov: scene.pov,
        time_marker: scene.time_marker,
        location_ids: entities.locations.into_vec(),
        participants: entities.characters.into_vec(),
        extracted_facts: scene.extracted_facts,
    }
}

/// What saving a scene comes to: the scene as it is to be stored, the name
/// of its manuscript file, and the entry that records the edit.
#[derive(Clone, Debug)]
pub struct SceneSave {
    pub scene: Scene,
    pub file_name: String,
    pub edit: ProvenanceEntry,
}

/// Prepares the save of a scene with the text `content`: refreshes the
/// scene's participants and locations from the text and stamps the edit,
/// which covers the whole text, is made by the author under the action
/// `save`, and carries the fingerprint of the text.
pub fn save_scene(scene: Scene, content: &str) -> (save: SceneSave)
    ensures
        refreshed(scene, content@, save.scene),
        save.file_name@ == chapter_file_name(scene.order as int),
        save.edit@ == edit_entry(
            save.edit.id@,
            save.edit.timestamp@,
            chapter_file_name(scene.order as int),
            0,
            encode_utf8(content@).len() as int,
            "save"@,
            false,
            None,
            fingerprint(content@),
        ),
{
    let file_name = chapter_file(scene.order);
    let print = content_fingerprint(content);
    let edit = ProvenanceManager::stamp(
        file_name.as_str(),
        0,
        content.as_bytes().len(),
        "save",
        false,
        None,
        print.as_str(),
    );
    let scene = refresh_scene(scene, content);
    SceneSave { scene, file_name, edit }
}

/// A text in which no tag begins mentions nobody.
pub proof fn lemma_no_tags(text: Seq<char>, sigil: char)
    requires
        forall|i: int| !tag_at(text, sigil, i),
    ensures
        tagged_tokens(text, sigil) == Set::<Seq<char>>::empty(),
{
    assert(tagged_tokens(text, sigil) =~= Set::<Seq<char>>::empty());
}

/// Saving a scene whose text holds no tag leaves it without participants
/// and without locations.
pub proof fn lemma_untagged_scene_is_empty(before: Scene, content: Seq<char>, after: Scene)
    requires
        refreshed(before, content, after),
        forall|i: int| !tag_at(content, CHARACTER_SIGIL, i),
        forall|i: int| !tag_at(content, LOCATION_SIGIL, i),
    ensures
        after.participants@.len() == 0,
        after.location_ids@.len() == 0,
{
    lemma_no_tags(content, CHARACTER_SIGIL);
    lemma_no_tags(content, LOCATION_SIGIL);
    if after.participants@.len() > 0 {
        assert(views(after.participants@).to_set().contains(views(after.participants@)[0]));
    }
    if after.location_ids@.len() > 0 {
        assert(views(after.location_ids@).to_set().contains(views(after.location_ids@)[0]));
    }
}

} // verus!
