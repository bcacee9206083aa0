//! Narrative analysis for long-form fiction: tag extraction from scene text,
//! continuity rules over a character roster, co-occurrence relationship
//! strengths, and an append-only log of content edits.

pub mod ai;
pub mod analysis;
pub mod codec;
pub mod digits;
pub mod models;
pub mod provenance;
pub mod scene_save;
pub mod settings_model;
pub mod state_map;
pub mod tag_set;
pub mod text;
pub mod trusted;
