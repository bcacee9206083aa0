//! Analyses over scene text and story data.

pub mod continuity;
pub mod extraction;
pub mod relationship_laws;
pub mod relationship_store;
pub mod relationships;
pub mod review;
