//! A small verified line-search library, together with a collection of
//! verified companion modules (geometry, inventory, text utilities and a
//! guessing game) that share its infrastructure.

pub mod basics;
pub mod enums;
pub mod garden;
pub mod geometry;
pub mod guessing;
pub mod inventory;
pub mod laws;
pub mod ownership;
pub mod searcher;
pub mod structures;
pub mod summaries;
pub mod text;
