//! What holds of the library as a whole.

pub mod references;
pub mod lists;
pub mod qualification;
pub mod fragments;
pub mod action_fragments;
pub mod values;
pub mod conversion;
pub mod denotation;
pub mod declared;
pub mod namespaces;
pub mod resolution;
pub mod errors;
pub mod reports;
pub mod behavior;
pub mod attributes;
pub mod distance;
pub mod models;
pub mod basics;
