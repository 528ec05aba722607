//! Namespace definitions of an authorization-policy schema, in the form that a
//! policy validator works on.

pub mod text;
pub mod nonempty_list;
pub mod model;
pub mod keyed;
pub mod gathered;
pub mod outcome;
pub mod sorting;
pub mod names;
pub mod defs;
pub mod raw_name;
pub mod err;
pub mod value;
pub mod action_uid;
pub mod types;
pub mod json_schema;
pub mod unresolved;
pub mod extensions;
pub mod fuzzy_match;
pub mod conversion;
pub mod declarations;
pub mod common_types;
pub mod entity_types;
pub mod apply_spec;
pub mod action_attributes;
pub mod actions;
pub mod namespace_def;
pub mod laws;

