//! Command-line flag serialization, and the consolidation and rendering of the
//! ranked results of a package search.
pub mod commands;
pub mod consolidate;
pub mod flag;
pub mod listing;
pub mod query;
pub mod range_shape;
pub mod show;
pub mod text;
