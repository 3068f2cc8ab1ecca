//! The package source of the Svitlo store: what the `promin` client answers, turned into the
//! cards, updates and operations that a store front shows.

pub mod app_info;
pub mod backend;
pub mod laws;
pub mod name_map;
pub mod text;
