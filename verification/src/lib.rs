//! What an editor shows when the pointer rests on a name in Rust code.
//!
//! The library decides what a tooltip says. Reading files, asking for definitions, searching for
//! completions and formatting code are left to its callers, who hand it what they got.

pub mod decl;
pub mod display;
pub mod display_laws;
pub mod docs;
pub mod docs_laws;
pub mod extract_laws;
pub mod hover_laws;
pub mod model;
pub mod process_laws;
pub mod racer;
pub mod racer_laws;
pub mod sample;
pub mod text;
pub mod text_laws;
pub mod tooltip;
pub mod tooltip_laws;
