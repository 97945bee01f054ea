//! Settings editor core for a JSON configuration file: an ordered JSON model,
//! its pretty printer, the tree editor that rebuilds a category from per-leaf
//! edits, and the store and session rules that coordinate the document in
//! memory with the text on disk.
//!
//! The library does no input or output. A caller reads the settings file and
//! hands its text to [`Configurator::new`] and [`Configurator::reload`]; it
//! writes the texts that [`save_changes`], [`Configurator::reset`] and
//! [`Configurator::revert`] hand out.

pub mod configurator;
pub mod defaults;
pub mod editor;
pub mod json_backend;
pub mod members;
pub mod ordered_map;
pub mod parse;
pub mod pretty;
pub mod screen;
pub mod sound;
pub mod store;
pub mod text;
pub mod tree;
pub mod unambiguous;
pub mod value;

pub use configurator::{save_changes, Configurator, Session};
pub use defaults::DEFAULT_JSON;
pub use editor::{
    apply_edit, clamp_position, editor_for, number_from, path_label, position_of, Edit, EditError,
    Editor, SLIDER_MAX,
};
pub use json_backend::MAX_FRACTION_DIGITS;
pub use parse::{fractions_short, import_value, parse_value};
pub use pretty::pretty_json;
pub use screen::{render_gui, status_line, Panel, Screen, SidebarItem, COULD_NOT_LOAD, MARKER};
pub use sound::{has_entry, is_sound, keys_distinct, nested_within, MAX_DEPTH};
pub use store::{build_document, load_changes, save_text, saved_document, welcome_value};
pub use tree::{accept, reconcile};
pub use value::{doc_view, path_view, Entry, Json, Kind, Members, Number, Path, Value};
