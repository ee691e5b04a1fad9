//! Configuration text in several syntaxes, read into one kind of document.
//!
//! * [`format`] names the syntaxes and their file extensions, reads a text in
//!   the syntax asked for, and enters a key into a table under its spelling
//!   in every naming convention.
//! * [`registry`] holds the switches by which a deployment admits syntaxes,
//!   and finds the syntax of a file extension.
//! * [`case`] cuts keys into words and writes them in a naming convention;
//!   [`case_laws`] and [`laws`] say what holds of every key and every text.
//! * [`value`] holds the values and tables that documents are made of.
//! * [`tree`] turns the tree of a parser into such values; [`toml`],
//!   [`json`], [`yaml`], [`hjson`] and [`ini`] each call one parser.
//! * [`depth`] and [`nesting`] find how deep an HJSON or a YAML text nests,
//!   for their parsers set no limit of their own.

pub mod case;
pub mod case_laws;
pub mod depth;
pub mod format;
pub mod hjson;
pub mod ini;
pub mod json;
pub mod laws;
pub mod nesting;
pub mod registry;
pub mod toml;
pub mod tree;
pub mod value;
pub mod yaml;
