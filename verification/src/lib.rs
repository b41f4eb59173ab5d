//! Parsers for the data files of MDK (1997): a cursor over byte buffers,
//! the game's image encodings, its fonts and string tables, and its
//! scripting bytecode.

pub mod reader;
pub mod text;

pub use reader::Reader;

pub mod buffer;
pub mod data_formats;
pub mod file_formats;
pub mod numfmt;
pub mod sorting;
pub mod gltf;
pub mod levels;
pub mod named_vec;
pub mod naming;
pub mod registry;
