//! Compiles declarative editor configuration (key bindings, autocommands,
//! settings) into vimscript fragments, grouped by target file type.

pub mod autocmd;
pub mod bindings;
pub mod buckets;
pub mod config;
pub mod emit;
pub mod flags;
pub mod render;
pub mod scalar;
pub mod text;
