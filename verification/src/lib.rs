//! Terminal formatting primitives: colors, palettes, box drawing, cell widths
//! and a dot-matrix canvas, each with a machine-checked contract.

pub mod strutil;
pub mod color_triplet;
pub mod palette;
pub mod terminal_theme;
pub mod color_names;
pub mod color;
pub mod color_parse;
pub mod color_cache;
pub mod box_chars;
pub mod cells;
pub mod octant;
pub mod canvas;
pub mod console;
pub mod color_env;
pub mod ansi;
pub mod ansi_decode;
pub mod badge;
pub mod breadcrumbs;
pub mod accordion;
pub mod columns;
pub mod theme;
pub mod barchart;
pub mod anstyle_types;
pub mod anstyle_adapter;
pub mod anstyle_style;
