//! Font management and text shaping: resolved font instances with their
//! shape and advance caches, run measurement, and glyph batches ready for a
//! drawing backend; and the column widths of CSS tables.

pub mod geometry;
pub mod glyph;
pub mod style;
pub mod platform;
pub mod font;
pub mod table;
