//! Glyph outline geometry: reading outlines from path text, a bounding-box
//! accumulator, a uniform walk over path commands, bounding-box extraction,
//! the transform that flips an outline upright and centres it in a shared
//! frame, and the table of glyph records from which one sheet per character
//! is made.
//!
//! Coordinates are whole sub-units, [`outline::SUBUNITS`] to the unit of the
//! path text, of magnitude at most [`rect::COORD_LIMIT`].

pub mod rect;
pub mod command;
pub mod bbox;
pub mod transform;
pub mod outline;
pub mod chars;
pub mod glyph;
