//! # laser-tools
//!
//! A verified library for laser cutting file conversions and image
//! vectorization.
//!
//! - **LBRN2 to SVG**: [`tree`] builds a project from a LightBurn LBRN2
//!   document, with [`xml`] reading the markup and [`parser`] decoding the
//!   compact text forms of transforms, vertex lists and primitive lists;
//!   [`types`] holds the data model. [`svg`] decides what is drawn and
//!   writes the document, with [`path`] for path data and [`style`] for
//!   stroke styles; [`bounds`] decides what is measured for the bounding
//!   box. What is found wanting on the way and mended goes to a [`log`].
//! - **Image vectorization**: [`vectorize`] makes the masks of the cut and
//!   the engrave layer, has them traced, and puts the paths together.
//! - **Editing**: [`editor`] keeps the history of a document that is being
//!   edited.
//!
//! Numbers are carried as numerals, that is as text, from the document that
//! is read to the document that is written: the library checks, copies and
//! places them, and leaves the arithmetic on them to its caller. [`number`]
//! holds their grammar, [`text`] the scanning that everything else is built
//! on.

pub mod bounds;
pub mod editor;
pub mod log;
pub mod number;
pub mod parser;
pub mod path;
pub mod style;
pub mod svg;
pub mod text;
pub mod tree;
pub mod types;
pub mod vectorize;
pub mod xml;
