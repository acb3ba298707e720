//! Splice a string several times, every replacement addressed by byte offsets
//! into the unedited source, and render any window of the edited text on
//! demand. No offset has to be recomputed after an edit.
//!
//! The edited text is never stored. A [`Multisplice`] keeps the source and an
//! ordered list of replacements; [`Multisplice::slice`] rebuilds the part of
//! the edited text that a window over the offsets of the source asks for.
//!
//! Every operation is specified against the mathematical [`Registry`] that a
//! splicer stands for, and verified against it. The module [`laws`] proves what
//! holds of every registry.

pub mod error;
pub mod laws;
pub mod model;
pub mod range;
pub mod splicer;
pub mod text;

pub use error::SpliceError;
pub use model::Edit;
pub use model::Registry;
pub use splicer::Multisplice;
