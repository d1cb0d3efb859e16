//! Desktop-entry descriptors: the typed entry, its validation, its canonical
//! text form and the tolerant reader that takes that form back in.
//!
//! * [`entry`]: the entry, its mathematical view, and validation.
//! * [`serialize`]: the text of an entry.
//! * [`parse`]: the entry that a text stands for.
//! * [`form`]: the editing form as plain values, to and from an entry.
//! * [`sync`]: the guard that keeps form and text view in step.
//! * [`writer`]: what is decided before an entry goes to disk.
//! * [`laws`]: what reading gives back of what was written.
//! * [`read_back`], [`outputs`], [`lemmas`]: the proofs behind the laws.
//! * [`text`]: the character-sequence helpers under all of it.

pub mod entry;
pub mod form;
pub mod laws;
pub mod lemmas;
pub mod outputs;
pub mod parse;
pub mod read_back;
pub mod serialize;
pub mod sync;
pub mod text;
pub mod writer;
