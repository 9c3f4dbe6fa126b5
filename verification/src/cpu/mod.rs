//! Host CPU detection, classification and topology validation.
pub mod detect;
