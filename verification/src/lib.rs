//! The editing core of a modal terminal text editor: a rope-backed text
//! buffer addressed by line and grapheme, the annotation model, the builder of
//! width-bounded display strings, and the resolution of key events into
//! commands.

pub mod annotatedstring;
pub mod annotation;
pub mod buffer;
pub mod cluster;
pub mod command;
pub mod highlighter;
pub mod line;
pub mod lines;
pub mod position;
pub mod rope;
pub mod search;
pub mod wording;
