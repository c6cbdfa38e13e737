//! Extraction of fenced code regions from documentation text.
//!
//! A document's raw text is turned into a stream of structural events by a
//! commonmark parser; a verified state machine reconstructs from that stream
//! the fenced code blocks, each with its annotation (the info string of the
//! opening fence) and its body (the ordered concatenation of the text
//! fragments emitted between the fence's start and end events).

pub mod block;
pub mod events;
pub mod extract;
pub mod laws;
