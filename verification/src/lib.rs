//! Stream engines behind three small text tools: one that numbers lines, one
//! that keeps the head of a stream, and one that counts lines, words, bytes
//! and characters.

pub mod batch;
pub mod bounded;
pub mod catr;
pub mod config;
pub mod counting;
pub mod decimal;
pub mod headr;
pub mod lines;
pub mod numbering;
pub mod wcr;
