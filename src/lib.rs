//! A small regular-expression matcher: a pattern compiler that turns a
//! pattern string into a flat sequence of tokens, and a single-pass matching
//! engine that scans one input line against those tokens.

pub mod text;
pub mod pattern;
pub mod compiler;
pub mod engine;
pub mod laws;
