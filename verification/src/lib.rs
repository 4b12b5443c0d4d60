//! A small remote code-execution library: an in-memory registry of programs
//! written in JavaScript, TypeScript or Python, content hashing of code and
//! inputs for provenance, and the generation and interpretation of the
//! per-language harness runs that execute a registered program on a JSON
//! payload.

pub mod adapters;
pub mod engine;
pub mod hashing;
pub mod json;
pub mod registry;
pub mod text;
