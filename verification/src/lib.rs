//! A schema and document conversion engine for API descriptions.
//!
//! The library builds schema nodes from plain type descriptors — objects
//! with field rules, tagged unions under four tagging strategies,
//! transparent and positional tuples — resolves nested types inline or by
//! reference, lays descriptive metadata over shared definitions without
//! mutating them, and converts whole operations of the older document
//! format to the newer one: parameters are classified into passthrough,
//! body and form, form fields collapse into one synthesized payload,
//! response keys are parsed as numeric status codes, and security
//! requirements carry over.
//!
//! Every executable function is verified against a specification-level
//! mirror of its behaviour; the laws the library promises are proved in
//! the modules that state them.

pub mod builder;
pub mod convert;
pub mod header;
pub mod operation;
pub mod rename;
pub mod schema;
pub mod security;
pub mod text;
pub mod v3;
