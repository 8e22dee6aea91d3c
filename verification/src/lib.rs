//! Emission of binding declarations from a model of C declarations.
//!
//! The input is an arena of C entities (type aliases, composites, enums,
//! variables and functions) and the ordered list of top-level declarations
//! that refer to them. The output is a tree of declarations in the target
//! language, ready to be handed to a printer.
//!
//! - `model`: the arena and its soundness.
//! - `ast`: the declarations that are emitted, and their views.
//! - `naming`: reserved words, and names for anonymous composites and enums.
//! - `cty`: a C type as a type reference of the target language.
//! - `decl`: one declaration: alias, struct, union, enum, variable, function.
//! - `dedup`: the declarations that an alias makes redundant.
//! - `unit`: the whole unit.
//! - `text`: decimal numerals.

pub mod ast;
pub mod cty;
pub mod decl;
pub mod dedup;
pub mod model;
pub mod naming;
pub mod text;
pub mod unit;
