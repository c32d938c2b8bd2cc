//! Binding generator for exposing native records and tagged unions to an
//! embedded scripting runtime.
//!
//! The library works on a plain description of a declaration (its fields,
//! variants and access levels) and on the declarative options attached to it,
//! and produces binding descriptors: accessors, constructors and trampolines.
//! It also holds the conversion layer between native values and the runtime's
//! table-based value model, and an explicit model of the runtime's global
//! namespace.

pub mod error;

// Reading the declaration and its options.
pub mod attr;
pub mod visibility;

// The runtime's values and the conversions of payloads.
pub mod entries;
pub mod shape;
pub mod value;

// Binding descriptors.
pub mod arity;
pub mod binding;
pub mod expand;
pub mod record;
pub mod registry;
pub mod sum;

pub mod traits;

pub use expand::mlua_gen;
pub use traits::{LuaBuilder, NewIndex};
