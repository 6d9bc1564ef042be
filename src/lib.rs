//! Generation plans for a type-state builder.
//!
//! Given a record schema (an ordered list of fields, each with a type, an
//! optional default expression, an exclusion flag and an optional doc text),
//! this library computes the shape of a companion builder: one generic slot
//! per included field, one setter per included field that moves its slot from
//! the unset shape to the set shape, and a finalizer that only accepts a
//! builder whose required slots are all set. The plans are plain data; a
//! token emitter renders them as code.
//!
//! The `model` module gives the generated code a meaning (which builder types
//! a setter or the finalizer accepts, and which record the finalizer returns),
//! and `laws` proves the properties of that code over every schema.

pub mod schema;
pub mod shape;
pub mod generate;
pub mod model;
pub mod laws;
