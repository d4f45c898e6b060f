//! Code generator for field-wise animation of user-defined data types.
//!
//! Given the shape of a struct or enum (its variants, fields, and
//! per-variant / per-field attributes), the generator decides what an
//! `animate` implementation for that type must do: which match arms to
//! emit, whether a catch-all arm is needed, what statement each field
//! gets, and which trait bounds the impl's where-clause must carry.
//!
//! The generator is a pure shape-to-shape transformer: it never touches
//! runtime values. Its output is a structured description of the
//! generated impl; rendering that description to source text is left to
//! the caller.

pub mod generate;
pub mod laws;
pub mod output;
pub mod semantics;
pub mod shape;
