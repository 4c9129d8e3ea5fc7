//! A derivation engine for record types. From a plain description of a
//! record (its fields, their declared types and their annotations) it
//! synthesizes two plans: a fluent builder with a fallible `build`, and a
//! field-by-field debug renderer whose generic bounds are kept minimal.
//!
//! - `schema`: the description handed in, and its normalisation.
//! - `classify`: plain, optional and sequence types; phantom-only parameters.
//! - `attrs`: the `builder(each = "...")` and `debug = "..."` annotations.
//! - `builder`: the builder plan and its setters.
//! - `runtime`: a builder in use, whose field values are text.
//! - `debug`: the renderer plan and its bounds.

pub mod attrs;
pub mod builder;
pub mod classify;
pub mod debug;
pub mod runtime;
pub mod schema;
