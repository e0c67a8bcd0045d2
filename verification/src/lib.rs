//! Verified core of a C-callable boundary around a text-template engine.
//!
//! The crate models the dynamically typed context values that callers build
//! through narrow setter calls, the environment that owns compiled templates
//! and rendering flags, the render pipeline that binds a value to a template,
//! and the error reporter that carries a stable code plus the causal chain of
//! an engine failure.  The template engine itself (minijinja) and the JSON
//! decoder (sonic_rs) are collaborators reached through a small set of
//! trusted declarations in [`engine`].
#![allow(non_camel_case_types)]

pub mod engine;
pub mod environment;
pub mod errors;
pub mod json;
pub mod text;
pub mod types;
pub mod value;
