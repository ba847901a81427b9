//! Build-time preparation of foreign-language bindings for a native library.
//!
//! The crate models the stages that run before an external binding generator
//! is invoked: expanding shorthand directives in the interface spec into full
//! binding declarations, the per-type conversion rules (typemaps) between the
//! native representation and each foreign runtime, selecting the target
//! language and its conventions, locating the foreign runtime's native
//! headers, and reconciling the generated output directory.

pub mod access;
pub mod bytes;
pub mod config;
pub mod directive;
pub mod driver;
pub mod handles;
pub mod headers;
pub mod nullable;
pub mod reconcile;
pub mod text;
pub mod timestamp;
pub mod typemap;
