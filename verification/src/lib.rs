//! Verified building blocks of the workspace binding generator: the
//! camel-case conversion of method names, the printing of separated lists,
//! and the TypeScript module that exposes the workspace over a transport.

pub mod casing;
pub mod separated;
pub mod bindings;
