//! The incremental semantic core of a small compiler front end: a
//! demand-driven, dependency-tracked query engine that turns source text into
//! name-resolved, type-checked declarations, together with the interning
//! tables, type lowering with cycle recovery, a semantic validator, the
//! backend resource cache and the linker command builders around it.

pub mod backend;
pub mod db;
pub mod defs;
pub mod ids;
pub mod intern;
pub mod memo;
pub mod parser;
pub mod reflection;
pub mod syntax;
pub mod ty;
pub mod validator;
