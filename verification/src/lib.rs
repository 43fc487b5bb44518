//! Core of a watch-and-preview service for a markup document: a file-identity
//! cache that resolves paths to canonical identities and memoizes file loads,
//! a dependency-relevance filter for filesystem notifications, a debounced
//! recompilation trigger, a multi-client broadcast hub, and the wire codec
//! for pushing rendered pages to connected viewers.

pub mod assoc;
pub mod cache;
pub mod codec;
pub mod compile;
pub mod debounce;
pub mod error;
pub mod fonts;
pub mod hub;
pub mod ident;
pub mod lines;
pub mod pathnorm;
pub mod portable;
pub mod settings;
pub mod text;
pub mod track;
