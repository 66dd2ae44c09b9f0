//! Locates the mod content directory of Ready Or Not below a Steam root and
//! lists the installed mods found there, from directory listings taken by the
//! caller.
pub mod mods;
pub mod path;
