//! Renaming support for Minecraft mod archives: extracts a mod's identity
//! from its archive metadata, resolves a display name from several sources
//! with a fixed precedence, derives side and category tags from registry
//! metadata, and builds a filesystem-safe rename target.

pub mod identity;
pub mod mcmoddb;
pub mod modrinthapi;
pub mod rename;
pub mod resolver;
