//! Keeps track of the mods of a Minecraft instance across Modrinth,
//! CurseForge and GitHub Releases, and chooses, for each mod, the one file to
//! download: the newest that fits the game version, the mod loader and the
//! release channel that are asked for.
//!
//! The library decides and computes; it does not talk to the platforms.
//! What they offer of a project is handed to it as plain records
//! ([`platform`]), brought to one shape ([`upgrade::normalize`]) and put
//! through the filters of a profile ([`upgrade::check`]). Every function is
//! verified against the contract that it carries; what is taken from
//! elsewhere without proof stands in [`pattern`], at the top of [`text`] and
//! at the top of [`config::structs`].

pub mod add;
pub mod check;
pub mod config;
pub mod iter_ext;
pub mod modpack;
pub mod pattern;
pub mod platform;
pub mod text;
pub mod upgrade;
pub mod version_ext;
