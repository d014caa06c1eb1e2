//! What the three platforms tell about their projects and files, as far as
//! the library reads it: plain values, filled in by whoever talks to the
//! platforms.

use vstd::prelude::*;

verus! {

/// How stable CurseForge calls a file.
#[derive(Debug, Clone, Copy, PartialEq, Eq, Structural)]
pub enum CurseForgeReleaseType {
    Release,
    Beta,
    Alpha,
}

/// A file of a CurseForge project.
#[derive(Debug, Clone)]
pub struct CurseForgeFile {
    pub id: i32,
    pub mod_id: i32,
    pub display_name: String,
    /// Exact file name
    pub file_name: String,
    pub release_type: CurseForgeReleaseType,
    /// When the file was uploaded, in milliseconds since the Unix epoch
    pub file_date: i64,
    /// The file length in bytes
    pub file_length: usize,
    /// Where the file can be had; `None` where the project's developer does
    /// not let third parties download it
    pub download_url: Option<String>,
    /// The game versions this file is relevant for. CurseForge lists the
    /// mod loaders among them.
    pub game_versions: Vec<String>,
}

/// What CurseForge's index of a project's latest files says of one file.
#[derive(Debug, Clone)]
pub struct CurseForgeFileIndex {
    pub game_version: String,
    /// The name of the file's mod loader, where CurseForge gives one
    pub mod_loader: Option<String>,
}

/// A CurseForge project.
#[derive(Debug, Clone)]
pub struct CurseForgeProject {
    pub id: i32,
    pub name: String,
    /// The address of the project's page on CurseForge
    pub website_url: String,
    pub allow_mod_distribution: Option<bool>,
    pub latest_files_indexes: Vec<CurseForgeFileIndex>,
}

/// How stable Modrinth calls a version.
#[derive(Debug, Clone, Copy, PartialEq, Eq, Structural)]
pub enum ModrinthVersionType {
    Release,
    Beta,
    Alpha,
}

/// One of the files of a Modrinth version.
#[derive(Debug, Clone)]
pub struct ModrinthVersionFile {
    pub url: String,
    pub filename: String,
    /// Whether the file is the primary file of its version
    pub primary: bool,
    /// The size of the file in bytes
    pub size: usize,
}

/// A version of a Modrinth project.
#[derive(Debug, Clone)]
pub struct ModrinthVersion {
    pub name: String,
    pub changelog: Option<String>,
    pub game_versions: Vec<String>,
    pub version_type: ModrinthVersionType,
    pub loaders: Vec<String>,
    /// The files available for download
    pub files: Vec<ModrinthVersionFile>,
}

/// What kind of thing a Modrinth project is.
#[derive(Debug, Clone, Copy, PartialEq, Eq, Structural)]
pub enum ModrinthProjectType {
    Mod,
    Modpack,
    Other,
}

/// A Modrinth project.
#[derive(Debug, Clone)]
pub struct ModrinthProject {
    pub id: String,
    /// The project's slug, used for vanity URLs
    pub slug: String,
    pub title: String,
    pub project_type: ModrinthProjectType,
    /// All of the game versions supported by the project
    pub game_versions: Vec<String>,
    /// All of the loaders supported by the project
    pub loaders: Vec<String>,
}

/// The kind of a game version in Modrinth's list of game versions.
#[derive(Debug, Clone, Copy, PartialEq, Eq, Structural)]
pub enum GameVersionType {
    Release,
    Snapshot,
    Beta,
    Alpha,
}

/// An entry of Modrinth's list of game versions.
#[derive(Debug, Clone)]
pub struct GameVersion {
    pub version: String,
    pub version_type: GameVersionType,
    /// Whether this game version was considered a major version
    pub major: bool,
}

/// A file attached to a GitHub release.
#[derive(Debug, Clone)]
pub struct GitHubAsset {
    pub name: String,
    pub browser_download_url: String,
    /// The size of the file in bytes
    pub size: usize,
}

/// A release of a GitHub repository.
#[derive(Debug, Clone)]
pub struct GitHubRelease {
    pub name: Option<String>,
    pub body: Option<String>,
    pub prerelease: bool,
    pub assets: Vec<GitHubAsset>,
}

/// A GitHub repository, with the names of the assets of its releases, the
/// newest release first.
#[derive(Debug, Clone)]
pub struct GitHubRepository {
    pub owner: String,
    pub name: String,
    pub asset_names: Vec<String>,
}

/// What GitHub says where it cannot answer a part of a query.
#[derive(Debug, Clone)]
pub struct GraphQlError {
    /// The kind of the error, `NOT_FOUND` where the repository does not exist
    pub type_: String,
    /// The way to the part of the query that the error is about: first the
    /// name that the repository was asked for under
    pub path: Vec<String>,
    pub message: String,
}

/// One file of a Modrinth modpack's index.
#[derive(Debug, Clone)]
pub struct ModpackFile {
    /// The destination path of this file, relative to the Minecraft instance
    /// directory, its components parted by `/`
    pub path: String,
    /// Addresses where this file may be downloaded
    pub downloads: Vec<String>,
    /// The size of the file in bytes
    pub file_size: usize,
}

} // verus!
