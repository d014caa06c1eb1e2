pub mod check;
pub mod compatible;
pub mod fallback;
pub mod guarantees;
pub mod mod_downloadable;
pub mod normalize;

use crate::config::filters::ReleaseChannel;
use crate::config::structs::ModLoader;
use crate::text;
use vstd::prelude::*;

verus! {

/// One file that a project offers for download, in the shape that every
/// platform's records are brought to.
///
/// A list of such files is ordered from the newest to the oldest: a file's
/// place in its list is what tells how recent it is.
#[derive(Debug)]
pub struct DownloadFile {
    /// The title of the GitHub Release, Modrinth Version, or CurseForge File
    pub title: String,
    /// The body of the GitHub Release, or the changelog of the Modrinth Version
    pub description: String,
    pub channel: ReleaseChannel,
    pub game_versions: Vec<String>,
    pub loaders: Vec<ModLoader>,
    pub download_url: String,
    /// The path of the downloaded file relative to the output directory,
    /// its components parted by `/`.
    ///
    /// The filename by default, but can be configured with subdirectories for modpacks.
    pub output: String,
    /// The length of the file in bytes
    pub length: usize,
}

/// What a [`DownloadFile`] holds, as mathematical values.
pub struct DownloadFileView {
    pub title: Seq<char>,
    pub description: Seq<char>,
    pub channel: ReleaseChannel,
    pub game_versions: Seq<Seq<char>>,
    pub loaders: Seq<ModLoader>,
    pub download_url: Seq<char>,
    pub output: Seq<char>,
    pub length: nat,
}

impl DownloadFileView {
    /// The last component of the output path.
    pub open spec fn filename(self) -> Seq<char> {
        text::after_last(self.output, '/')
    }
}

impl DeepView for DownloadFile {
    type V = DownloadFileView;

    open spec fn deep_view(&self) -> DownloadFileView {
        DownloadFileView {
            title: self.title@,
            description: self.description@,
            channel: self.channel,
            game_versions: self.game_versions.deep_view(),
            loaders: self.loaders@,
            download_url: self.download_url@,
            output: self.output@,
            length: self.length as nat,
        }
    }
}

impl View for DownloadFile {
    type V = DownloadFileView;

    open spec fn view(&self) -> DownloadFileView {
        self.deep_view()
    }
}

impl Clone for DownloadFile {
    fn clone(&self) -> (copy: Self)
        ensures
            copy@ == self@,
    {
        let game_versions = self.game_versions.clone();
        let loaders = self.loaders.clone();
        DownloadFile {
            title: self.title.clone(),
            description: self.description.clone(),
            channel: self.channel,
            game_versions,
            loaders,
            download_url: self.download_url.clone(),
            output: self.output.clone(),
            length: self.length,
        }
    }
}

impl DownloadFile {
    /// The name of the file itself, without the directories that `output`
    /// puts it under.
    pub fn filename(&self) -> (name: String)
        ensures
            name@ == self@.filename(),
    {
        text::text_after_last(self.output.as_str(), '/')
    }
}

/// The developer of a project has denied third party applications from
/// downloading one of its files. Contains the mod ID and file ID.
#[derive(Debug, Clone, Copy, PartialEq, Eq, Structural)]
pub struct DistributionDeniedError(pub i32, pub i32);

} // verus!
