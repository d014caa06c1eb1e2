//! What to ask a platform for, for one mod of a profile, and which file to
//! download once the platform has answered.

use crate::check::{newest_first, sort_newest_first};
use crate::config::filters::{Filter, FilterView};
use crate::config::structs::{Mod, ModIdentifier, ModIdentifierView};
use crate::platform::{CurseForgeFile, GitHubAsset, GitHubRelease, ModrinthVersion};
use crate::text;
use crate::upgrade::check::{explains, resolution, select_latest, Resolution};
use crate::upgrade::{DistributionDeniedError, DownloadFile, DownloadFileView};
use crate::upgrade::normalize::{
    curseforge_file,
    curseforge_files,
    from_gh_asset,
    from_gh_releases,
    from_mr_version,
    from_mr_versions,
    github_releases,
    lone_github_asset,
    modrinth_version,
    modrinth_versions,
    try_from_cf_file,
    try_from_cf_files,
};
use crate::version_ext::VersionExt;
use vstd::prelude::*;

verus! {

/// Why no file was found for a mod.
#[derive(Debug)]
pub enum Error {
    /// The file must not be downloaded by third parties
    DistributionDenied(DistributionDeniedError),
    /// No file passes the filters
    CheckError(super::check::Error),
    /// The pin provided is an invalid identifier
    InvalidPinID,
}

/// What has to be asked of a platform to find a mod's file.
#[derive(Debug, Clone, PartialEq, Eq)]
pub enum DownloadRequest {
    /// One file of a CurseForge project: the project's ID and the file's
    CurseForgeFile(i32, i32),
    /// The Modrinth version of this ID
    ModrinthVersion(String),
    /// One asset of a GitHub repository: the owner, the repository and the
    /// asset's ID
    GitHubAsset(String, String, u64),
    /// All files of the CurseForge project of this ID
    CurseForgeFiles(i32),
    /// All versions of the Modrinth project of this ID
    ModrinthVersions(String),
    /// All releases of a GitHub repository: the owner and the repository
    GitHubReleases(String, String),
}

/// What a [`DownloadRequest`] holds.
pub enum DownloadRequestView {
    CurseForgeFile(i32, i32),
    ModrinthVersion(Seq<char>),
    GitHubAsset(Seq<char>, Seq<char>, u64),
    CurseForgeFiles(i32),
    ModrinthVersions(Seq<char>),
    GitHubReleases(Seq<char>, Seq<char>),
}

impl View for DownloadRequest {
    type V = DownloadRequestView;

    open spec fn view(&self) -> DownloadRequestView {
        match self {
            DownloadRequest::CurseForgeFile(project, file) => DownloadRequestView::CurseForgeFile(
                *project,
                *file,
            ),
            DownloadRequest::ModrinthVersion(id) => DownloadRequestView::ModrinthVersion(id@),
            DownloadRequest::GitHubAsset(owner, repo, asset) => DownloadRequestView::GitHubAsset(
                owner@,
                repo@,
                *asset,
            ),
            DownloadRequest::CurseForgeFiles(project) => DownloadRequestView::CurseForgeFiles(
                *project,
            ),
            DownloadRequest::ModrinthVersions(id) => DownloadRequestView::ModrinthVersions(id@),
            DownloadRequest::GitHubReleases(owner, repo) => DownloadRequestView::GitHubReleases(
                owner@,
                repo@,
            ),
        }
    }
}

/// What a platform has answered to a [`DownloadRequest`].
#[derive(Debug, Clone)]
pub enum DownloadResponse {
    /// The pinned file of a CurseForge project
    PinnedFile(CurseForgeFile),
    /// The pinned version of a Modrinth project
    PinnedVersion(ModrinthVersion),
    /// The pinned asset of a GitHub repository
    PinnedAsset(GitHubAsset),
    /// The files of a CurseForge project, in any order
    Files(Vec<CurseForgeFile>),
    /// The versions of a Modrinth project, the newest first
    Versions(Vec<ModrinthVersion>),
    /// The releases of a GitHub repository, the newest first
    Releases(Vec<GitHubRelease>),
}

/// What has to be asked for a mod that `identifier` names. With a pin, that
/// is the pinned file alone, and the pin has to be the number that CurseForge
/// and GitHub know the file by; Modrinth takes the pin as it is. Without a
/// pin, everything that the project offers is asked for.
pub open spec fn request_for(identifier: ModIdentifierView, pin: Option<Seq<char>>) -> Option<
    DownloadRequestView,
> {
    match pin {
        Some(pin) => match identifier {
            ModIdentifierView::CurseForgeProject(project) => match text::parsed_i32(pin) {
                Some(file) => Some(DownloadRequestView::CurseForgeFile(project, file)),
                None => None,
            },
            ModIdentifierView::ModrinthProject(_) => Some(
                DownloadRequestView::ModrinthVersion(pin),
            ),
            ModIdentifierView::GitHubRepository(owner, repo) => match text::parsed_u64(pin) {
                Some(asset) => Some(DownloadRequestView::GitHubAsset(owner, repo, asset)),
                None => None,
            },
        },
        None => Some(
            match identifier {
                ModIdentifierView::CurseForgeProject(project) => {
                    DownloadRequestView::CurseForgeFiles(project)
                },
                ModIdentifierView::ModrinthProject(id) => DownloadRequestView::ModrinthVersions(
                    id,
                ),
                ModIdentifierView::GitHubRepository(owner, repo) => {
                    DownloadRequestView::GitHubReleases(owner, repo)
                },
            },
        ),
    }
}

/// The filters that hold for a mod: its own alone where they override the
/// profile's, the profile's followed by its own where they do not.
pub open spec fn effective_filters(
    profile_filters: Seq<FilterView>,
    mod_filters: Seq<FilterView>,
    override_filters: bool,
) -> Seq<FilterView> {
    if override_filters {
        mod_filters
    } else {
        profile_filters + mod_filters
    }
}

/// Whether `outcome` is the file or the error that `resolution` prescribes
/// for the files whose views are `files`.
pub open spec fn is_chosen(
    outcome: Result<DownloadFile, Error>,
    files: Seq<DownloadFileView>,
    resolution: Resolution,
) -> bool {
    match resolution {
        Resolution::Latest(i) => {
            &&& i < files.len()
            &&& outcome matches Ok(file)
            &&& file@ == files[i as int]
        },
        failure => outcome matches Err(Error::CheckError(error)) && explains(error, failure),
    }
}

/// Whether `outcome` is the file or the error that a platform's answer leads
/// to. A pinned file is taken as it is, whatever the filters say. Of all
/// that a project offers, the newest file that passes the filters is chosen.
/// The files of a CurseForge project are brought into order first, the
/// newest first, and they are refused as a whole where one of them must not
/// be downloaded.
pub open spec fn is_download_file(
    filters: Seq<FilterView>,
    response: DownloadResponse,
    groups: Seq<Seq<Seq<char>>>,
    outcome: Result<DownloadFile, Error>,
) -> bool {
    match response {
        DownloadResponse::PinnedFile(file) => match curseforge_file(file) {
            Ok(view) => outcome matches Ok(download) && download@ == view,
            Err(denied) => outcome matches Err(Error::DistributionDenied(reported)) && reported
                == denied,
        },
        DownloadResponse::PinnedVersion(version) => outcome matches Ok(download) && download@
            == modrinth_version(version),
        DownloadResponse::PinnedAsset(asset) => outcome matches Ok(download) && download@
            == lone_github_asset(asset),
        DownloadResponse::Files(files) => match curseforge_files(newest_first(files@)) {
            Ok(views) => is_chosen(outcome, views, resolution(filters, views, groups)),
            Err(denied) => outcome matches Err(Error::DistributionDenied(reported)) && reported
                == denied,
        },
        DownloadResponse::Versions(versions) => is_chosen(
            outcome,
            modrinth_versions(versions@),
            resolution(filters, modrinth_versions(versions@), groups),
        ),
        DownloadResponse::Releases(releases) => is_chosen(
            outcome,
            github_releases(releases@),
            resolution(filters, github_releases(releases@), groups),
        ),
    }
}

/// Whether every Modrinth version of `response` has a file.
pub open spec fn is_complete(response: DownloadResponse) -> bool {
    match response {
        DownloadResponse::PinnedVersion(version) => version.has_files(),
        DownloadResponse::Versions(versions) => forall|i: int|
            0 <= i < versions@.len() ==> (#[trigger] versions@[i]).has_files(),
        _ => true,
    }
}

impl DownloadResponse {
    /// Tests [`is_complete`]: whether [`Mod::fetch_download_file`] can take
    /// this answer.
    #[verifier::loop_isolation(false)]
    pub fn has_all_files(&self) -> (complete: bool)
        ensures
            complete == is_complete(*self),
    {
        match self {
            DownloadResponse::PinnedVersion(version) => version.files.len() > 0,
            DownloadResponse::Versions(versions) => {
                let mut i: usize = 0;
                while i < versions.len()
                    invariant
                        i <= versions.len(),
                        forall|k: int| 0 <= k < i ==> (#[trigger] versions@[k]).has_files(),
                    decreases versions.len() - i,
                {
                    if versions[i].files.len() == 0 {
                        return false;
                    }
                    i += 1;
                }
                true
            },
            _ => true,
        }
    }
}

/// Chooses among `files` and says how it ended in this module's terms.
fn choose_latest(
    files: Vec<DownloadFile>,
    filters: &Vec<Filter>,
    version_groups: &[Vec<String>],
) -> (outcome: Result<DownloadFile, Error>)
    ensures
        is_chosen(
            outcome,
            files.deep_view(),
            resolution(filters.deep_view(), files.deep_view(), version_groups.deep_view()),
        ),
{
    let rules = filters.as_slice();
    match select_latest(files, rules, version_groups) {
        Ok(file) => Ok(file),
        Err(error) => Err(Error::CheckError(error)),
    }
}

impl Mod {
    /// What has to be asked of the mod's platform to find the file to
    /// download.
    pub fn download_request(&self) -> (request: Result<DownloadRequest, Error>)
        ensures
            match request_for(
                self.identifier@,
                match self.pin {
                    Some(pin) => Some(pin@),
                    None => None,
                },
            ) {
                Some(view) => request matches Ok(made) && made@ == view,
                None => request matches Err(Error::InvalidPinID),
            },
    {
        match &self.pin {
            Some(pin) => match &self.identifier {
                ModIdentifier::CurseForgeProject(project) => match text::parse_i32(pin.as_str()) {
                    Some(file) => Ok(DownloadRequest::CurseForgeFile(*project, file)),
                    None => Err(Error::InvalidPinID),
                },
                ModIdentifier::ModrinthProject(_) => Ok(
                    DownloadRequest::ModrinthVersion(pin.clone()),
                ),
                ModIdentifier::GitHubRepository(repository) => match text::parse_u64(
                    pin.as_str(),
                ) {
                    Some(asset) => Ok(
                        DownloadRequest::GitHubAsset(
                            repository.0.clone(),
                            repository.1.clone(),
                            asset,
                        ),
                    ),
                    None => Err(Error::InvalidPinID),
                },
            },
            None => Ok(
                match &self.identifier {
                    ModIdentifier::CurseForgeProject(project) => DownloadRequest::CurseForgeFiles(
                        *project,
                    ),
                    ModIdentifier::ModrinthProject(id) => DownloadRequest::ModrinthVersions(
                        id.clone(),
                    ),
                    ModIdentifier::GitHubRepository(repository) => {
                        DownloadRequest::GitHubReleases(
                            repository.0.clone(),
                            repository.1.clone(),
                        )
                    },
                },
            ),
        }
    }

    /// The filters that hold for this mod in a profile with
    /// `profile_filters`: the mod's own filters take the place of the
    /// profile's where they override them and follow them where they do not.
    pub fn effective_filters(&self, profile_filters: Vec<Filter>) -> (filters: Vec<Filter>)
        ensures
            filters.deep_view() == effective_filters(
                profile_filters.deep_view(),
                self.filters.deep_view(),
                self.override_filters,
            ),
    {
        let mut filters = if self.override_filters {
            Vec::new()
        } else {
            profile_filters
        };
        let ghost front = filters.deep_view();
        let mut k: usize = 0;
        while k < self.filters.len()
            invariant
                k <= self.filters.len(),
                filters.deep_view() =~= front + self.filters.deep_view().take(k as int),
            decreases self.filters.len() - k,
        {
            let ghost before = filters.deep_view();
            let copy = self.filters[k].clone();
            filters.push(copy);
            assert(filters.deep_view() =~= before.push(copy.deep_view()));
            k += 1;
        }
        filters
    }

    /// The file to download for this mod, given what its platform answered
    /// to [`Mod::download_request`]. A pinned file is taken as it is. Of all
    /// that the project offers, the newest file is taken that passes the
    /// filters that hold for the mod; the files of a CurseForge project are
    /// put in order first, the newest first.
    pub fn fetch_download_file(
        &self,
        profile_filters: Vec<Filter>,
        response: DownloadResponse,
        version_groups: &[Vec<String>],
    ) -> (outcome: Result<DownloadFile, Error>)
        requires
            is_complete(response),
        ensures
            is_download_file(
                effective_filters(
                    profile_filters.deep_view(),
                    self.filters.deep_view(),
                    self.override_filters,
                ),
                response,
                version_groups.deep_view(),
                outcome,
            ),
    {
        match response {
            DownloadResponse::PinnedFile(file) => match try_from_cf_file(file) {
                Ok(download) => Ok(download),
                Err(denied) => Err(Error::DistributionDenied(denied)),
            },
            DownloadResponse::PinnedVersion(version) => Ok(from_mr_version(version)),
            DownloadResponse::PinnedAsset(asset) => Ok(from_gh_asset(asset)),
            DownloadResponse::Files(files) => {
                let mut sorted = files;
                sort_newest_first(&mut sorted);
                match try_from_cf_files(sorted) {
                    Ok(download_files) => {
                        let filters = self.effective_filters(profile_filters);
                        choose_latest(download_files, &filters, version_groups)
                    },
                    Err(denied) => Err(Error::DistributionDenied(denied)),
                }
            },
            DownloadResponse::Versions(versions) => {
                let download_files = from_mr_versions(versions);
                let filters = self.effective_filters(profile_filters);
                choose_latest(download_files, &filters, version_groups)
            },
            DownloadResponse::Releases(releases) => {
                let download_files = from_gh_releases(&releases);
                let filters = self.effective_filters(profile_filters);
                choose_latest(download_files, &filters, version_groups)
            },
        }
    }
}

} // verus!
