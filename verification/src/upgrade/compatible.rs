//! The newest file of a project that fits one game version and one mod
//! loader, with Fabric's files standing in where Quilt has none.

use crate::check::{
    criteria,
    find_fitting_version,
    first_fitting_file,
    github,
    github_latest,
    is_fitting_file,
    lemma_newest_first,
    modrinth,
    modrinth_latest,
    modrinth_latest_has_files,
    newest_first,
    sort_newest_first,
    Criteria,
};
use crate::config::structs::ModLoader;
use crate::iter_ext::{first_where, lemma_first_where};
use crate::platform::{
    CurseForgeFile,
    GitHubAsset,
    GitHubRelease,
    ModrinthVersion,
    ModrinthVersionFile,
};
use crate::upgrade::DistributionDeniedError;
use crate::upgrade::fallback::{falls_back, found_with_fallback, with_fallback};
use vstd::prelude::*;

verus! {

/// The version that is chosen among `versions`, with its file: the first
/// that fits the loader, unmarked; where none fits and the loader is Quilt,
/// the first that fits Fabric, marked.
pub open spec fn latest_version(versions: Seq<ModrinthVersion>, wanted: Criteria) -> Option<
    ((ModrinthVersionFile, ModrinthVersion), bool),
> {
    found_with_fallback(
        wanted.mod_loader,
        ModLoader::Fabric,
        modrinth_latest(versions, wanted),
        modrinth_latest(versions, wanted.for_loader(ModLoader::Fabric)),
    )
}

/// Whether the lookup among `versions` can be made: a version without files
/// must not be the first that fits, neither where the loader's files are
/// looked for nor, if it comes to that, where Fabric's are.
pub open spec fn can_look_among_versions(versions: Seq<ModrinthVersion>, wanted: Criteria) -> bool {
    &&& modrinth_latest_has_files(versions, wanted)
    &&& falls_back(wanted.mod_loader, ModLoader::Fabric) && modrinth_latest(versions, wanted)
        is None ==> modrinth_latest_has_files(versions, wanted.for_loader(ModLoader::Fabric))
}

/// Get the latest compatible version and version file of `versions`.
/// Also returns whether Fabric backwards compatibility was used: what is
/// built for Fabric is looked for where nothing is found for Quilt.
///
/// A version without files must not be the first that fits.
pub fn get_latest_compatible_version<'a>(
    versions: &'a [ModrinthVersion],
    game_version_to_check: &str,
    mod_loader_to_check: &ModLoader,
    should_check_game_version: Option<bool>,
    should_check_mod_loader: Option<bool>,
) -> (latest: Option<(&'a ModrinthVersionFile, &'a ModrinthVersion, bool)>)
    requires
        can_look_among_versions(
            versions@,
            criteria(
                game_version_to_check@,
                *mod_loader_to_check,
                should_check_game_version,
                should_check_mod_loader,
            ),
        ),
    ensures
        match latest_version(
            versions@,
            criteria(
                game_version_to_check@,
                *mod_loader_to_check,
                should_check_game_version,
                should_check_mod_loader,
            ),
        ) {
            Some(((file, version), used_fallback)) => latest == Some(
                (&file, &version, used_fallback),
            ),
            None => latest is None,
        },
{
    let resolve = |loader: ModLoader| -> (found: Result<
        (&'a ModrinthVersionFile, &'a ModrinthVersion),
        (),
    >)
        requires
            modrinth_latest_has_files(
                versions@,
                criteria(
                    game_version_to_check@,
                    loader,
                    should_check_game_version,
                    should_check_mod_loader,
                ),
            ),
        ensures
            match modrinth_latest(
                versions@,
                criteria(
                    game_version_to_check@,
                    loader,
                    should_check_game_version,
                    should_check_mod_loader,
                ),
            ) {
                Some((file, version)) => found == Ok::<
                    (&ModrinthVersionFile, &ModrinthVersion),
                    (),
                >((&file, &version)),
                None => found is Err,
            },
    {
        match modrinth(
            versions,
            game_version_to_check,
            &loader,
            should_check_game_version,
            should_check_mod_loader,
        ) {
            Some(pair) => Ok(pair),
            None => Err(()),
        }
    };
    match with_fallback(*mod_loader_to_check, ModLoader::Fabric, resolve) {
        Ok((pair, used_fallback)) => Some((pair.0, pair.1, used_fallback)),
        Err(_) => None,
    }
}

/// The newest of `files` that fits; of several newest, the first.
pub open spec fn latest_fitting_file(files: Seq<CurseForgeFile>, wanted: Criteria) -> Option<
    CurseForgeFile,
> {
    match first_where(newest_first(files), is_fitting_file(wanted)) {
        Some(i) => Some(newest_first(files)[i]),
        None => None,
    }
}

/// The file that is chosen among `files`: the newest that fits the loader,
/// unmarked; where none fits and the loader is Quilt, the newest that fits
/// Fabric, marked.
pub open spec fn latest_file(files: Seq<CurseForgeFile>, wanted: Criteria) -> Option<
    (CurseForgeFile, bool),
> {
    found_with_fallback(
        wanted.mod_loader,
        ModLoader::Fabric,
        latest_fitting_file(files, wanted),
        latest_fitting_file(files, wanted.for_loader(ModLoader::Fabric)),
    )
}

/// What [`latest_fitting_file`] finds is one of the files, it fits, and no
/// file that fits is newer; where it finds nothing, no file fits.
pub proof fn lemma_latest_fitting_file_is_newest(files: Seq<CurseForgeFile>, wanted: Criteria)
    ensures
        match latest_fitting_file(files, wanted) {
            Some(file) => {
                &&& files.contains(file)
                &&& is_fitting_file(wanted)(file)
                &&& forall|k: int|
                    0 <= k < files.len() && is_fitting_file(wanted)(#[trigger] files[k])
                        ==> files[k].file_date <= file.file_date
            },
            None => forall|k: int|
                0 <= k < files.len() ==> !is_fitting_file(wanted)(#[trigger] files[k]),
        },
{
    broadcast use vstd::seq_lib::group_to_multiset_ensures;

    let sorted = newest_first(files);
    let fitting = is_fitting_file(wanted);
    lemma_newest_first(files);
    lemma_first_where(sorted, fitting);
    assert forall|k: int| 0 <= k < files.len() implies sorted.contains(#[trigger] files[k]) by {
        assert(sorted.to_multiset().count(files[k]) > 0);
    }
    match first_where(sorted, fitting) {
        Some(i) => {
            assert(files.to_multiset().count(sorted[i]) > 0);
            assert forall|k: int|
                0 <= k < files.len() && fitting(#[trigger] files[k]) implies files[k].file_date
                <= sorted[i].file_date by {
                let j = choose|j: int| 0 <= j < sorted.len() && sorted[j] == files[k];
                assert(j < i ==> !fitting(sorted[j]));
            }
        },
        None => {
            assert forall|k: int| 0 <= k < files.len() implies !fitting(#[trigger] files[k]) by {
            }
        },
    }
}

/// Get the latest compatible file of `files`: the newest that fits.
/// Also returns whether Fabric backwards compatibility was used: what is
/// built for Fabric is looked for where nothing is found for Quilt.
pub fn get_latest_compatible_file(
    files: Vec<CurseForgeFile>,
    game_version_to_check: &str,
    mod_loader_to_check: &ModLoader,
    should_check_game_version: Option<bool>,
    should_check_mod_loader: Option<bool>,
) -> (latest: Option<(CurseForgeFile, bool)>)
    ensures
        latest == latest_file(
            files@,
            criteria(
                game_version_to_check@,
                *mod_loader_to_check,
                should_check_game_version,
                should_check_mod_loader,
            ),
        ),
{
    let mut sorted = files;
    sort_newest_first(&mut sorted);
    let candidates = &sorted;
    let resolve = |loader: ModLoader| -> (found: Result<usize, ()>)
        ensures
            match first_where(
                candidates@,
                is_fitting_file(
                    criteria(
                        game_version_to_check@,
                        loader,
                        should_check_game_version,
                        should_check_mod_loader,
                    ),
                ),
            ) {
                Some(i) => found matches Ok(at) && at as int == i && at < candidates@.len(),
                None => found is Err,
            },
    {
        match first_fitting_file(
            candidates,
            game_version_to_check,
            &loader,
            should_check_game_version,
            should_check_mod_loader,
        ) {
            Some(i) => Ok(i),
            None => Err(()),
        }
    };
    match with_fallback(*mod_loader_to_check, ModLoader::Fabric, resolve) {
        Ok((i, used_fallback)) => Some((sorted.swap_remove(i), used_fallback)),
        Err(_) => None,
    }
}

/// The asset that is chosen among those of `releases`: the first that fits
/// the loader, unmarked; where none fits and the loader is Quilt, the first
/// that fits Fabric, marked.
pub open spec fn latest_asset(releases: Seq<GitHubRelease>, wanted: Criteria) -> Option<
    (GitHubAsset, bool),
> {
    found_with_fallback(
        wanted.mod_loader,
        ModLoader::Fabric,
        github_latest(releases, wanted),
        github_latest(releases, wanted.for_loader(ModLoader::Fabric)),
    )
}

/// Get the latest compatible asset of `releases`: the first that fits, the
/// releases taken in their order and each release's assets in theirs.
/// Also returns whether Fabric backwards compatibility was used: what is
/// built for Fabric is looked for where nothing is found for Quilt.
pub fn get_latest_compatible_asset<'a>(
    releases: &'a [GitHubRelease],
    game_version_to_check: &str,
    mod_loader_to_check: &ModLoader,
    should_check_game_version: Option<bool>,
    should_check_mod_loader: Option<bool>,
) -> (latest: Option<(&'a GitHubAsset, bool)>)
    ensures
        match latest_asset(
            releases@,
            criteria(
                game_version_to_check@,
                *mod_loader_to_check,
                should_check_game_version,
                should_check_mod_loader,
            ),
        ) {
            Some((asset, used_fallback)) => latest == Some((&asset, used_fallback)),
            None => latest is None,
        },
{
    let resolve = |loader: ModLoader| -> (found: Result<&'a GitHubAsset, ()>)
        ensures
            match github_latest(
                releases@,
                criteria(
                    game_version_to_check@,
                    loader,
                    should_check_game_version,
                    should_check_mod_loader,
                ),
            ) {
                Some(asset) => found == Ok::<&GitHubAsset, ()>(&asset),
                None => found is Err,
            },
    {
        match github(
            releases,
            game_version_to_check,
            &loader,
            should_check_game_version,
            should_check_mod_loader,
        ) {
            Some(asset) => Ok(asset),
            None => Err(()),
        }
    };
    match with_fallback(*mod_loader_to_check, ModLoader::Fabric, resolve) {
        Ok((asset, used_fallback)) => Some((asset, used_fallback)),
        Err(_) => None,
    }
}

/// Why nothing can be downloaded.
#[derive(Debug, Clone, Copy, PartialEq, Eq, Structural)]
pub enum Error {
    /// No compatible file was found
    NoCompatibleFile,
    /// The file that was found must not be downloaded by third parties
    DistributionDenied(DistributionDeniedError),
}

/// The name of a file and the address to download it from.
#[derive(Debug, Clone)]
pub struct Downloadable {
    pub filename: String,
    pub download_url: String,
}

/// What a [`Downloadable`] holds.
pub struct DownloadableView {
    pub filename: Seq<char>,
    pub download_url: Seq<char>,
}

impl View for Downloadable {
    type V = DownloadableView;

    open spec fn view(&self) -> DownloadableView {
        DownloadableView { filename: self.filename@, download_url: self.download_url@ }
    }
}

/// What is downloaded for a CurseForge file, where the file may be
/// downloaded.
pub open spec fn curseforge_downloadable(file: CurseForgeFile) -> Result<DownloadableView, Error> {
    match file.download_url {
        Some(url) => Ok(DownloadableView { filename: file.file_name@, download_url: url@ }),
        None => Err(Error::DistributionDenied(DistributionDeniedError(file.mod_id, file.id))),
    }
}

/// What is downloaded for a file of a Modrinth version.
pub open spec fn modrinth_downloadable(file: ModrinthVersionFile) -> DownloadableView {
    DownloadableView { filename: file.filename@, download_url: file.url@ }
}

/// What is downloaded for an asset of a GitHub release.
pub open spec fn github_downloadable(asset: GitHubAsset) -> DownloadableView {
    DownloadableView { filename: asset.name@, download_url: asset.browser_download_url@ }
}

impl Downloadable {
    /// The download that stands for a CurseForge file, unless the file must
    /// not be downloaded by third parties.
    pub fn try_from_file(file: CurseForgeFile) -> (downloadable: Result<Downloadable, Error>)
        ensures
            match curseforge_downloadable(file) {
                Ok(view) => downloadable matches Ok(made) && made@ == view,
                Err(error) => downloadable == Err::<Downloadable, Error>(error),
            },
    {
        match file.download_url {
            Some(download_url) => Ok(Downloadable { filename: file.file_name, download_url }),
            None => Err(Error::DistributionDenied(DistributionDeniedError(file.mod_id, file.id))),
        }
    }

    /// The download that stands for a file of a Modrinth version.
    pub fn from_version_file(file: &ModrinthVersionFile) -> (downloadable: Downloadable)
        ensures
            downloadable@ == modrinth_downloadable(*file),
    {
        Downloadable { filename: file.filename.clone(), download_url: file.url.clone() }
    }

    /// The download that stands for an asset of a GitHub release.
    pub fn from_asset(asset: &GitHubAsset) -> (downloadable: Downloadable)
        ensures
            downloadable@ == github_downloadable(*asset),
    {
        Downloadable {
            filename: asset.name.clone(),
            download_url: asset.browser_download_url.clone(),
        }
    }
}

/// What a platform offers of one project.
#[derive(Debug, Clone)]
pub enum ProjectFiles {
    /// The files of a CurseForge project
    CurseForge(Vec<CurseForgeFile>),
    /// The versions of a Modrinth project, the newest first
    Modrinth(Vec<ModrinthVersion>),
    /// The releases of a GitHub repository, the newest first
    GitHub(Vec<GitHubRelease>),
}

/// Whether the lookup among `offered` can be made: among the versions of a
/// Modrinth project, one without files must not be the first that fits.
pub open spec fn can_look_among(offered: ProjectFiles, wanted: Criteria) -> bool {
    match offered {
        ProjectFiles::Modrinth(versions) => can_look_among_versions(versions@, wanted),
        _ => true,
    }
}

/// Tests [`can_look_among`]: whether [`get_latest_compatible_downloadable`]
/// can look among `offered`.
pub fn has_files_to_choose(
    offered: &ProjectFiles,
    game_version_to_check: &str,
    mod_loader_to_check: &ModLoader,
    should_check_game_version: Option<bool>,
    should_check_mod_loader: Option<bool>,
) -> (complete: bool)
    ensures
        complete == can_look_among(
            *offered,
            criteria(
                game_version_to_check@,
                *mod_loader_to_check,
                should_check_game_version,
                should_check_mod_loader,
            ),
        ),
{
    match offered {
        ProjectFiles::Modrinth(versions) => {
            let versions = versions.as_slice();
            match find_fitting_version(
                versions,
                game_version_to_check,
                mod_loader_to_check,
                should_check_game_version,
                should_check_mod_loader,
            ) {
                Some(i) => versions[i].files.len() > 0,
                None => {
                    match mod_loader_to_check.fallback() {
                        Some(ModLoader::Fabric) => crate::check::has_files_to_choose(
                            versions,
                            game_version_to_check,
                            &ModLoader::Fabric,
                            should_check_game_version,
                            should_check_mod_loader,
                        ),
                        _ => true,
                    }
                },
            }
        },
        _ => true,
    }
}

/// What the lookup among `offered` ends with: the download that stands for
/// the file that is chosen, with the file's mark, or that there is no
/// compatible file, or that the file must not be downloaded.
pub open spec fn latest_downloadable(offered: ProjectFiles, wanted: Criteria) -> Result<
    (DownloadableView, bool),
    Error,
> {
    match offered {
        ProjectFiles::CurseForge(files) => match latest_file(files@, wanted) {
            Some((file, used_fallback)) => match curseforge_downloadable(file) {
                Ok(view) => Ok((view, used_fallback)),
                Err(error) => Err(error),
            },
            None => Err(Error::NoCompatibleFile),
        },
        ProjectFiles::Modrinth(versions) => match latest_version(versions@, wanted) {
            Some(((file, _), used_fallback)) => Ok((modrinth_downloadable(file), used_fallback)),
            None => Err(Error::NoCompatibleFile),
        },
        ProjectFiles::GitHub(releases) => match latest_asset(releases@, wanted) {
            Some((asset, used_fallback)) => Ok((github_downloadable(asset), used_fallback)),
            None => Err(Error::NoCompatibleFile),
        },
    }
}

/// Get the latest compatible download among what a platform offers of a
/// project. Also returns whether Fabric backwards compatibility was used.
pub fn get_latest_compatible_downloadable(
    offered: ProjectFiles,
    game_version_to_check: &str,
    mod_loader_to_check: &ModLoader,
    should_check_game_version: Option<bool>,
    should_check_mod_loader: Option<bool>,
) -> (outcome: Result<(Downloadable, bool), Error>)
    requires
        can_look_among(
            offered,
            criteria(
                game_version_to_check@,
                *mod_loader_to_check,
                should_check_game_version,
                should_check_mod_loader,
            ),
        ),
    ensures
        match latest_downloadable(
            offered,
            criteria(
                game_version_to_check@,
                *mod_loader_to_check,
                should_check_game_version,
                should_check_mod_loader,
            ),
        ) {
            Ok((view, used_fallback)) => outcome matches Ok(made) && made.0@ == view && made.1
                == used_fallback,
            Err(error) => outcome == Err::<(Downloadable, bool), Error>(error),
        },
{
    match offered {
        ProjectFiles::CurseForge(files) => {
            match get_latest_compatible_file(
                files,
                game_version_to_check,
                mod_loader_to_check,
                should_check_game_version,
                should_check_mod_loader,
            ) {
                Some((file, used_fallback)) => match Downloadable::try_from_file(file) {
                    Ok(downloadable) => Ok((downloadable, used_fallback)),
                    Err(error) => Err(error),
                },
                None => Err(Error::NoCompatibleFile),
            }
        },
        ProjectFiles::Modrinth(versions) => {
            match get_latest_compatible_version(
                versions.as_slice(),
                game_version_to_check,
                mod_loader_to_check,
                should_check_game_version,
                should_check_mod_loader,
            ) {
                Some((file, _, used_fallback)) => Ok(
                    (Downloadable::from_version_file(file), used_fallback),
                ),
                None => Err(Error::NoCompatibleFile),
            }
        },
        ProjectFiles::GitHub(releases) => {
            match get_latest_compatible_asset(
                releases.as_slice(),
                game_version_to_check,
                mod_loader_to_check,
                should_check_game_version,
                should_check_mod_loader,
            ) {
                Some((asset, used_fallback)) => Ok((Downloadable::from_asset(asset), used_fallback)),
                None => Err(Error::NoCompatibleFile),
            }
        },
    }
}

} // verus!
