//! Bringing what each platform tells of a file to one shape.

use crate::config::filters::ReleaseChannel;
use crate::config::structs::{find_loaders, loaders_among};
use crate::platform::{
    CurseForgeFile,
    CurseForgeReleaseType,
    GitHubAsset,
    GitHubRelease,
    ModpackFile,
    ModrinthVersion,
    ModrinthVersionType,
};
use crate::text;
use crate::upgrade::{DistributionDeniedError, DownloadFile, DownloadFileView};
use crate::version_ext::VersionExt;
use vstd::prelude::*;

verus! {

/// Where a file named `file_name` is put: archives among the resource
/// packs, everything else among the mods.
pub open spec fn output_path(file_name: Seq<char>) -> Seq<char> {
    if text::ends_with(file_name, ".zip"@) {
        "resourcepacks/"@ + file_name
    } else {
        "mods/"@ + file_name
    }
}

/// Computes [`output_path`].
pub fn output_for(file_name: &str) -> (output: String)
    ensures
        output@ == output_path(file_name@),
{
    let mut output = if text::text_ends_with(file_name, ".zip") {
        "resourcepacks/".to_owned()
    } else {
        "mods/".to_owned()
    };
    output.append(file_name);
    output
}

/// A file name that holds no `/` is found again in the path that
/// [`output_path`] makes of it.
pub proof fn lemma_output_path_keeps_filename(file_name: Seq<char>)
    requires
        !file_name.contains('/'),
    ensures
        text::after_last(output_path(file_name), '/') == file_name,
{
    reveal_strlit("resourcepacks/");
    reveal_strlit("mods/");
    let path = output_path(file_name);
    let start = path.len() - file_name.len();
    assert forall|k: int| start <= k < path.len() implies path[k] != '/' by {
    }
    text::lemma_after_last(path, '/', start);
}

/// The channel that a CurseForge release type stands for.
pub open spec fn curseforge_channel(release_type: CurseForgeReleaseType) -> ReleaseChannel {
    match release_type {
        CurseForgeReleaseType::Release => ReleaseChannel::Release,
        CurseForgeReleaseType::Beta => ReleaseChannel::Beta,
        CurseForgeReleaseType::Alpha => ReleaseChannel::Alpha,
    }
}

/// The channel that a Modrinth version type stands for.
pub open spec fn modrinth_channel(version_type: ModrinthVersionType) -> ReleaseChannel {
    match version_type {
        ModrinthVersionType::Release => ReleaseChannel::Release,
        ModrinthVersionType::Beta => ReleaseChannel::Beta,
        ModrinthVersionType::Alpha => ReleaseChannel::Alpha,
    }
}

/// What a CurseForge file comes to: the download is refused where the file
/// has no address to download it from.
pub open spec fn curseforge_file(file: CurseForgeFile) -> Result<
    DownloadFileView,
    DistributionDeniedError,
> {
    match file.download_url {
        None => Err(DistributionDeniedError(file.mod_id, file.id)),
        Some(url) => Ok(
            DownloadFileView {
                title: file.display_name@,
                description: Seq::empty(),
                channel: curseforge_channel(file.release_type),
                game_versions: file.game_versions.deep_view(),
                loaders: loaders_among(file.game_versions.deep_view()),
                download_url: url@,
                output: output_path(file.file_name@),
                length: file.file_length as nat,
            },
        ),
    }
}

/// Brings a CurseForge file to the common shape. CurseForge names a file's
/// loaders among its game versions, where they are looked for.
pub fn try_from_cf_file(file: CurseForgeFile) -> (converted: Result<
    DownloadFile,
    DistributionDeniedError,
>)
    ensures
        match curseforge_file(file) {
            Ok(view) => converted matches Ok(download) && download@ == view,
            Err(denied) => converted == Err::<DownloadFile, DistributionDeniedError>(denied),
        },
{
    let download_url = match file.download_url {
        Some(url) => url,
        None => {
            return Err(DistributionDeniedError(file.mod_id, file.id));
        },
    };
    let loaders = find_loaders(&file.game_versions);
    let output = output_for(file.file_name.as_str());
    Ok(
        DownloadFile {
            title: file.display_name,
            description: String::new(),
            channel: match file.release_type {
                CurseForgeReleaseType::Release => ReleaseChannel::Release,
                CurseForgeReleaseType::Beta => ReleaseChannel::Beta,
                CurseForgeReleaseType::Alpha => ReleaseChannel::Alpha,
            },
            game_versions: file.game_versions,
            loaders,
            download_url,
            output,
            length: file.file_length,
        },
    )
}

/// A CurseForge file is brought to the common shape, as
/// [`try_from_cf_file`] does it.
impl TryFrom<CurseForgeFile> for DownloadFile {
    type Error = DistributionDeniedError;

    fn try_from(file: CurseForgeFile) -> (converted: Result<Self, DistributionDeniedError>)
        ensures
            match curseforge_file(file) {
                Ok(view) => converted matches Ok(download) && download@ == view,
                Err(denied) => converted == Err::<DownloadFile, DistributionDeniedError>(denied),
            },
    {
        try_from_cf_file(file)
    }
}

/// What the conversion returns is stated by `try_from` itself, over what the
/// file holds: files that hold the same are not told apart, so no single
/// value is named here as the one that is returned.
impl vstd::std_specs::convert::TryFromSpecImpl<CurseForgeFile> for DownloadFile {
    open spec fn obeys_try_from_spec() -> bool {
        false
    }

    open spec fn try_from_spec(file: CurseForgeFile) -> Result<Self, DistributionDeniedError> {
        match curseforge_file(file) {
            Ok(view) => Ok(choose|download: DownloadFile| download@ == view),
            Err(denied) => Err(denied),
        }
    }
}

/// What a Modrinth version comes to: its primary file, under the version's
/// name, loaders and game versions.
pub open spec fn modrinth_version(version: ModrinthVersion) -> DownloadFileView {
    DownloadFileView {
        title: version.name@,
        description: match version.changelog {
            Some(changelog) => changelog@,
            None => Seq::empty(),
        },
        channel: modrinth_channel(version.version_type),
        game_versions: version.game_versions.deep_view(),
        loaders: loaders_among(version.loaders.deep_view()),
        download_url: version.version_file().url@,
        output: output_path(version.version_file().filename@),
        length: version.version_file().size as nat,
    }
}

/// Brings a Modrinth version to the common shape.
pub fn from_mr_version(version: ModrinthVersion) -> (converted: DownloadFile)
    requires
        version.has_files(),
    ensures
        converted@ == modrinth_version(version),
{
    let loaders = find_loaders(&version.loaders);
    let channel = match version.version_type {
        ModrinthVersionType::Release => ReleaseChannel::Release,
        ModrinthVersionType::Beta => ReleaseChannel::Beta,
        ModrinthVersionType::Alpha => ReleaseChannel::Alpha,
    };
    let file = version.get_version_file();
    let download_url = file.url.clone();
    let output = output_for(file.filename.as_str());
    let length = file.size;
    DownloadFile {
        title: version.name,
        description: match version.changelog {
            Some(changelog) => changelog,
            None => String::new(),
        },
        channel,
        game_versions: version.game_versions,
        loaders,
        download_url,
        output,
        length,
    }
}

/// What a file of a modpack's index comes to. `file` names an address.
pub open spec fn modpack_file(file: ModpackFile) -> DownloadFileView {
    DownloadFileView {
        title: Seq::empty(),
        description: Seq::empty(),
        channel: ReleaseChannel::Release,
        game_versions: Seq::empty(),
        loaders: Seq::empty(),
        download_url: file.downloads@[0]@,
        output: file.path@,
        length: file.file_size as nat,
    }
}

/// Brings a file of a modpack's index to the common shape: it is downloaded
/// from the first of its addresses, to the path that the index gives.
pub fn from_modpack_file(file: ModpackFile) -> (converted: DownloadFile)
    requires
        file.downloads@.len() > 0,
    ensures
        converted@ == modpack_file(file),
{
    let download_url = file.downloads[0].clone();
    let game_versions: Vec<String> = Vec::new();
    assert(game_versions.deep_view() =~= Seq::<Seq<char>>::empty());
    DownloadFile {
        download_url,
        output: file.path,
        length: file.file_size,
        title: String::new(),
        description: String::new(),
        channel: ReleaseChannel::Release,
        game_versions,
        loaders: Vec::new(),
    }
}

/// The words of an asset's name: the name without `.jar` at its end, cut at
/// every hyphen. GitHub tells neither the game versions nor the loaders of
/// an asset, so both are looked for among these words. A word that is no
/// version still counts as one, and a loader that the name spells otherwise
/// is missed.
pub open spec fn asset_words(name: Seq<char>) -> Seq<Seq<char>> {
    text::split(text::without_trailing(name, ".jar"@), '-')
}

/// Computes [`asset_words`].
pub fn words_of_asset(name: &str) -> (words: Vec<String>)
    ensures
        words.deep_view() == asset_words(name@),
{
    let stem = text::trim_end_matches(name, ".jar");
    text::text_split(stem.as_str(), '-')
}

/// What an asset of a GitHub release comes to.
pub open spec fn github_asset(release: GitHubRelease, asset: GitHubAsset) -> DownloadFileView {
    DownloadFileView {
        title: match release.name {
            Some(name) => name@,
            None => Seq::empty(),
        },
        description: match release.body {
            Some(body) => body@,
            None => Seq::empty(),
        },
        channel: if release.prerelease {
            ReleaseChannel::Beta
        } else {
            ReleaseChannel::Release
        },
        game_versions: asset_words(asset.name@),
        loaders: loaders_among(asset_words(asset.name@)),
        download_url: asset.browser_download_url@,
        output: output_path(asset.name@),
        length: asset.size as nat,
    }
}

/// What the first `count` assets of a release come to.
pub open spec fn github_release(release: GitHubRelease, count: int) -> Seq<DownloadFileView>
    decreases count,
{
    if count <= 0 {
        Seq::empty()
    } else {
        github_release(release, count - 1).push(
            github_asset(release, release.assets@[count - 1]),
        )
    }
}

/// What the assets of `releases` come to, release after release.
pub open spec fn github_releases(releases: Seq<GitHubRelease>) -> Seq<DownloadFileView>
    decreases releases.len(),
{
    if releases.len() == 0 {
        Seq::empty()
    } else {
        github_releases(releases.drop_last()) + github_release(
            releases.last(),
            releases.last().assets@.len() as int,
        )
    }
}

impl DownloadFile {
    /// Brings one asset of a GitHub release to the common shape.
    pub fn from_gh_release_asset(release: &GitHubRelease, asset: &GitHubAsset) -> (converted:
        DownloadFile)
        ensures
            converted@ == github_asset(*release, *asset),
    {
        let words = words_of_asset(asset.name.as_str());
        let loaders = find_loaders(&words);
        DownloadFile {
            title: match &release.name {
                Some(name) => name.clone(),
                None => String::new(),
            },
            description: match &release.body {
                Some(body) => body.clone(),
                None => String::new(),
            },
            channel: if release.prerelease {
                ReleaseChannel::Beta
            } else {
                ReleaseChannel::Release
            },
            game_versions: words,
            loaders,
            download_url: asset.browser_download_url.clone(),
            output: output_for(asset.name.as_str()),
            length: asset.size,
        }
    }

    /// Brings every asset of `releases` to the common shape, in the order of
    /// the releases and, within a release, of its assets.
    pub fn from_gh_assets(releases: &Vec<GitHubRelease>) -> (converted: Vec<DownloadFile>)
        ensures
            converted.deep_view() == github_releases(releases@),
    {
        let mut converted: Vec<DownloadFile> = Vec::new();
        let mut r: usize = 0;
        while r < releases.len()
            invariant
                r <= releases.len(),
                converted.deep_view() == github_releases(releases@.take(r as int)),
            decreases releases.len() - r,
        {
            let release = &releases[r];
            let ghost before = converted.deep_view();
            let mut a: usize = 0;
            while a < release.assets.len()
                invariant
                    a <= release.assets.len(),
                    converted.deep_view() == before + github_release(*release, a as int),
                decreases release.assets.len() - a,
            {
                let ghost so_far = converted.deep_view();
                let file = DownloadFile::from_gh_release_asset(release, &release.assets[a]);
                converted.push(file);
                assert(converted.deep_view() =~= so_far.push(file@));
                a += 1;
            }
            proof {
                let upto = releases@.take(r + 1);
                assert(upto.drop_last() =~= releases@.take(r as int));
            }
            r += 1;
        }
        assert(releases@.take(releases.len() as int) =~= releases@);
        converted
    }
}

/// Brings the releases of a GitHub repository to the common shape: every
/// asset of every release, in the order of the releases and, within a
/// release, of its assets.
pub fn from_gh_releases(releases: &Vec<GitHubRelease>) -> (converted: Vec<DownloadFile>)
    ensures
        converted.deep_view() == github_releases(releases@),
{
    DownloadFile::from_gh_assets(releases)
}

/// What an asset comes to when nothing is known of its release.
pub open spec fn lone_github_asset(asset: GitHubAsset) -> DownloadFileView {
    DownloadFileView {
        title: Seq::empty(),
        description: Seq::empty(),
        channel: ReleaseChannel::Release,
        game_versions: asset_words(asset.name@),
        loaders: loaders_among(asset_words(asset.name@)),
        download_url: asset.browser_download_url@,
        output: output_path(asset.name@),
        length: asset.size as nat,
    }
}

/// Brings an asset to the common shape when nothing is known of its release.
pub fn from_gh_asset(asset: GitHubAsset) -> (converted: DownloadFile)
    ensures
        converted@ == lone_github_asset(asset),
{
    let words = words_of_asset(asset.name.as_str());
    let loaders = find_loaders(&words);
    let output = output_for(asset.name.as_str());
    DownloadFile {
        title: String::new(),
        description: String::new(),
        channel: ReleaseChannel::Release,
        game_versions: words,
        loaders,
        download_url: asset.browser_download_url,
        output,
        length: asset.size,
    }
}

/// What a list of CurseForge files comes to: the first file that must not be
/// downloaded refuses the whole list.
pub open spec fn curseforge_files(files: Seq<CurseForgeFile>) -> Result<
    Seq<DownloadFileView>,
    DistributionDeniedError,
>
    decreases files.len(),
{
    if files.len() == 0 {
        Ok(Seq::empty())
    } else {
        match curseforge_files(files.drop_last()) {
            Err(denied) => Err(denied),
            Ok(views) => match curseforge_file(files.last()) {
                Ok(view) => Ok(views.push(view)),
                Err(denied) => Err(denied),
            },
        }
    }
}

/// Brings a list of CurseForge files to the common shape, in their order.
pub fn try_from_cf_files(files: Vec<CurseForgeFile>) -> (converted: Result<
    Vec<DownloadFile>,
    DistributionDeniedError,
>)
    ensures
        match curseforge_files(files@) {
            Ok(views) => converted matches Ok(list) && list.deep_view() == views,
            Err(denied) => converted == Err::<Vec<DownloadFile>, DistributionDeniedError>(denied),
        },
{
    let mut converted: Vec<DownloadFile> = Vec::new();
    let ghost given = files@;
    assert(converted.deep_view() =~= Seq::<DownloadFileView>::empty());
    for file in it: files
        invariant
            it.seq() == given,
            curseforge_files(given.take(it.index() as int)) == Ok::<
                Seq<DownloadFileView>,
                DistributionDeniedError,
            >(converted.deep_view()),
    {
        proof {
            let upto = given.take(it.index() + 1);
            assert(upto.drop_last() =~= given.take(it.index() as int));
        }
        let ghost before = converted.deep_view();
        match try_from_cf_file(file) {
            Ok(download) => {
                converted.push(download);
                assert(converted.deep_view() =~= before.push(download@));
            },
            Err(denied) => {
                proof {
                    lemma_denied_stays_denied(given, it.index() + 1);
                }
                return Err(denied);
            },
        }
    }
    assert(given.take(given.len() as int) =~= given);
    Ok(converted)
}

/// A list whose beginning is refused is refused, for the same file.
proof fn lemma_denied_stays_denied(files: Seq<CurseForgeFile>, upto: int)
    requires
        0 <= upto <= files.len(),
        curseforge_files(files.take(upto)) is Err,
    ensures
        curseforge_files(files) == curseforge_files(files.take(upto)),
    decreases files.len() - upto,
{
    if upto == files.len() {
        assert(files.take(upto) =~= files);
    } else {
        assert(files.take(upto + 1).drop_last() =~= files.take(upto));
        lemma_denied_stays_denied(files, upto + 1);
    }
}

/// What a list of Modrinth versions comes to.
pub open spec fn modrinth_versions(versions: Seq<ModrinthVersion>) -> Seq<DownloadFileView> {
    Seq::new(versions.len(), |i: int| modrinth_version(versions[i]))
}

/// Brings a list of Modrinth versions to the common shape, in their order.
/// Every version has a file.
pub fn from_mr_versions(versions: Vec<ModrinthVersion>) -> (converted: Vec<DownloadFile>)
    requires
        forall|i: int| 0 <= i < versions.len() ==> (#[trigger] versions[i]).has_files(),
    ensures
        converted.deep_view() == modrinth_versions(versions@),
{
    let mut converted: Vec<DownloadFile> = Vec::new();
    let ghost given = versions@;
    for version in it: versions
        invariant
            it.seq() == given,
            forall|i: int| 0 <= i < given.len() ==> (#[trigger] given[i]).has_files(),
            converted.deep_view() =~= modrinth_versions(given.take(it.index() as int)),
    {
        let ghost before = converted.deep_view();
        let download = from_mr_version(version);
        converted.push(download);
        assert(converted.deep_view() =~= before.push(download@));
    }
    converted
}

} // verus!
