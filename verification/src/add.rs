//! Adding projects to a profile.

pub mod batch;

use crate::config::filters::{Filter, FilterView, ReleaseChannel};
use crate::config::structs::{
    find_loaders,
    loaders_among,
    parsed_loader,
    Mod,
    ModIdentifier,
    ModIdentifierView,
    ModLoader,
    Profile,
};
use crate::platform::{
    CurseForgeFileIndex,
    CurseForgeProject,
    GitHubRepository,
    ModrinthProject,
    ModrinthProjectType,
};
use crate::text;
use crate::upgrade::{check, DownloadFile, DownloadFileView};
use crate::upgrade::check::{explains, resolution, Resolution};
use vstd::prelude::*;

verus! {

/// What an identifier that a user wrote names. A number is the ID of a
/// CurseForge project. Two parts with one `/` between them are the owner and
/// the name of a GitHub repository. Anything else is the ID or slug of a
/// Modrinth project.
pub open spec fn parsed_id(id: Seq<char>) -> ModIdentifierView {
    match text::parsed_i32(id) {
        Some(number) => ModIdentifierView::CurseForgeProject(number),
        None => {
            let parts = text::split(id, '/');
            if parts.len() == 2 {
                ModIdentifierView::GitHubRepository(parts[0], parts[1])
            } else {
                ModIdentifierView::ModrinthProject(id)
            }
        },
    }
}

/// Classifies an identifier that a user wrote.
pub fn parse_id(id: String) -> (identifier: ModIdentifier)
    ensures
        identifier@ == parsed_id(id@),
{
    match text::parse_i32(id.as_str()) {
        Some(number) => ModIdentifier::CurseForgeProject(number),
        None => {
            let parts = text::text_split(id.as_str(), '/');
            if parts.len() == 2 {
                ModIdentifier::GitHubRepository((parts[0].clone(), parts[1].clone()))
            } else {
                ModIdentifier::ModrinthProject(id)
            }
        },
    }
}

/// Why a project was not added to a profile.
#[derive(Debug)]
pub enum Error {
    /// The developer of this project has denied third party applications
    /// from downloading it
    DistributionDenied,
    /// The project has already been added
    AlreadyAdded,
    /// The project is not compatible: no file passes the profile's filters
    Incompatible(check::Error),
    /// The project does not exist
    DoesNotExist,
    /// The project is not a mod
    NotAMod,
    /// GitHub has refused the request
    GitHubError(String),
}

/// How the attempt to add a project ends.
pub enum Verdict {
    AlreadyAdded,
    DistributionDenied,
    NotAMod,
    /// What the profile's filters make of the project's files, where that is
    /// not that a file is chosen
    Incompatible(Resolution),
    Accepted,
}

/// The name and the identifier of each of `mods`: all that counts of a
/// profile's mods when a project is added.
pub open spec fn known_mods(mods: Seq<Mod>) -> Seq<(Seq<char>, ModIdentifierView)> {
    Seq::new(mods.len(), |i: int| (mods[i].name@, mods[i].identifier@))
}

/// Whether one of the mods that are `known` has this name, the case of ASCII
/// letters aside, or this identifier.
pub open spec fn is_added(
    known: Seq<(Seq<char>, ModIdentifierView)>,
    name: Seq<char>,
    identifier: ModIdentifierView,
) -> bool {
    exists|i: int|
        0 <= i < known.len() && (text::same_ignoring_ascii_case((#[trigger] known[i]).0, name)
            || known[i].1 == identifier)
}

/// Tests [`is_added`].
fn check_is_added(mods: &Vec<Mod>, name: &str, identifier: &ModIdentifier) -> (added: bool)
    ensures
        added == is_added(known_mods(mods@), name@, identifier@),
{
    let mut i: usize = 0;
    while i < mods.len()
        invariant
            i <= mods.len(),
            forall|k: int|
                0 <= k < i ==> !(text::same_ignoring_ascii_case(
                    (#[trigger] known_mods(mods@)[k]).0,
                    name@,
                ) || known_mods(mods@)[k].1 == identifier@),
        decreases mods.len() - i,
    {
        if text::eq_ignore_ascii_case(mods[i].name.as_str(), name) || mods[i].identifier
            == *identifier {
            assert(known_mods(mods@)[i as int] == (mods@[i as int].name@, mods@[i as int].identifier@));
            return true;
        }
        i += 1;
    }
    false
}

/// The file that stands for a project when it is asked whether any of its
/// files would pass a profile's filters.
pub open spec fn probe(
    game_versions: Seq<Seq<char>>,
    loaders: Seq<ModLoader>,
    channel: ReleaseChannel,
) -> DownloadFileView {
    DownloadFileView {
        title: Seq::empty(),
        description: Seq::empty(),
        channel,
        game_versions,
        loaders,
        download_url: "https://example.com"@,
        output: ".jar"@,
        length: 0,
    }
}

/// Builds a [`probe`].
fn make_probe(game_versions: Vec<String>, loaders: Vec<ModLoader>, channel: ReleaseChannel) -> (file:
    DownloadFile)
    ensures
        file@ == probe(game_versions.deep_view(), loaders@, channel),
{
    DownloadFile {
        title: String::new(),
        description: String::new(),
        channel,
        game_versions,
        loaders,
        download_url: "https://example.com".to_owned(),
        output: ".jar".to_owned(),
        length: 0,
    }
}

/// What a profile's filters say of a project whose files are `probes`: that
/// it is accepted where one of them is chosen, and else why none is.
pub open spec fn compatibility(
    filters: Seq<FilterView>,
    probes: Seq<DownloadFileView>,
    groups: Seq<Seq<Seq<char>>>,
) -> Verdict {
    match resolution(filters, probes, groups) {
        Resolution::Latest(_) => Verdict::Accepted,
        other => Verdict::Incompatible(other),
    }
}

/// Whether the profile went from `before` to `after`, and the attempt ended
/// with `outcome`, as `verdict` asks: an accepted project is a new mod at the
/// end of the profile's mods, under its trimmed name, without pin or filters
/// of its own; any other verdict leaves the profile as it was and is the
/// error returned.
pub open spec fn is_settled(
    before: Profile,
    after: Profile,
    outcome: Result<(), Error>,
    verdict: Verdict,
    name: Seq<char>,
    identifier: ModIdentifierView,
) -> bool {
    match verdict {
        Verdict::Accepted => {
            &&& outcome is Ok
            &&& after.name == before.name
            &&& after.output_dir == before.output_dir
            &&& after.filters == before.filters
            &&& after.game_version == before.game_version
            &&& after.mod_loader == before.mod_loader
            &&& after.mods@.len() == before.mods@.len() + 1
            &&& after.mods@.drop_last() == before.mods@
            &&& after.mods@.last().name@ == text::trimmed(name)
            &&& after.mods@.last().identifier@ == identifier
            &&& after.mods@.last().pin is None
            &&& after.mods@.last().filters@.len() == 0
            &&& !after.mods@.last().override_filters
        },
        Verdict::AlreadyAdded => outcome matches Err(Error::AlreadyAdded) && after == before,
        Verdict::DistributionDenied => outcome matches Err(Error::DistributionDenied) && after
            == before,
        Verdict::NotAMod => outcome matches Err(Error::NotAMod) && after == before,
        Verdict::Incompatible(resolution) => {
            &&& outcome matches Err(Error::Incompatible(error))
            &&& explains(error, resolution)
            &&& after == before
        },
    }
}

/// Asks the profile's filters whether one of `probes` would be chosen.
fn check_compatibility(
    probes: Vec<DownloadFile>,
    filters: &Vec<Filter>,
    version_groups: &[Vec<String>],
) -> (outcome: Result<(), Error>)
    ensures
        match compatibility(filters.deep_view(), probes.deep_view(), version_groups.deep_view()) {
            Verdict::Accepted => outcome is Ok,
            Verdict::Incompatible(resolution) => outcome matches Err(Error::Incompatible(error))
                && explains(error, resolution),
            _ => false,
        },
{
    let rules = filters.as_slice();
    match check::select_latest(probes, rules, version_groups) {
        Ok(_) => Ok(()),
        Err(error) => Err(Error::Incompatible(error)),
    }
}

/// Puts a new mod at the end of the profile's mods.
fn push_mod(profile: &mut Profile, name: &str, identifier: ModIdentifier)
    ensures
        is_settled(
            *old(profile),
            *final(profile),
            Ok::<(), Error>(()),
            Verdict::Accepted,
            name@,
            identifier@,
        ),
{
    let ghost before = profile.mods@;
    profile.mods.push(
        Mod {
            name: text::trim(name).to_owned(),
            identifier,
            pin: None,
            override_filters: false,
            filters: Vec::new(),
        },
    );
    assert(profile.mods@.drop_last() =~= before);
}

/// The game versions that a CurseForge project's latest files are for.
pub open spec fn index_game_versions(indexes: Seq<CurseForgeFileIndex>) -> Seq<Seq<char>> {
    Seq::new(indexes.len(), |i: int| indexes[i].game_version@)
}

/// The loaders that a CurseForge project's latest files are for: of each
/// file that names a loader the library knows, that loader.
pub open spec fn index_loaders(indexes: Seq<CurseForgeFileIndex>) -> Seq<ModLoader>
    decreases indexes.len(),
{
    if indexes.len() == 0 {
        Seq::empty()
    } else {
        match indexes.last().mod_loader {
            Some(name) => match parsed_loader(name@) {
                Ok(loader) => index_loaders(indexes.drop_last()).push(loader),
                Err(_) => index_loaders(indexes.drop_last()),
            },
            None => index_loaders(indexes.drop_last()),
        }
    }
}

/// What the attempt to add a CurseForge project has to end with: it is
/// refused where the profile has it already, where it must not be
/// distributed, where its page is not among the mods, and, with checks,
/// where the profile's filters let none of its latest files through.
pub open spec fn curseforge_verdict(
    project: CurseForgeProject,
    known: Seq<(Seq<char>, ModIdentifierView)>,
    filters: Seq<FilterView>,
    perform_checks: bool,
    groups: Seq<Seq<Seq<char>>>,
) -> Verdict {
    if is_added(known, project.name@, ModIdentifierView::CurseForgeProject(project.id)) {
        Verdict::AlreadyAdded
    } else if project.allow_mod_distribution == Some(false) {
        Verdict::DistributionDenied
    } else if !text::contains(project.website_url@, "mc-mods"@) {
        Verdict::NotAMod
    } else if perform_checks {
        compatibility(
            filters,
            seq![
                probe(
                    index_game_versions(project.latest_files_indexes@),
                    index_loaders(project.latest_files_indexes@),
                    ReleaseChannel::Release,
                ),
            ],
            groups,
        )
    } else {
        Verdict::Accepted
    }
}

/// Check if the mod of `project` has not already been added, is a mod, and
/// is compatible with `profile`. If so, add it to the `profile`.
pub fn curseforge(
    project: &CurseForgeProject,
    profile: &mut Profile,
    perform_checks: bool,
    version_groups: &[Vec<String>],
) -> (outcome: Result<(), Error>)
    ensures
        is_settled(
            *old(profile),
            *final(profile),
            outcome,
            curseforge_verdict(
                *project,
                known_mods(old(profile).mods@),
                old(profile).filters.deep_view(),
                perform_checks,
                version_groups.deep_view(),
            ),
            project.name@,
            ModIdentifierView::CurseForgeProject(project.id),
        ),
{
    let identifier = ModIdentifier::CurseForgeProject(project.id);
    if check_is_added(&profile.mods, project.name.as_str(), &identifier) {
        return Err(Error::AlreadyAdded);
    }
    match project.allow_mod_distribution {
        Some(false) => {
            return Err(Error::DistributionDenied);
        },
        _ => {},
    }
    if !text::text_contains(project.website_url.as_str(), "mc-mods") {
        return Err(Error::NotAMod);
    }
    if perform_checks {
        let indexes = &project.latest_files_indexes;
        let mut game_versions: Vec<String> = Vec::new();
        let mut loaders: Vec<ModLoader> = Vec::new();
        let mut i: usize = 0;
        while i < indexes.len()
            invariant
                i <= indexes.len(),
                game_versions.deep_view() =~= index_game_versions(indexes@.take(i as int)),
                loaders@ == index_loaders(indexes@.take(i as int)),
            decreases indexes.len() - i,
        {
            proof {
                let upto = indexes@.take(i + 1);
                assert(upto.drop_last() =~= indexes@.take(i as int));
            }
            let ghost before = game_versions.deep_view();
            game_versions.push(indexes[i].game_version.clone());
            assert(game_versions.deep_view() =~= before.push(indexes@[i as int].game_version@));
            match &indexes[i].mod_loader {
                Some(name) => match ModLoader::from_str(name.as_str()) {
                    Ok(loader) => {
                        loaders.push(loader);
                    },
                    Err(_) => {},
                },
                None => {},
            }
            i += 1;
        }
        assert(indexes@.take(indexes.len() as int) =~= indexes@);
        let mut probes: Vec<DownloadFile> = Vec::new();
        let file = make_probe(game_versions, loaders, ReleaseChannel::Release);
        probes.push(file);
        assert(probes.deep_view() =~= seq![file@]);
        match check_compatibility(probes, &profile.filters, version_groups) {
            Ok(_) => {},
            Err(error) => {
                return Err(error);
            },
        }
    }
    push_mod(profile, project.name.as_str(), identifier);
    Ok(())
}

/// What the attempt to add a Modrinth project has to end with: it is
/// refused where the profile has it already, where it is no mod, and, with
/// checks, where the profile's filters do not let it through.
pub open spec fn modrinth_verdict(
    project: ModrinthProject,
    known: Seq<(Seq<char>, ModIdentifierView)>,
    filters: Seq<FilterView>,
    perform_checks: bool,
    groups: Seq<Seq<Seq<char>>>,
) -> Verdict {
    if is_added(known, project.title@, ModIdentifierView::ModrinthProject(project.id@)) {
        Verdict::AlreadyAdded
    } else if project.project_type != ModrinthProjectType::Mod {
        Verdict::NotAMod
    } else if perform_checks {
        compatibility(
            filters,
            seq![
                probe(
                    project.game_versions.deep_view(),
                    loaders_among(project.loaders.deep_view()),
                    ReleaseChannel::Release,
                ),
            ],
            groups,
        )
    } else {
        Verdict::Accepted
    }
}

/// Check if the project of `project` has not already been added, is a mod,
/// and is compatible with `profile`. If so, add it to the `profile`.
pub fn modrinth(
    project: &ModrinthProject,
    profile: &mut Profile,
    perform_checks: bool,
    version_groups: &[Vec<String>],
) -> (outcome: Result<(), Error>)
    ensures
        is_settled(
            *old(profile),
            *final(profile),
            outcome,
            modrinth_verdict(
                *project,
                known_mods(old(profile).mods@),
                old(profile).filters.deep_view(),
                perform_checks,
                version_groups.deep_view(),
            ),
            project.title@,
            ModIdentifierView::ModrinthProject(project.id@),
        ),
{
    let identifier = ModIdentifier::ModrinthProject(project.id.clone());
    if check_is_added(&profile.mods, project.title.as_str(), &identifier) {
        return Err(Error::AlreadyAdded);
    }
    if project.project_type != ModrinthProjectType::Mod {
        return Err(Error::NotAMod);
    }
    if perform_checks {
        let game_versions = project.game_versions.clone();
        let loaders = find_loaders(&project.loaders);
        let mut probes: Vec<DownloadFile> = Vec::new();
        let file = make_probe(game_versions, loaders, ReleaseChannel::Release);
        probes.push(file);
        assert(probes.deep_view() =~= seq![file@]);
        match check_compatibility(probes, &profile.filters, version_groups) {
            Ok(_) => {},
            Err(error) => {
                return Err(error);
            },
        }
    }
    push_mod(profile, project.title.as_str(), identifier);
    Ok(())
}

/// The words of the name of a repository's asset: the name without `.jar`
/// at its end, cut at every hyphen. Another name has the one word that is
/// empty.
pub open spec fn jar_words(name: Seq<char>) -> Seq<Seq<char>> {
    match text::stripped_suffix(name, ".jar"@) {
        Some(stem) => text::split(stem, '-'),
        None => text::split(Seq::empty(), '-'),
    }
}

/// The file that stands for an asset of this name: its game versions and
/// loaders are looked for among the words of the name, and it counts as the
/// least stable of files.
pub open spec fn asset_probe(name: Seq<char>) -> DownloadFileView {
    probe(jar_words(name), loaders_among(jar_words(name)), ReleaseChannel::Alpha)
}

/// Whether one of `names` is the name of a JAR.
pub open spec fn some_jar(names: Seq<Seq<char>>) -> bool {
    exists|i: int| 0 <= i < names.len() && text::ends_with(#[trigger] names[i], ".jar"@)
}

/// What the attempt to add a GitHub repository has to end with: it is
/// refused where the profile has it already and, with checks, where none of
/// the assets it has released is a JAR or the profile's filters let none of
/// them through. `asset_names` are the names of those assets, the newest
/// first, where checks are wanted.
pub open spec fn github_verdict(
    owner: Seq<char>,
    name: Seq<char>,
    known: Seq<(Seq<char>, ModIdentifierView)>,
    filters: Seq<FilterView>,
    asset_names: Option<Seq<Seq<char>>>,
    groups: Seq<Seq<Seq<char>>>,
) -> Verdict {
    if is_added(known, name, ModIdentifierView::GitHubRepository(owner, name)) {
        Verdict::AlreadyAdded
    } else {
        match asset_names {
            Some(names) => if !some_jar(names) {
                Verdict::NotAMod
            } else {
                compatibility(
                    filters,
                    Seq::new(names.len(), |i: int| asset_probe(names[i])),
                    groups,
                )
            },
            None => Verdict::Accepted,
        }
    }
}

/// Check if the repository `owner`/`name` has not already been added,
/// releases mods, and is compatible with `profile`. If so, add it to the
/// `profile`. The checks are made where `perform_checks` holds the names of
/// the assets that the repository has released.
pub fn github(
    owner: &str,
    name: &str,
    profile: &mut Profile,
    perform_checks: Option<&[String]>,
    version_groups: &[Vec<String>],
) -> (outcome: Result<(), Error>)
    ensures
        is_settled(
            *old(profile),
            *final(profile),
            outcome,
            github_verdict(
                owner@,
                name@,
                known_mods(old(profile).mods@),
                old(profile).filters.deep_view(),
                match perform_checks {
                    Some(names) => Some(names.deep_view()),
                    None => None,
                },
                version_groups.deep_view(),
            ),
            name@,
            ModIdentifierView::GitHubRepository(owner@, name@),
        ),
{
    let identifier = ModIdentifier::GitHubRepository((owner.to_owned(), name.to_owned()));
    if check_is_added(&profile.mods, name, &identifier) {
        return Err(Error::AlreadyAdded);
    }
    match perform_checks {
        Some(asset_names) => {
            let mut probes: Vec<DownloadFile> = Vec::new();
            let mut jar_found = false;
            let mut i: usize = 0;
            while i < asset_names.len()
                invariant
                    i <= asset_names.len(),
                    jar_found == some_jar(asset_names.deep_view().take(i as int)),
                    probes.deep_view() =~= Seq::new(
                        i as nat,
                        |k: int| asset_probe(asset_names.deep_view()[k]),
                    ),
                decreases asset_names.len() - i,
            {
                let asset = asset_names[i].as_str();
                proof {
                    let names = asset_names.deep_view();
                    if text::ends_with(asset@, ".jar"@) {
                        assert(names.take(i + 1)[i as int] == asset@);
                    }
                }
                let words = match text::strip_suffix(asset, ".jar") {
                    Some(stem) => {
                        jar_found = true;
                        text::text_split(stem.as_str(), '-')
                    },
                    None => text::text_split("", '-'),
                };
                proof {
                    reveal_strlit("");
                    assert(""@ =~= Seq::<char>::empty());
                }
                let loaders = find_loaders(&words);
                let ghost before = probes.deep_view();
                let file = make_probe(words, loaders, ReleaseChannel::Alpha);
                probes.push(file);
                assert(probes.deep_view() =~= before.push(file@));
                i += 1;
            }
            assert(asset_names.deep_view().take(asset_names.len() as int)
                =~= asset_names.deep_view());
            if !jar_found {
                return Err(Error::NotAMod);
            }
            match check_compatibility(probes, &profile.filters, version_groups) {
                Ok(_) => {},
                Err(error) => {
                    return Err(error);
                },
            }
        },
        None => {},
    }
    push_mod(profile, name, identifier);
    Ok(())
}

} // verus!
