//! Finding the newest file of a project that fits one game version and one
//! mod loader, platform by platform.

use crate::config::structs::{parsed_loader, ModLoader, ModLoaderParseError};
use crate::iter_ext::{first_where, lemma_first_where_from};
use crate::platform::{
    CurseForgeFile,
    GitHubAsset,
    GitHubRelease,
    ModrinthVersion,
    ModrinthVersionFile,
};
use crate::text;
use crate::version_ext::VersionExt;
use vstd::prelude::*;

verus! {

/// Whether the files stand from the newest to the oldest.
pub open spec fn is_newest_first(files: Seq<CurseForgeFile>) -> bool {
    forall|i: int, j: int| 0 <= i <= j < files.len() ==> files[i].file_date >= files[j].file_date
}

/// `sorted`, which runs from the newest file to the oldest, with `file` put
/// in: behind the files that are newer than it, before all others.
pub open spec fn placed(sorted: Seq<CurseForgeFile>, file: CurseForgeFile) -> Seq<CurseForgeFile>
    decreases sorted.len(),
{
    if sorted.len() > 0 && sorted[0].file_date > file.file_date {
        seq![sorted[0]] + placed(sorted.drop_first(), file)
    } else {
        seq![file] + sorted
    }
}

/// `files` from the newest to the oldest, files of the same date in the
/// order in which they stand in `files`.
pub open spec fn newest_first(files: Seq<CurseForgeFile>) -> Seq<CurseForgeFile>
    decreases files.len(),
{
    if files.len() == 0 {
        Seq::empty()
    } else {
        placed(newest_first(files.drop_first()), files[0])
    }
}

/// A file is put in behind the last file that is newer than it.
proof fn lemma_placed(sorted: Seq<CurseForgeFile>, file: CurseForgeFile, at: int)
    requires
        0 <= at <= sorted.len(),
        forall|k: int| 0 <= k < at ==> (#[trigger] sorted[k]).file_date > file.file_date,
        at < sorted.len() ==> sorted[at].file_date <= file.file_date,
    ensures
        placed(sorted, file) == sorted.insert(at, file),
    decreases at,
{
    if at != 0 {
        let rest = sorted.drop_first();
        assert forall|k: int| 0 <= k < at - 1 implies (#[trigger] rest[k]).file_date
            > file.file_date by {
        }
        lemma_placed(rest, file, at - 1);
    }
}

/// Putting a file in keeps the order and adds the file to what is there.
proof fn lemma_placed_is_sorted(sorted: Seq<CurseForgeFile>, file: CurseForgeFile)
    requires
        is_newest_first(sorted),
    ensures
        is_newest_first(placed(sorted, file)),
        placed(sorted, file).to_multiset() == sorted.to_multiset().insert(file),
    decreases sorted.len(),
{
    broadcast use vstd::seq_lib::group_to_multiset_ensures;

    let more = placed(sorted, file);
    if sorted.len() > 0 && sorted[0].file_date > file.file_date {
        let rest = sorted.drop_first();
        assert(is_newest_first(rest)) by {
            assert forall|i: int, j: int| 0 <= i <= j < rest.len() implies rest[i].file_date
                >= rest[j].file_date by {
            }
        }
        lemma_placed_is_sorted(rest, file);
        let tail = placed(rest, file);
        assert forall|i: int, j: int| 0 <= i <= j < more.len() implies more[i].file_date
            >= more[j].file_date by {
            if i == 0 && j > 0 {
                assert(tail.to_multiset().count(tail[j - 1]) > 0);
            }
        }
        assert(sorted =~= seq![sorted[0]] + rest);
        assert(more.to_multiset() =~= sorted.to_multiset().insert(file)) by {
            vstd::seq_lib::lemma_multiset_commutative(seq![sorted[0]], tail);
            vstd::seq_lib::lemma_multiset_commutative(seq![sorted[0]], rest);
        }
    } else {
        assert forall|i: int, j: int| 0 <= i <= j < more.len() implies more[i].file_date
            >= more[j].file_date by {
        }
        assert(more.to_multiset() =~= sorted.to_multiset().insert(file)) by {
            vstd::seq_lib::lemma_multiset_commutative(seq![file], sorted);
        }
    }
}

/// What [`newest_first`] makes of files are the same files, from the newest
/// to the oldest.
pub proof fn lemma_newest_first(files: Seq<CurseForgeFile>)
    ensures
        is_newest_first(newest_first(files)),
        newest_first(files).to_multiset() == files.to_multiset(),
    decreases files.len(),
{
    broadcast use vstd::seq_lib::group_to_multiset_ensures;

    if files.len() != 0 {
        lemma_newest_first(files.drop_first());
        lemma_placed_is_sorted(newest_first(files.drop_first()), files[0]);
        assert(files =~= seq![files[0]] + files.drop_first());
        vstd::seq_lib::lemma_multiset_commutative(seq![files[0]], files.drop_first());
    }
}

/// Puts `files` in order, the newest file first. Files of the same date keep
/// the order in which they came.
pub fn sort_newest_first(files: &mut Vec<CurseForgeFile>)
    ensures
        final(files)@ == newest_first(old(files)@),
        is_newest_first(final(files)@),
        final(files)@.to_multiset() == old(files)@.to_multiset(),
{
    let ghost given = files@;
    let mut sorted: Vec<CurseForgeFile> = Vec::new();
    while files.len() > 0
        invariant
            files@.len() <= given.len(),
            files@ == given.take(files@.len() as int),
            sorted@ == newest_first(given.skip(files@.len() as int)),
        decreases files.len(),
    {
        let ghost left = files@.len();
        let file = files.pop().unwrap();
        let mut at: usize = 0;
        while at < sorted.len() && sorted[at].file_date > file.file_date
            invariant
                at <= sorted.len(),
                forall|k: int| 0 <= k < at ==> (#[trigger] sorted@[k]).file_date > file.file_date,
            decreases sorted.len() - at,
        {
            at += 1;
        }
        proof {
            lemma_placed(sorted@, file, at as int);
            let rest = given.skip(left - 1);
            assert(rest.drop_first() =~= given.skip(left as int));
        }
        sorted.insert(at, file);
    }
    proof {
        lemma_newest_first(given);
    }
    *files = sorted;
}

/// Whether `to_check` is one of `game_versions`.
pub open spec fn lists_game_version(game_versions: Seq<Seq<char>>, to_check: Seq<char>) -> bool {
    game_versions.contains(to_check)
}

/// Check if the target `to_check` version is present in `game_versions`.
pub fn check_game_version(game_versions: &[String], to_check: &str) -> (present: bool)
    ensures
        present == lists_game_version(game_versions.deep_view(), to_check@),
{
    let mut i: usize = 0;
    while i < game_versions.len()
        invariant
            i <= game_versions.len(),
            forall|k: int| 0 <= k < i ==> game_versions.deep_view()[k] != to_check@,
        decreases game_versions.len() - i,
    {
        if text::str_eq(game_versions[i].as_str(), to_check) {
            assert(game_versions.deep_view()[i as int] == to_check@);
            return true;
        }
        i += 1;
    }
    false
}

/// Whether one of `mod_loaders` names the loader `to_check`.
pub open spec fn lists_mod_loader(mod_loaders: Seq<Seq<char>>, to_check: ModLoader) -> bool {
    exists|i: int|
        0 <= i < mod_loaders.len() && parsed_loader(#[trigger] mod_loaders[i]) == Ok::<
            ModLoader,
            ModLoaderParseError,
        >(to_check)
}

/// Check if the target `to_check` mod loader is present in `mod_loaders`
pub fn check_mod_loader(mod_loaders: &[String], to_check: &ModLoader) -> (present: bool)
    ensures
        present == lists_mod_loader(mod_loaders.deep_view(), *to_check),
{
    let mut i: usize = 0;
    while i < mod_loaders.len()
        invariant
            i <= mod_loaders.len(),
            forall|k: int|
                0 <= k < i ==> parsed_loader(#[trigger] mod_loaders.deep_view()[k]) != Ok::<
                    ModLoader,
                    ModLoaderParseError,
                >(*to_check),
        decreases mod_loaders.len() - i,
    {
        match ModLoader::from_str(mod_loaders[i].as_str()) {
            Ok(loader) => {
                if loader == *to_check {
                    assert(parsed_loader(mod_loaders.deep_view()[i as int]) == Ok::<
                        ModLoader,
                        ModLoaderParseError,
                    >(*to_check));
                    return true;
                }
            },
            Err(_) => {},
        }
        i += 1;
    }
    false
}

/// What is asked of a file: a game version and a mod loader, and whether
/// each of the two is looked at.
pub struct Criteria {
    pub game_version: Seq<char>,
    pub mod_loader: ModLoader,
    pub checks_game_version: bool,
    pub checks_mod_loader: bool,
}

/// The criteria that a lookup's arguments stand for. A check is left out
/// only where it is switched off in so many words.
pub open spec fn criteria(
    game_version_to_check: Seq<char>,
    mod_loader_to_check: ModLoader,
    should_check_game_version: Option<bool>,
    should_check_mod_loader: Option<bool>,
) -> Criteria {
    Criteria {
        game_version: game_version_to_check,
        mod_loader: mod_loader_to_check,
        checks_game_version: should_check_game_version != Some(false),
        checks_mod_loader: should_check_mod_loader != Some(false),
    }
}

impl Criteria {
    /// The same criteria for another loader.
    pub open spec fn for_loader(self, mod_loader: ModLoader) -> Criteria {
        Criteria {
            game_version: self.game_version,
            mod_loader,
            checks_game_version: self.checks_game_version,
            checks_mod_loader: self.checks_mod_loader,
        }
    }
}

/// Whether a file with these game versions and loaders fits: each of the two
/// checks is met or left out.
pub open spec fn fits(
    game_versions: Seq<Seq<char>>,
    mod_loaders: Seq<Seq<char>>,
    wanted: Criteria,
) -> bool {
    &&& !wanted.checks_game_version || lists_game_version(game_versions, wanted.game_version)
    &&& !wanted.checks_mod_loader || lists_mod_loader(mod_loaders, wanted.mod_loader)
}

/// Tests [`fits`].
fn check_fits(
    game_versions: &[String],
    mod_loaders: &[String],
    game_version_to_check: &str,
    mod_loader_to_check: &ModLoader,
    should_check_game_version: Option<bool>,
    should_check_mod_loader: Option<bool>,
) -> (fitting: bool)
    ensures
        fitting == fits(
            game_versions.deep_view(),
            mod_loaders.deep_view(),
            criteria(
                game_version_to_check@,
                *mod_loader_to_check,
                should_check_game_version,
                should_check_mod_loader,
            ),
        ),
{
    let version_fits = match should_check_game_version {
        Some(false) => true,
        _ => check_game_version(game_versions, game_version_to_check),
    };
    let loader_fits = match should_check_mod_loader {
        Some(false) => true,
        _ => check_mod_loader(mod_loaders, mod_loader_to_check),
    };
    version_fits && loader_fits
}

/// The test whether a CurseForge file fits. CurseForge lists a file's
/// loaders among its game versions.
pub open spec fn is_fitting_file(wanted: Criteria) -> spec_fn(CurseForgeFile) -> bool {
    |file: CurseForgeFile|
        fits(file.game_versions.deep_view(), file.game_versions.deep_view(), wanted)
}

/// The place of the first of `files` that fits.
#[verifier::loop_isolation(false)]
pub fn first_fitting_file(
    files: &Vec<CurseForgeFile>,
    game_version_to_check: &str,
    mod_loader_to_check: &ModLoader,
    should_check_game_version: Option<bool>,
    should_check_mod_loader: Option<bool>,
) -> (place: Option<usize>)
    ensures
        match first_where(
            files@,
            is_fitting_file(
                criteria(
                    game_version_to_check@,
                    *mod_loader_to_check,
                    should_check_game_version,
                    should_check_mod_loader,
                ),
            ),
        ) {
            Some(i) => place matches Some(at) && at as int == i && at < files@.len(),
            None => place is None,
        },
{
    let ghost fitting = is_fitting_file(
        criteria(
            game_version_to_check@,
            *mod_loader_to_check,
            should_check_game_version,
            should_check_mod_loader,
        ),
    );
    let mut i: usize = 0;
    while i < files.len()
        invariant
            i <= files.len(),
            forall|k: int| 0 <= k < i ==> !fitting(#[trigger] files@[k]),
        decreases files.len() - i,
    {
        if check_fits(
            files[i].game_versions.as_slice(),
            files[i].game_versions.as_slice(),
            game_version_to_check,
            mod_loader_to_check,
            should_check_game_version,
            should_check_mod_loader,
        ) {
            proof {
                lemma_first_where_from(files@, fitting, i as int);
            }
            return Some(i);
        }
        i += 1;
    }
    proof {
        lemma_first_where_from(files@, fitting, files@.len() as int);
    }
    None
}

/// Get the latest compatible file from `files`, which are put in order for
/// it, the newest first: the first of them that fits.
pub fn curseforge<'a>(
    files: &'a mut Vec<CurseForgeFile>,
    game_version_to_check: &str,
    mod_loader_to_check: &ModLoader,
    should_check_game_version: Option<bool>,
    should_check_mod_loader: Option<bool>,
) -> (latest: Option<&'a CurseForgeFile>)
    ensures
        final(files)@ == newest_first(old(files)@),
        match first_where(
            final(files)@,
            is_fitting_file(
                criteria(
                    game_version_to_check@,
                    *mod_loader_to_check,
                    should_check_game_version,
                    should_check_mod_loader,
                ),
            ),
        ) {
            Some(i) => latest matches Some(file) && *file == final(files)@[i],
            None => latest is None,
        },
{
    sort_newest_first(files);
    match first_fitting_file(
        files,
        game_version_to_check,
        mod_loader_to_check,
        should_check_game_version,
        should_check_mod_loader,
    ) {
        Some(i) => Some(&files[i]),
        None => None,
    }
}

/// The test whether a Modrinth version fits.
pub open spec fn is_fitting_version(wanted: Criteria) -> spec_fn(ModrinthVersion) -> bool {
    |version: ModrinthVersion|
        fits(version.game_versions.deep_view(), version.loaders.deep_view(), wanted)
}

/// The place in `versions` of the first version that fits.
pub open spec fn first_fitting_version(versions: Seq<ModrinthVersion>, wanted: Criteria) -> Option<
    int,
> {
    first_where(versions, is_fitting_version(wanted))
}

/// The version that is chosen among `versions`, the first that fits, with
/// its file.
pub open spec fn modrinth_latest(versions: Seq<ModrinthVersion>, wanted: Criteria) -> Option<
    (ModrinthVersionFile, ModrinthVersion),
> {
    match first_fitting_version(versions, wanted) {
        Some(i) => Some((versions[i].version_file(), versions[i])),
        None => None,
    }
}

/// Whether the version that is chosen among `versions`, if one is, has a file.
pub open spec fn modrinth_latest_has_files(versions: Seq<ModrinthVersion>, wanted: Criteria) -> bool {
    match first_fitting_version(versions, wanted) {
        Some(i) => versions[i].has_files(),
        None => true,
    }
}

/// Finds [`first_fitting_version`].
#[verifier::loop_isolation(false)]
pub fn find_fitting_version(
    versions: &[ModrinthVersion],
    game_version_to_check: &str,
    mod_loader_to_check: &ModLoader,
    should_check_game_version: Option<bool>,
    should_check_mod_loader: Option<bool>,
) -> (place: Option<usize>)
    ensures
        match first_fitting_version(
            versions@,
            criteria(
                game_version_to_check@,
                *mod_loader_to_check,
                should_check_game_version,
                should_check_mod_loader,
            ),
        ) {
            Some(i) => place matches Some(at) && at as int == i && at < versions.len(),
            None => place is None,
        },
{
    let ghost fitting = is_fitting_version(
        criteria(
            game_version_to_check@,
            *mod_loader_to_check,
            should_check_game_version,
            should_check_mod_loader,
        ),
    );
    let mut i: usize = 0;
    while i < versions.len()
        invariant
            i <= versions.len(),
            forall|k: int| 0 <= k < i ==> !fitting(#[trigger] versions@[k]),
        decreases versions.len() - i,
    {
        let version = &versions[i];
        if check_fits(
            version.game_versions.as_slice(),
            version.loaders.as_slice(),
            game_version_to_check,
            mod_loader_to_check,
            should_check_game_version,
            should_check_mod_loader,
        ) {
            proof {
                lemma_first_where_from(versions@, fitting, i as int);
            }
            return Some(i);
        }
        i += 1;
    }
    proof {
        lemma_first_where_from(versions@, fitting, versions@.len() as int);
    }
    None
}

/// Tests [`modrinth_latest_has_files`]: whether [`modrinth`] can look among
/// `versions`.
pub fn has_files_to_choose(
    versions: &[ModrinthVersion],
    game_version_to_check: &str,
    mod_loader_to_check: &ModLoader,
    should_check_game_version: Option<bool>,
    should_check_mod_loader: Option<bool>,
) -> (complete: bool)
    ensures
        complete == modrinth_latest_has_files(
            versions@,
            criteria(
                game_version_to_check@,
                *mod_loader_to_check,
                should_check_game_version,
                should_check_mod_loader,
            ),
        ),
{
    match find_fitting_version(
        versions,
        game_version_to_check,
        mod_loader_to_check,
        should_check_game_version,
        should_check_mod_loader,
    ) {
        Some(i) => versions[i].files.len() > 0,
        None => true,
    }
}

/// Get the latest compatible version and version file from `versions`: the
/// first version that fits, with its primary file. A version without files
/// must not be the first that fits.
pub fn modrinth<'a>(
    versions: &'a [ModrinthVersion],
    game_version_to_check: &str,
    mod_loader_to_check: &ModLoader,
    should_check_game_version: Option<bool>,
    should_check_mod_loader: Option<bool>,
) -> (latest: Option<(&'a ModrinthVersionFile, &'a ModrinthVersion)>)
    requires
        modrinth_latest_has_files(
            versions@,
            criteria(
                game_version_to_check@,
                *mod_loader_to_check,
                should_check_game_version,
                should_check_mod_loader,
            ),
        ),
    ensures
        match modrinth_latest(
            versions@,
            criteria(
                game_version_to_check@,
                *mod_loader_to_check,
                should_check_game_version,
                should_check_mod_loader,
            ),
        ) {
            Some((file, version)) => latest == Some((&file, &version)),
            None => latest is None,
        },
{
    match find_fitting_version(
        versions,
        game_version_to_check,
        mod_loader_to_check,
        should_check_game_version,
        should_check_mod_loader,
    ) {
        Some(i) => {
            let version = &versions[i];
            Some((version.get_version_file(), version))
        },
        None => None,
    }
}

/// The test whether an asset of a GitHub release fits: it is a JAR, though
/// not one of sources, and each of the two checks is met or left out. The
/// game version may stand anywhere in the asset's name; the loader has to be
/// one of the words that hyphens part the name into.
pub open spec fn is_fitting_asset(wanted: Criteria) -> spec_fn(GitHubAsset) -> bool {
    |asset: GitHubAsset|
        {
            &&& text::contains(asset.name@, "jar"@)
            &&& !text::contains(asset.name@, "sources"@)
            &&& !wanted.checks_game_version || text::contains(asset.name@, wanted.game_version)
            &&& !wanted.checks_mod_loader || lists_mod_loader(
                text::split(asset.name@, '-'),
                wanted.mod_loader,
            )
        }
}

/// Tests [`is_fitting_asset`].
fn check_asset_fits(
    asset: &GitHubAsset,
    game_version_to_check: &str,
    mod_loader_to_check: &ModLoader,
    should_check_game_version: Option<bool>,
    should_check_mod_loader: Option<bool>,
) -> (fitting: bool)
    ensures
        fitting == is_fitting_asset(
            criteria(
                game_version_to_check@,
                *mod_loader_to_check,
                should_check_game_version,
                should_check_mod_loader,
            ),
        )(*asset),
{
    let name = asset.name.as_str();
    if !text::text_contains(name, "jar") || text::text_contains(name, "sources") {
        return false;
    }
    let version_fits = match should_check_game_version {
        Some(false) => true,
        _ => text::text_contains(name, game_version_to_check),
    };
    if !version_fits {
        return false;
    }
    match should_check_mod_loader {
        Some(false) => true,
        _ => {
            let words = text::text_split(name, '-');
            check_mod_loader(words.as_slice(), mod_loader_to_check)
        },
    }
}

/// The assets of `releases`, release after release.
pub open spec fn assets_of(releases: Seq<GitHubRelease>) -> Seq<GitHubAsset>
    decreases releases.len(),
{
    if releases.len() == 0 {
        Seq::empty()
    } else {
        assets_of(releases.drop_last()) + releases.last().assets@
    }
}

/// The asset that is chosen among those of `releases`: the first that fits.
pub open spec fn github_latest(releases: Seq<GitHubRelease>, wanted: Criteria) -> Option<
    GitHubAsset,
> {
    match first_where(assets_of(releases), is_fitting_asset(wanted)) {
        Some(i) => Some(assets_of(releases)[i]),
        None => None,
    }
}

/// The assets of the first releases are the first of all assets.
proof fn lemma_assets_of_first(releases: Seq<GitHubRelease>, count: int)
    requires
        0 <= count <= releases.len(),
    ensures
        assets_of(releases.take(count)).len() <= assets_of(releases).len(),
        assets_of(releases.take(count)) == assets_of(releases).take(
            assets_of(releases.take(count)).len() as int,
        ),
    decreases releases.len(),
{
    if count == releases.len() {
        assert(releases.take(count) =~= releases);
    } else {
        let front = releases.drop_last();
        assert(front.take(count) =~= releases.take(count));
        lemma_assets_of_first(front, count);
        let first = assets_of(releases.take(count));
    }
}

/// Get the latest compatible asset from `releases`: the first that fits, the
/// releases taken in their order and each release's assets in theirs.
#[verifier::loop_isolation(false)]
pub fn github<'a>(
    releases: &'a [GitHubRelease],
    game_version_to_check: &str,
    mod_loader_to_check: &ModLoader,
    should_check_game_version: Option<bool>,
    should_check_mod_loader: Option<bool>,
) -> (latest: Option<&'a GitHubAsset>)
    ensures
        match github_latest(
            releases@,
            criteria(
                game_version_to_check@,
                *mod_loader_to_check,
                should_check_game_version,
                should_check_mod_loader,
            ),
        ) {
            Some(asset) => latest == Some(&asset),
            None => latest is None,
        },
{
    let ghost fitting = is_fitting_asset(
        criteria(
            game_version_to_check@,
            *mod_loader_to_check,
            should_check_game_version,
            should_check_mod_loader,
        ),
    );
    let ghost all = assets_of(releases@);
    let mut r: usize = 0;
    while r < releases.len()
        invariant
            r <= releases.len(),
            all == assets_of(releases@),
            assets_of(releases@.take(r as int)).len() <= all.len(),
            forall|k: int|
                0 <= k < assets_of(releases@.take(r as int)).len() ==> !fitting(#[trigger] all[k]),
        decreases releases.len() - r,
    {
        let release = &releases[r];
        let ghost before = assets_of(releases@.take(r as int));
        proof {
            let upto = releases@.take(r + 1);
            assert(upto.drop_last() =~= releases@.take(r as int));
            lemma_assets_of_first(releases@, r + 1);
            assert forall|q: int| 0 <= q < release.assets@.len() implies all[before.len() + q]
                == release.assets@[q] by {
                assert(all.take(assets_of(upto).len() as int)[before.len() + q] == all[before.len()
                    + q]);
            }
        }
        let mut a: usize = 0;
        while a < release.assets.len()
            invariant
                a <= release.assets.len(),
                before.len() + release.assets@.len() <= all.len(),
                forall|q: int|
                    0 <= q < release.assets@.len() ==> all[before.len() + q]
                        == #[trigger] release.assets@[q],
                forall|k: int| 0 <= k < before.len() + a ==> !fitting(#[trigger] all[k]),
            decreases release.assets.len() - a,
        {
            let asset = &release.assets[a];
            if check_asset_fits(
                asset,
                game_version_to_check,
                mod_loader_to_check,
                should_check_game_version,
                should_check_mod_loader,
            ) {
                proof {
                    let place = before.len() + a;
                    lemma_first_where_from(all, fitting, place);
                }
                return Some(asset);
            }
            a += 1;
        }
        r += 1;
    }
    proof {
        assert(releases@.take(releases.len() as int) =~= releases@);
        lemma_first_where_from(all, fitting, all.len() as int);
    }
    None
}

} // verus!
