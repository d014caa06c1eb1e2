//! Choosing the file to download: which files each filter lets through, and
//! which of the files that every filter lets through is the newest.

use crate::config::filters::{Filter, FilterView};
use crate::config::structs::ModLoader;
use crate::iter_ext::IterExt;
use crate::{pattern, text};
use crate::platform::{GameVersion, GameVersionType};
use crate::upgrade::{DownloadFile, DownloadFileView};
use regex::Error as RegexError;
use std::collections::HashSet;
use vstd::prelude::*;
use vstd::std_specs::iter::IteratorSpec;

verus! {

broadcast use {
    vstd::std_specs::hash::group_hash_axioms,
    vstd::std_specs::slice::group_slice_axioms,
};

/// Why no file was chosen.
#[derive(Debug)]
pub enum Error {
    /// The pattern of a filename filter is no regular expression.
    FilenameRegex(RegexError),
    /// The following filter(s) were empty
    FilterEmpty(Vec<String>),
    /// Failed to find a compatible combination
    IntersectFailure,
}

/// The groups that a list of game versions falls into. Only releases count.
/// They are taken in the order of the list, and a group ends behind each
/// release that is marked as major: the last group is the one that is still
/// open, and may be empty.
pub open spec fn grouped_versions(versions: Seq<GameVersion>) -> Seq<Seq<Seq<char>>>
    decreases versions.len(),
{
    if versions.len() == 0 {
        seq![Seq::empty()]
    } else {
        let before = grouped_versions(versions.drop_last());
        let version = versions.last();
        if version.version_type != GameVersionType::Release {
            before
        } else {
            let grown = before.drop_last().push(before.last().push(version.version@));
            if version.major {
                grown.push(Seq::empty())
            } else {
                grown
            }
        }
    }
}

/// Groups the game versions that `versions` lists: the releases between one
/// major release and the next form a group, and the versions of a group are
/// taken to be compatible with each other.
pub fn get_version_groups(versions: &[GameVersion]) -> (groups: Vec<Vec<String>>)
    ensures
        groups.deep_view() == grouped_versions(versions@),
{
    let mut closed: Vec<Vec<String>> = Vec::new();
    let mut open: Vec<String> = Vec::new();
    let mut i: usize = 0;
    proof {
        assert(open.deep_view() =~= Seq::<Seq<char>>::empty());
    }
    while i < versions.len()
        invariant
            i <= versions.len(),
            grouped_versions(versions@.take(i as int)) == closed.deep_view().push(
                open.deep_view(),
            ),
        decreases versions.len() - i,
    {
        let version = &versions[i];
        let ghost current = open.deep_view();
        proof {
            let upto = versions@.take(i + 1);
            assert(upto.drop_last() =~= versions@.take(i as int));
        }
        if version.version_type == GameVersionType::Release {
            open.push(version.version.clone());
            assert(open.deep_view() =~= current.push(version.version@));
            if version.major {
                closed.push(open);
                open = Vec::new();
                proof {
                    assert(open.deep_view() =~= Seq::<Seq<char>>::empty());
                }
            }
        }
        i += 1;
    }
    closed.push(open);
    proof {
        assert(versions@.take(versions.len() as int) =~= versions@);
    }
    closed
}

/// Whether `declared` names the game version `version`. Platforms write some
/// versions with `mc` in front, which does not count.
pub open spec fn names_version(declared: Seq<char>, version: Seq<char>) -> bool {
    text::without_leading(declared, "mc"@) == version
}

/// Whether `file` lists `version` among its game versions.
pub open spec fn declares(file: DownloadFileView, version: Seq<char>) -> bool {
    exists|k: int|
        0 <= k < file.game_versions.len() && names_version(
            #[trigger] file.game_versions[k],
            version,
        )
}

/// Whether `file` lists one of `versions` among its game versions.
pub open spec fn declares_any(file: DownloadFileView, versions: Seq<Seq<char>>) -> bool {
    exists|j: int| 0 <= j < versions.len() && declares(file, #[trigger] versions[j])
}

/// Whether `file` runs on one of `loaders`.
pub open spec fn runs_on_any(file: DownloadFileView, loaders: Seq<ModLoader>) -> bool {
    exists|j: int| 0 <= j < loaders.len() && file.loaders.contains(#[trigger] loaders[j])
}

/// Whether one of `files` runs on `loader`.
pub open spec fn offered_for(files: Seq<DownloadFileView>, loader: ModLoader) -> bool {
    exists|i: int| 0 <= i < files.len() && (#[trigger] files[i]).loaders.contains(loader)
}

/// The first of `loaders` that one of `files` runs on.
pub open spec fn preferred_loader(loaders: Seq<ModLoader>, files: Seq<DownloadFileView>) -> Option<
    ModLoader,
>
    decreases loaders.len(),
{
    if loaders.len() == 0 {
        None
    } else if offered_for(files, loaders[0]) {
        Some(loaders[0])
    } else {
        preferred_loader(loaders.drop_first(), files)
    }
}

/// Whether `group` holds one of `versions`.
pub open spec fn group_is_wanted(group: Seq<Seq<char>>, versions: Seq<Seq<char>>) -> bool {
    exists|k: int| 0 <= k < group.len() && versions.contains(#[trigger] group[k])
}

/// The versions of every group that holds one of `versions`, group after
/// group.
pub open spec fn related_versions(groups: Seq<Seq<Seq<char>>>, versions: Seq<Seq<char>>) -> Seq<
    Seq<char>,
>
    decreases groups.len(),
{
    if groups.len() == 0 {
        Seq::empty()
    } else if group_is_wanted(groups.last(), versions) {
        related_versions(groups.drop_last(), versions) + groups.last()
    } else {
        related_versions(groups.drop_last(), versions)
    }
}

/// Whether `filter` lets `file`, one of `files`, through.
pub open spec fn lets_through(
    filter: FilterView,
    file: DownloadFileView,
    files: Seq<DownloadFileView>,
    groups: Seq<Seq<Seq<char>>>,
) -> bool {
    match filter {
        FilterView::ModLoaderPrefer(loaders) => match preferred_loader(loaders, files) {
            Some(loader) => file.loaders.contains(loader),
            None => false,
        },
        FilterView::ModLoaderAny(loaders) => runs_on_any(file, loaders),
        FilterView::GameVersionStrict(versions) => declares_any(file, versions),
        FilterView::GameVersionMinor(versions) => declares_any(
            file,
            related_versions(groups, versions),
        ),
        FilterView::ReleaseChannel(channel) => channel.admits(file.channel),
        FilterView::Filename(pattern) => pattern::is_match(pattern, file.filename()),
    }
}

/// The places in `files` of the files that `filter` lets through.
pub open spec fn filter_indices(
    filter: FilterView,
    files: Seq<DownloadFileView>,
    groups: Seq<Seq<Seq<char>>>,
) -> Set<usize> {
    Set::new(|i: usize| i < files.len() && lets_through(filter, files[i as int], files, groups))
}

/// Whether `filter` cannot be evaluated: it is a filename filter whose
/// pattern does not compile.
pub open spec fn is_malformed(filter: FilterView) -> bool {
    filter matches FilterView::Filename(pattern) && !pattern::compiles(pattern)
}

/// Whether `item` is one of `list`.
fn list_contains(list: &Vec<String>, item: &str) -> (found: bool)
    ensures
        found == list.deep_view().contains(item@),
{
    let mut i: usize = 0;
    while i < list.len()
        invariant
            i <= list.len(),
            forall|k: int| 0 <= k < i ==> list.deep_view()[k] != item@,
        decreases list.len() - i,
    {
        if text::str_eq(list[i].as_str(), item) {
            assert(list.deep_view()[i as int] == item@);
            return true;
        }
        i += 1;
    }
    false
}

/// Whether `file` runs on `loader`.
fn file_runs_on(file: &DownloadFile, loader: ModLoader) -> (found: bool)
    ensures
        found == file@.loaders.contains(loader),
{
    let mut i: usize = 0;
    while i < file.loaders.len()
        invariant
            i <= file.loaders.len(),
            forall|k: int| 0 <= k < i ==> file.loaders@[k] != loader,
        decreases file.loaders.len() - i,
    {
        if file.loaders[i] == loader {
            return true;
        }
        i += 1;
    }
    false
}

/// Tests [`runs_on_any`].
fn file_runs_on_any(file: &DownloadFile, loaders: &Vec<ModLoader>) -> (found: bool)
    ensures
        found == runs_on_any(file@, loaders@),
{
    let mut j: usize = 0;
    while j < loaders.len()
        invariant
            j <= loaders.len(),
            forall|k: int| 0 <= k < j ==> !file@.loaders.contains(#[trigger] loaders@[k]),
        decreases loaders.len() - j,
    {
        if file_runs_on(file, loaders[j]) {
            return true;
        }
        j += 1;
    }
    false
}

/// Tests [`declares`].
fn file_declares(file: &DownloadFile, version: &str) -> (found: bool)
    ensures
        found == declares(file@, version@),
{
    let mut k: usize = 0;
    while k < file.game_versions.len()
        invariant
            k <= file.game_versions.len(),
            forall|n: int|
                0 <= n < k ==> !names_version(#[trigger] file@.game_versions[n], version@),
        decreases file.game_versions.len() - k,
    {
        let bare = text::trim_start_matches(file.game_versions[k].as_str(), "mc");
        if text::str_eq(bare.as_str(), version) {
            assert(names_version(file@.game_versions[k as int], version@));
            return true;
        }
        k += 1;
    }
    false
}

/// Tests [`declares_any`].
fn file_declares_any(file: &DownloadFile, versions: &Vec<String>) -> (found: bool)
    ensures
        found == declares_any(file@, versions.deep_view()),
{
    let mut j: usize = 0;
    while j < versions.len()
        invariant
            j <= versions.len(),
            forall|n: int| 0 <= n < j ==> !declares(file@, #[trigger] versions.deep_view()[n]),
        decreases versions.len() - j,
    {
        if file_declares(file, versions[j].as_str()) {
            assert(declares(file@, versions.deep_view()[j as int]));
            return true;
        }
        j += 1;
    }
    false
}

/// Tests [`offered_for`].
fn is_offered_for(files: &[DownloadFile], loader: ModLoader) -> (found: bool)
    ensures
        found == offered_for(files.deep_view(), loader),
{
    let mut i: usize = 0;
    while i < files.len()
        invariant
            i <= files.len(),
            forall|k: int|
                0 <= k < i ==> !(#[trigger] files.deep_view()[k]).loaders.contains(loader),
        decreases files.len() - i,
    {
        if file_runs_on(&files[i], loader) {
            assert(files.deep_view()[i as int].loaders.contains(loader));
            return true;
        }
        i += 1;
    }
    false
}

/// Finds [`preferred_loader`].
fn find_preferred_loader(loaders: &Vec<ModLoader>, files: &[DownloadFile]) -> (loader: Option<
    ModLoader,
>)
    ensures
        loader == preferred_loader(loaders@, files.deep_view()),
{
    let mut j: usize = 0;
    assert(loaders@.skip(0) =~= loaders@);
    while j < loaders.len()
        invariant
            j <= loaders.len(),
            preferred_loader(loaders@, files.deep_view()) == preferred_loader(
                loaders@.skip(j as int),
                files.deep_view(),
            ),
        decreases loaders.len() - j,
    {
        if is_offered_for(files, loaders[j]) {
            return Some(loaders[j]);
        }
        assert(loaders@.skip(j as int).drop_first() =~= loaders@.skip(j + 1));
        j += 1;
    }
    None
}

/// Tests [`group_is_wanted`].
fn is_group_wanted(group: &Vec<String>, versions: &Vec<String>) -> (wanted: bool)
    ensures
        wanted == group_is_wanted(group.deep_view(), versions.deep_view()),
{
    let mut k: usize = 0;
    while k < group.len()
        invariant
            k <= group.len(),
            forall|n: int|
                0 <= n < k ==> !versions.deep_view().contains(#[trigger] group.deep_view()[n]),
        decreases group.len() - k,
    {
        if list_contains(versions, group[k].as_str()) {
            assert(versions.deep_view().contains(group.deep_view()[k as int]));
            return true;
        }
        k += 1;
    }
    false
}

/// Lists [`related_versions`].
fn find_related_versions(groups: &[Vec<String>], versions: &Vec<String>) -> (related: Vec<String>)
    ensures
        related.deep_view() == related_versions(groups.deep_view(), versions.deep_view()),
{
    let mut related: Vec<String> = Vec::new();
    let mut g: usize = 0;
    while g < groups.len()
        invariant
            g <= groups.len(),
            related.deep_view() == related_versions(
                groups.deep_view().take(g as int),
                versions.deep_view(),
            ),
        decreases groups.len() - g,
    {
        let group = &groups[g];
        proof {
            let upto = groups.deep_view().take(g + 1);
            assert(upto.drop_last() =~= groups.deep_view().take(g as int));
        }
        if is_group_wanted(group, versions) {
            let ghost before = related.deep_view();
            let mut k: usize = 0;
            while k < group.len()
                invariant
                    k <= group.len(),
                    related.deep_view() == before + group.deep_view().take(k as int),
                decreases group.len() - k,
            {
                let ghost so_far = related.deep_view();
                related.push(group[k].clone());
                assert(related.deep_view() =~= so_far.push(group.deep_view()[k as int]));
                k += 1;
            }
        }
        g += 1;
    }
    assert(groups.deep_view().take(groups.len() as int) =~= groups.deep_view());
    related
}

/// The list `found` names exactly the places below `count` that `passes`
/// holds of.
proof fn lemma_found_are_the_places(found: Seq<usize>, count: nat, passes: spec_fn(int) -> bool)
    requires
        forall|j: int| 0 <= j < found.len() ==> (#[trigger] found[j]) < count && passes(found[j] as int),
        forall|i: usize| i < count && !found.contains(i) ==> !#[trigger] passes(i as int),
    ensures
        found.to_set() =~= Set::new(|i: usize| i < count && passes(i as int)),
{
    assert forall|i: usize| found.to_set().contains(i) implies i < count && passes(i as int) by {
    }
}

impl Filter {
    /// The places in `download_files` of the files that this filter lets
    /// through. `version_groups` lists the game versions that go together: a
    /// request for one version of a group is met by any version of that group
    /// where the filter asks for related versions.
    ///
    /// Fails only on a filename filter whose pattern does not compile.
    pub fn filter(&self, download_files: &[DownloadFile], version_groups: &[Vec<String>]) -> (indices:
        Result<HashSet<usize>, Error>)
        ensures
            indices is Err <==> is_malformed(self@),
            indices matches Err(error) ==> error is FilenameRegex,
            indices matches Ok(set) ==> set@ == filter_indices(
                self@,
                download_files.deep_view(),
                version_groups.deep_view(),
            ),
    {
        let ghost files = download_files.deep_view();
        let ghost groups = version_groups.deep_view();
        let ghost passes = |i: int| lets_through(self@, files[i], files, groups);
        assert(download_files.len() <= usize::MAX);
        let found = match self {
            Filter::ModLoaderPrefer(loaders) => match find_preferred_loader(
                loaders,
                download_files,
            ) {
                Some(loader) => {
                    let keep = |file: &DownloadFile| -> (on: bool)
                        ensures
                            on == file@.loaders.contains(loader),
                    {
                        file_runs_on(file, loader)
                    };
                    download_files.iter().positions(keep)
                },
                None => Vec::new(),
            },
            Filter::ModLoaderAny(loaders) => {
                let keep = |file: &DownloadFile| -> (on: bool)
                    ensures
                        on == runs_on_any(file@, loaders@),
                {
                    file_runs_on_any(file, loaders)
                };
                download_files.iter().positions(keep)
            },
            Filter::GameVersionStrict(versions) => {
                let keep = |file: &DownloadFile| -> (on: bool)
                    ensures
                        on == declares_any(file@, versions.deep_view()),
                {
                    file_declares_any(file, versions)
                };
                download_files.iter().positions(keep)
            },
            Filter::GameVersionMinor(versions) => {
                let related = find_related_versions(version_groups, versions);
                let keep = |file: &DownloadFile| -> (on: bool)
                    ensures
                        on == declares_any(file@, related.deep_view()),
                {
                    file_declares_any(file, &related)
                };
                download_files.iter().positions(keep)
            },
            Filter::ReleaseChannel(channel) => {
                let keep = |file: &DownloadFile| -> (on: bool)
                    ensures
                        on == channel.admits(file.channel),
                {
                    channel.accepts(file.channel)
                };
                download_files.iter().positions(keep)
            },
            Filter::Filename(pattern) => {
                let regex = match pattern::compile(pattern.as_str()) {
                    Ok(regex) => regex,
                    Err(error) => {
                        return Err(Error::FilenameRegex(error));
                    },
                };
                let keep = |file: &DownloadFile| -> (on: bool)
                    ensures
                        on == pattern::is_match(pattern@, file@.filename()),
                {
                    let name = file.filename();
                    pattern::matches(&regex, name.as_str())
                };
                download_files.iter().positions(keep)
            },
        };
        proof {
            let items = download_files.iter().remaining();
            assert forall|j: int| 0 <= j < found.len() implies (#[trigger] found[j])
                < files.len() && passes(found[j] as int) by {
            }
            assert forall|i: usize| i < files.len() && !found@.contains(i) implies !#[trigger] passes(
                i as int,
            ) by {
                assert(*items[i as int] == download_files@[i as int]);
            }
            lemma_found_are_the_places(found@, files.len(), passes);
        }
        Ok(found.into_iter().collect_hashset())
    }
}

/// Whether one of `filters` reads the groups of game versions: only a filter
/// on related game versions does.
pub open spec fn reads_version_groups(filters: Seq<FilterView>) -> bool {
    exists|k: int| 0 <= k < filters.len() && (#[trigger] filters[k]) is GameVersionMinor
}

/// Tests [`reads_version_groups`]: whether the groups of game versions have
/// to be fetched before a file is chosen under `filters`.
pub fn uses_version_groups(filters: &[Filter]) -> (used: bool)
    ensures
        used == reads_version_groups(filters.deep_view()),
{
    let mut k: usize = 0;
    while k < filters.len()
        invariant
            k <= filters.len(),
            forall|n: int| 0 <= n < k ==> !((#[trigger] filters.deep_view()[n]) is GameVersionMinor),
        decreases filters.len() - k,
    {
        match &filters[k] {
            Filter::GameVersionMinor(_) => {
                assert(filters.deep_view()[k as int] is GameVersionMinor);
                return true;
            },
            _ => {},
        }
        k += 1;
    }
    false
}

/// Whether `filter`, taken alone, lets none of `files` through.
pub open spec fn matches_nothing(
    filter: FilterView,
    files: Seq<DownloadFileView>,
    groups: Seq<Seq<Seq<char>>>,
) -> bool {
    filter_indices(filter, files, groups) =~= Set::<usize>::empty()
}

/// Whether one of `filters` cannot be evaluated.
pub open spec fn some_malformed(filters: Seq<FilterView>) -> bool {
    exists|k: int| 0 <= k < filters.len() && is_malformed(#[trigger] filters[k])
}

/// The names of those of `filters` that let none of `files` through, in the
/// order of `filters`.
pub open spec fn empty_filters(
    filters: Seq<FilterView>,
    files: Seq<DownloadFileView>,
    groups: Seq<Seq<Seq<char>>>,
) -> Seq<Seq<char>>
    decreases filters.len(),
{
    if filters.len() == 0 {
        Seq::empty()
    } else if matches_nothing(filters.last(), files, groups) {
        empty_filters(filters.drop_last(), files, groups).push(filters.last().name())
    } else {
        empty_filters(filters.drop_last(), files, groups)
    }
}

/// Whether every one of `filters` lets the file at place `i` through.
pub open spec fn survives(
    filters: Seq<FilterView>,
    files: Seq<DownloadFileView>,
    groups: Seq<Seq<Seq<char>>>,
    i: usize,
) -> bool {
    &&& i < files.len()
    &&& forall|k: int|
        0 <= k < filters.len() ==> filter_indices(#[trigger] filters[k], files, groups).contains(i)
}

/// The places of the files that every one of `filters` lets through.
pub open spec fn surviving(
    filters: Seq<FilterView>,
    files: Seq<DownloadFileView>,
    groups: Seq<Seq<Seq<char>>>,
) -> Set<usize> {
    Set::new(|i: usize| survives(filters, files, groups, i))
}

/// Whether the file at place `i` is let through by every filter and no file
/// before it is. The list runs from the newest file to the oldest, so this is
/// the newest file that qualifies.
pub open spec fn is_latest(
    filters: Seq<FilterView>,
    files: Seq<DownloadFileView>,
    groups: Seq<Seq<Seq<char>>>,
    i: usize,
) -> bool {
    &&& survives(filters, files, groups, i)
    &&& forall|j: usize| survives(filters, files, groups, j) ==> i <= j
}

/// How the choice among `files` under `filters` ends.
pub enum Resolution {
    /// A filename filter holds a pattern that does not compile.
    Malformed,
    /// The named filters each let nothing through.
    FilterEmpty(Seq<Seq<char>>),
    /// Every filter lets something through, but no file passes them all.
    IntersectFailure,
    /// The file at this place is chosen.
    Latest(usize),
}

/// The outcome of choosing among `files` under `filters`. A malformed filter
/// is reported before anything else; then the filters that match nothing, all
/// of them together; then that no file passes every filter. Otherwise the
/// first of the files that pass every filter is chosen. Without filters that
/// is the first file.
pub open spec fn resolution(
    filters: Seq<FilterView>,
    files: Seq<DownloadFileView>,
    groups: Seq<Seq<Seq<char>>>,
) -> Resolution {
    if some_malformed(filters) {
        Resolution::Malformed
    } else if empty_filters(filters, files, groups).len() > 0 {
        Resolution::FilterEmpty(empty_filters(filters, files, groups))
    } else if surviving(filters, files, groups) =~= Set::<usize>::empty() {
        Resolution::IntersectFailure
    } else {
        Resolution::Latest(choose|i: usize| is_latest(filters, files, groups, i))
    }
}

/// Whether `error` is the one that tells of `resolution`, a resolution that
/// chooses no file.
pub open spec fn explains(error: Error, resolution: Resolution) -> bool {
    match resolution {
        Resolution::Malformed => error is FilenameRegex,
        Resolution::FilterEmpty(names) => error matches Error::FilterEmpty(reported)
            && reported.deep_view() == names,
        Resolution::IntersectFailure => error is IntersectFailure,
        Resolution::Latest(_) => false,
    }
}

/// Whether the place or error `outcome` is what `resolution` prescribes.
pub open spec fn reports(outcome: Result<usize, Error>, resolution: Resolution) -> bool {
    match resolution {
        Resolution::Latest(i) => outcome == Ok::<usize, Error>(i),
        failure => outcome matches Err(error) && explains(error, failure),
    }
}

/// Whether the file or error `outcome` is what `resolution` prescribes for
/// the list `files`.
pub open spec fn delivers(
    outcome: Result<DownloadFile, Error>,
    files: Seq<DownloadFile>,
    resolution: Resolution,
) -> bool {
    match resolution {
        Resolution::Latest(i) => i < files.len() && outcome == Ok::<DownloadFile, Error>(
            files[i as int],
        ),
        failure => outcome matches Err(error) && explains(error, failure),
    }
}

/// Whether every set of `sets` holds `i`.
fn in_all(sets: &Vec<HashSet<usize>>, i: usize) -> (everywhere: bool)
    ensures
        everywhere == (forall|k: int| 0 <= k < sets.len() ==> (#[trigger] sets[k])@.contains(i)),
{
    let mut k: usize = 0;
    while k < sets.len()
        invariant
            k <= sets.len(),
            forall|n: int| 0 <= n < k ==> (#[trigger] sets[n])@.contains(i),
        decreases sets.len() - k,
    {
        if !sets[k].contains(&i) {
            return false;
        }
        k += 1;
    }
    true
}

/// The place in `download_files` of the file to download: the first that
/// every one of `filters` lets through.
///
/// Assumes that the provided `download_files` are sorted from the newest to
/// the oldest.
pub fn select_latest_index(
    download_files: &[DownloadFile],
    filters: &[Filter],
    version_groups: &[Vec<String>],
) -> (selected: Result<usize, Error>)
    ensures
        reports(
            selected,
            resolution(
                filters.deep_view(),
                download_files.deep_view(),
                version_groups.deep_view(),
            ),
        ),
{
    let ghost rules = filters.deep_view();
    let ghost files = download_files.deep_view();
    let ghost groups = version_groups.deep_view();

    let mut sets: Vec<HashSet<usize>> = Vec::new();
    let mut k: usize = 0;
    while k < filters.len()
        invariant
            k <= filters.len(),
            sets.len() == k,
            rules == filters.deep_view(),
            files == download_files.deep_view(),
            groups == version_groups.deep_view(),
            forall|n: int| 0 <= n < k ==> !is_malformed(#[trigger] rules[n]),
            forall|n: int|
                0 <= n < k ==> (#[trigger] sets[n])@ == filter_indices(rules[n], files, groups),
        decreases filters.len() - k,
    {
        assert(rules[k as int] == filters[k as int]@);
        match filters[k].filter(download_files, version_groups) {
            Ok(set) => {
                sets.push(set);
            },
            Err(error) => {
                return Err(error);
            },
        }
        k += 1;
    }

    let mut names: Vec<String> = Vec::new();
    let mut k: usize = 0;
    while k < filters.len()
        invariant
            k <= filters.len(),
            sets.len() == filters.len(),
            rules == filters.deep_view(),
            forall|n: int|
                0 <= n < sets.len() ==> (#[trigger] sets[n])@ == filter_indices(
                    rules[n],
                    files,
                    groups,
                ),
            names.deep_view() == empty_filters(rules.take(k as int), files, groups),
        decreases filters.len() - k,
    {
        proof {
            assert(rules.take(k + 1).drop_last() =~= rules.take(k as int));
        }
        if sets[k].is_empty() {
            names.push(filters[k].name());
        }
        k += 1;
    }
    assert(rules.take(filters.len() as int) =~= rules);
    if names.len() > 0 {
        return Err(Error::FilterEmpty(names));
    }
    let mut i: usize = 0;
    while i < download_files.len()
        invariant
            i <= download_files.len(),
            sets.len() == rules.len(),
            rules == filters.deep_view(),
            files == download_files.deep_view(),
            groups == version_groups.deep_view(),
            !some_malformed(rules),
            empty_filters(rules, files, groups).len() == 0,
            forall|n: int|
                0 <= n < sets.len() ==> (#[trigger] sets[n])@ == filter_indices(
                    rules[n],
                    files,
                    groups,
                ),
            forall|j: usize| j < i ==> !survives(rules, files, groups, j),
        decreases download_files.len() - i,
    {
        if in_all(&sets, i) {
            assert(survives(rules, files, groups, i)) by {
                assert forall|n: int| 0 <= n < rules.len() implies filter_indices(
                    #[trigger] rules[n],
                    files,
                    groups,
                ).contains(i) by {
                    assert(sets[n]@.contains(i));
                }
            }
            assert(surviving(rules, files, groups).contains(i));
            proof {
                lemma_latest_is_unique(rules, files, groups, i);
            }
            return Ok(i);
        } else {
            assert(!survives(rules, files, groups, i));
        }
        i += 1;
    }
    Err(Error::IntersectFailure)
}

/// The file to download: the first of `download_files` that every one of
/// `filters` lets through.
///
/// Assumes that the provided `download_files` are sorted from the newest to
/// the oldest.
pub fn select_latest(
    download_files: Vec<DownloadFile>,
    filters: &[Filter],
    version_groups: &[Vec<String>],
) -> (selected: Result<DownloadFile, Error>)
    ensures
        delivers(
            selected,
            download_files@,
            resolution(
                filters.deep_view(),
                download_files.deep_view(),
                version_groups.deep_view(),
            ),
        ),
{
    let mut download_files = download_files;
    let candidates = download_files.as_slice();
    match select_latest_index(candidates, filters, version_groups) {
        Ok(index) => {
            assert(index < download_files.len()) by {
                lemma_latest_in_range(
                    filters.deep_view(),
                    download_files.deep_view(),
                    version_groups.deep_view(),
                );
            }
            Ok(download_files.swap_remove(index))
        },
        Err(error) => Err(error),
    }
}

/// At most one place is that of the newest qualifying file.
pub proof fn lemma_latest_is_unique(
    filters: Seq<FilterView>,
    files: Seq<DownloadFileView>,
    groups: Seq<Seq<Seq<char>>>,
    i: usize,
)
    requires
        is_latest(filters, files, groups, i),
    ensures
        (choose|j: usize| is_latest(filters, files, groups, j)) == i,
{
}

/// A chosen place is a place of the list.
pub proof fn lemma_latest_in_range(
    filters: Seq<FilterView>,
    files: Seq<DownloadFileView>,
    groups: Seq<Seq<Seq<char>>>,
)
    requires
        resolution(filters, files, groups) is Latest,
    ensures
        is_latest(filters, files, groups, resolution(filters, files, groups)->Latest_0),
        resolution(filters, files, groups)->Latest_0 < files.len(),
{
    let live = surviving(filters, files, groups);
    assert(exists|i: usize| live.contains(i));
    let i = choose|i: usize| live.contains(i);
    lemma_some_survivor_is_first(filters, files, groups, i);
}

/// Where a file survives, some file is the first to survive.
pub proof fn lemma_some_survivor_is_first(
    filters: Seq<FilterView>,
    files: Seq<DownloadFileView>,
    groups: Seq<Seq<Seq<char>>>,
    i: usize,
)
    requires
        survives(filters, files, groups, i),
    ensures
        exists|j: usize| is_latest(filters, files, groups, j),
    decreases i,
{
    if exists|j: usize| j < i && survives(filters, files, groups, j) {
        let j = choose|j: usize| j < i && survives(filters, files, groups, j);
        lemma_some_survivor_is_first(filters, files, groups, j);
    } else {
        assert(is_latest(filters, files, groups, i));
    }
}

} // verus!
