//! What holds of every choice of a file, whatever the files and the filters.

use crate::config::filters::{Filter, FilterView};
use crate::config::structs::ModLoader;
use crate::upgrade::check::{
    delivers,
    empty_filters,
    filter_indices,
    is_latest,
    lemma_latest_is_unique,
    lemma_some_survivor_is_first,
    offered_for,
    preferred_loader,
    reads_version_groups,
    resolution,
    some_malformed,
    survives,
    surviving,
    Error,
    Resolution,
};
use crate::upgrade::{DownloadFile, DownloadFileView};
use crate::upgrade::fallback::{fallback_resolution, falls_back, for_loader};
use vstd::prelude::*;

verus! {

/// Choosing again among the same files under the same filters ends as it did
/// before: with the same file, or with an error of the same kind that names
/// the same filters.
pub proof fn lemma_select_latest_is_idempotent(
    download_files: Vec<DownloadFile>,
    filters: &[Filter],
    version_groups: &[Vec<String>],
    first: Result<DownloadFile, Error>,
    second: Result<DownloadFile, Error>,
)
    requires
        delivers(
            first,
            download_files@,
            resolution(
                filters.deep_view(),
                download_files.deep_view(),
                version_groups.deep_view(),
            ),
        ),
        delivers(
            second,
            download_files@,
            resolution(
                filters.deep_view(),
                download_files.deep_view(),
                version_groups.deep_view(),
            ),
        ),
    ensures
        first is Ok <==> second is Ok,
        first matches Ok(file) ==> second == Ok::<DownloadFile, Error>(file),
        first matches Err(Error::FilenameRegex(_)) ==> second matches Err(Error::FilenameRegex(_)),
        first matches Err(Error::IntersectFailure) ==> second matches Err(Error::IntersectFailure),
        first matches Err(Error::FilterEmpty(names)) ==> second matches Err(
            Error::FilterEmpty(again),
        ) && again.deep_view() == names.deep_view(),
{
}

/// The places below `count` are finitely many.
proof fn lemma_places_are_finite(count: nat)
    ensures
        Set::new(|i: usize| i < count).finite(),
    decreases count,
{
    let places = Set::new(|i: usize| i < count);
    if count == 0 {
        assert(places =~= Set::<usize>::empty());
    } else if count - 1 > usize::MAX {
        lemma_places_are_finite((count - 1) as nat);
        assert(places =~= Set::new(|i: usize| i < (count - 1) as nat));
    } else {
        lemma_places_are_finite((count - 1) as nat);
        assert(places =~= Set::new(|i: usize| i < (count - 1) as nat).insert((count - 1) as usize));
    }
}

/// One more filter lets no more files through: the files that pass `filters`
/// and `extra` are among those that pass `filters`, so there are no more of
/// them.
pub proof fn lemma_intersection_is_monotonic(
    filters: Seq<FilterView>,
    extra: FilterView,
    files: Seq<DownloadFileView>,
    groups: Seq<Seq<Seq<char>>>,
)
    ensures
        surviving(filters.push(extra), files, groups).subset_of(surviving(filters, files, groups)),
        surviving(filters, files, groups).finite(),
        surviving(filters.push(extra), files, groups).len() <= surviving(
            filters,
            files,
            groups,
        ).len(),
{
    let fewer = surviving(filters.push(extra), files, groups);
    let more = surviving(filters, files, groups);
    assert forall|i: usize| fewer.contains(i) implies more.contains(i) by {
        assert forall|k: int| 0 <= k < filters.len() implies filter_indices(
            #[trigger] filters[k],
            files,
            groups,
        ).contains(i) by {
            assert(filters.push(extra)[k] == filters[k]);
        }
    }
    lemma_places_are_finite(files.len());
    let places = Set::new(|i: usize| i < files.len());
    vstd::set_lib::lemma_set_subset_finite(places, more);
    vstd::set_lib::lemma_len_subset(fewer, more);
}

/// A file that every filter lets through keeps every filter from being
/// reported as empty.
proof fn lemma_survivor_leaves_no_filter_empty(
    filters: Seq<FilterView>,
    files: Seq<DownloadFileView>,
    groups: Seq<Seq<Seq<char>>>,
    i: usize,
    upto: int,
)
    requires
        survives(filters, files, groups, i),
        0 <= upto <= filters.len(),
    ensures
        empty_filters(filters.take(upto), files, groups).len() == 0,
    decreases upto,
{
    if upto > 0 {
        lemma_survivor_leaves_no_filter_empty(filters, files, groups, i, upto - 1);
        assert(filters.take(upto).drop_last() =~= filters.take(upto - 1));
    }
}

/// Of the files that pass every filter, the one that stands first in the
/// list, which is the newest, is chosen; nothing else breaks the tie.
pub proof fn lemma_first_survivor_is_selected(
    filters: Seq<FilterView>,
    files: Seq<DownloadFileView>,
    groups: Seq<Seq<Seq<char>>>,
    i: usize,
)
    requires
        !some_malformed(filters),
        survives(filters, files, groups, i),
        forall|j: usize| j < i ==> !survives(filters, files, groups, j),
    ensures
        resolution(filters, files, groups) == Resolution::Latest(i),
{
    lemma_survivor_leaves_no_filter_empty(filters, files, groups, i, filters.len() as int);
    assert(filters.take(filters.len() as int) =~= filters);
    assert(surviving(filters, files, groups).contains(i));
    lemma_latest_is_unique(filters, files, groups, i);
}

/// The first of `loaders` that a file runs on is the preferred one.
proof fn lemma_preferred_loader(loaders: Seq<ModLoader>, files: Seq<DownloadFileView>, k: int)
    requires
        0 <= k < loaders.len(),
        offered_for(files, loaders[k]),
        forall|j: int| 0 <= j < k ==> !offered_for(files, #[trigger] loaders[j]),
    ensures
        preferred_loader(loaders, files) == Some(loaders[k]),
    decreases k,
{
    if k > 0 {
        let rest = loaders.drop_first();
        assert forall|j: int| 0 <= j < k - 1 implies !offered_for(files, #[trigger] rest[j]) by {
        }
        lemma_preferred_loader(rest, files, k - 1);
    }
}

/// Where no file runs on any of `loaders`, none of them is preferred.
proof fn lemma_no_preferred_loader(loaders: Seq<ModLoader>, files: Seq<DownloadFileView>)
    requires
        forall|j: int| 0 <= j < loaders.len() ==> !offered_for(files, #[trigger] loaders[j]),
    ensures
        preferred_loader(loaders, files) is None,
    decreases loaders.len(),
{
    if loaders.len() > 0 {
        let rest = loaders.drop_first();
        assert forall|j: int| 0 <= j < rest.len() implies !offered_for(files, #[trigger] rest[j]) by {
        }
        lemma_no_preferred_loader(rest, files);
    }
}

/// A preference among loaders is met by one loader alone: the first of the
/// list that any file runs on. The filter lets through the files that run on
/// that loader and no others, whatever runs on the loaders further down the
/// list. Where no file runs on any loader of the list, nothing is let
/// through.
pub proof fn lemma_preference_short_circuits(
    loaders: Seq<ModLoader>,
    files: Seq<DownloadFileView>,
    groups: Seq<Seq<Seq<char>>>,
)
    ensures
        forall|k: int|
            0 <= k < loaders.len() && offered_for(files, #[trigger] loaders[k]) && (forall|j: int|
                0 <= j < k ==> !offered_for(files, #[trigger] loaders[j])) ==> filter_indices(
                FilterView::ModLoaderPrefer(loaders),
                files,
                groups,
            ) == Set::new(|i: usize| i < files.len() && files[i as int].loaders.contains(loaders[k])),
        (forall|j: int| 0 <= j < loaders.len() ==> !offered_for(files, #[trigger] loaders[j]))
            ==> filter_indices(FilterView::ModLoaderPrefer(loaders), files, groups)
            == Set::<usize>::empty(),
{
    let let_through = filter_indices(FilterView::ModLoaderPrefer(loaders), files, groups);
    assert forall|k: int|
        0 <= k < loaders.len() && offered_for(files, #[trigger] loaders[k]) && (forall|j: int|
            0 <= j < k ==> !offered_for(files, #[trigger] loaders[j])) implies let_through
        == Set::new(|i: usize| i < files.len() && files[i as int].loaders.contains(loaders[k])) by {
        lemma_preferred_loader(loaders, files, k);
    }
    if forall|j: int| 0 <= j < loaders.len() ==> !offered_for(files, #[trigger] loaders[j]) {
        lemma_no_preferred_loader(loaders, files);
    }
}

/// Where no file runs on `loader`, nothing is chosen for `loader`.
proof fn lemma_nothing_offered_nothing_chosen(
    filters: Seq<FilterView>,
    files: Seq<DownloadFileView>,
    groups: Seq<Seq<Seq<char>>>,
    loader: ModLoader,
)
    requires
        !offered_for(files, loader),
    ensures
        !(resolution(for_loader(filters, loader), files, groups) is Latest),
{
    let rules = for_loader(filters, loader);
    assert forall|i: usize| !survives(rules, files, groups, i) by {
        if survives(rules, files, groups, i) {
            let j = choose|j: int|
                0 <= j < seq![loader].len() && files[i as int].loaders.contains(
                    #[trigger] seq![loader][j],
                );
            assert(files[i as int].loaders.contains(loader));
        }
    }
}

/// The fallback is tried exactly once. Where `primary` falls back on
/// `secondary` and no file runs on `primary`, the outcome is that of the
/// choice for `secondary`, marked as the fallback's; where no file runs on
/// `secondary` either, that outcome is a failure, and no further loader is
/// tried.
pub proof fn lemma_fallback_is_tried_once(
    filters: Seq<FilterView>,
    files: Seq<DownloadFileView>,
    groups: Seq<Seq<Seq<char>>>,
    primary: ModLoader,
    secondary: ModLoader,
)
    requires
        falls_back(primary, secondary),
        !offered_for(files, primary),
    ensures
        fallback_resolution(filters, files, groups, primary, secondary) == (
            resolution(for_loader(filters, secondary), files, groups),
            true,
        ),
        !offered_for(files, secondary) ==> !(fallback_resolution(
            filters,
            files,
            groups,
            primary,
            secondary,
        ).0 is Latest),
{
    lemma_nothing_offered_nothing_chosen(filters, files, groups, primary);
    if !offered_for(files, secondary) {
        lemma_nothing_offered_nothing_chosen(filters, files, groups, secondary);
    }
}

/// Without a fallback, what the choice for `primary` ends with is final.
pub proof fn lemma_no_fallback_no_retry(
    filters: Seq<FilterView>,
    files: Seq<DownloadFileView>,
    groups: Seq<Seq<Seq<char>>>,
    primary: ModLoader,
    secondary: ModLoader,
)
    requires
        !falls_back(primary, secondary),
    ensures
        fallback_resolution(filters, files, groups, primary, secondary) == (
            resolution(for_loader(filters, primary), files, groups),
            false,
        ),
{
}

/// The names of the filters that match nothing do not depend on the groups
/// where no filter reads them.
proof fn lemma_empty_filters_without_groups(
    filters: Seq<FilterView>,
    files: Seq<DownloadFileView>,
    groups: Seq<Seq<Seq<char>>>,
    others: Seq<Seq<Seq<char>>>,
)
    requires
        !reads_version_groups(filters),
    ensures
        empty_filters(filters, files, groups) == empty_filters(filters, files, others),
    decreases filters.len(),
{
    if filters.len() > 0 {
        let front = filters.drop_last();
        assert forall|k: int| 0 <= k < front.len() implies !((#[trigger] front[k])
            is GameVersionMinor) by {
        }
        lemma_empty_filters_without_groups(front, files, groups, others);
    }
}

/// Where no filter reads the groups of game versions, the choice is the same
/// whatever the groups are: they need not be fetched.
pub proof fn lemma_version_groups_are_read_by_minor_filters_only(
    filters: Seq<FilterView>,
    files: Seq<DownloadFileView>,
    groups: Seq<Seq<Seq<char>>>,
    others: Seq<Seq<Seq<char>>>,
)
    requires
        !reads_version_groups(filters),
    ensures
        resolution(filters, files, groups) == resolution(filters, files, others),
{
    lemma_empty_filters_without_groups(filters, files, groups, others);
    assert forall|i: usize|
        survives(filters, files, groups, i) == survives(filters, files, others, i) by {
        assert forall|k: int| 0 <= k < filters.len() implies filter_indices(
            #[trigger] filters[k],
            files,
            groups,
        ) =~= filter_indices(filters[k], files, others) by {
        }
    }
    assert forall|i: usize|
        is_latest(filters, files, groups, i) == is_latest(filters, files, others, i) by {}
    if exists|i: usize| is_latest(filters, files, groups, i) {
        let i = choose|i: usize| is_latest(filters, files, groups, i);
        lemma_latest_is_unique(filters, files, groups, i);
        lemma_latest_is_unique(filters, files, others, i);
    } else if !(surviving(filters, files, groups) =~= Set::<usize>::empty()) {
        let live = surviving(filters, files, groups);
        assert(exists|i: usize| live.contains(i));
        let i = choose|i: usize| live.contains(i);
        lemma_some_survivor_is_first(filters, files, groups, i);
    }
}

} // verus!
