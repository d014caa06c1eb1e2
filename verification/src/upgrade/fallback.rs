//! Looking for a loader's files and, where there are none, once more for the
//! files of the loader that it can load as well.
//!
//! A search is in one of two states. It begins with the loader that was asked
//! for. Where that attempt finds nothing and the loader has a fallback, the
//! search goes on to its second and last state, the attempt for the fallback:
//! whatever comes of that is final. Either attempt can end with a file or
//! with any of the failures that a choice among files can end with. The
//! caller is told which attempt a file comes from.

use crate::config::filters::{Filter, FilterView};
use crate::config::structs::ModLoader;
use crate::upgrade::check::{
    explains,
    lemma_latest_in_range,
    reports,
    resolution,
    select_latest_index,
    Error,
    Resolution,
};
use crate::upgrade::{DownloadFile, DownloadFileView};
use vstd::prelude::*;

verus! {

/// Whether a search that found nothing for `primary` is made once more for
/// `secondary`: only where `primary` can load what is built for `secondary`.
pub open spec fn falls_back(primary: ModLoader, secondary: ModLoader) -> bool {
    primary.spec_fallback() == Some(secondary)
}

/// What a search with a fallback may return, given what the search for a
/// single loader, `resolve`, may return.
///
/// What was found for `primary` is returned, unmarked. Where nothing was
/// found for it and `primary` falls back on `secondary`, the outcome of the
/// search for `secondary` is returned, a find marked as one of the fallback.
/// Otherwise the failure for `primary` is final. No third search is made.
pub open spec fn fallback_outcome<T, E, F: Fn(ModLoader) -> Result<T, E>>(
    primary: ModLoader,
    secondary: ModLoader,
    resolve: F,
    outcome: Result<(T, bool), E>,
) -> bool {
    match outcome {
        Ok((found, false)) => call_ensures(resolve, (primary,), Ok::<T, E>(found)),
        Ok((found, true)) => {
            &&& falls_back(primary, secondary)
            &&& exists|error: E| call_ensures(resolve, (primary,), Err::<T, E>(error))
            &&& call_ensures(resolve, (secondary,), Ok::<T, E>(found))
        },
        Err(error) => if falls_back(primary, secondary) {
            &&& exists|first: E| call_ensures(resolve, (primary,), Err::<T, E>(first))
            &&& call_ensures(resolve, (secondary,), Err::<T, E>(error))
        } else {
            call_ensures(resolve, (primary,), Err::<T, E>(error))
        },
    }
}

/// Runs the search `resolve` for `primary` and, where that fails and
/// `primary` falls back on `secondary`, once more for `secondary`. The flag
/// beside a find tells whether it is one of the fallback.
pub fn with_fallback<T, E, F: Fn(ModLoader) -> Result<T, E>>(
    primary: ModLoader,
    secondary: ModLoader,
    resolve: F,
) -> (outcome: Result<(T, bool), E>)
    requires
        call_requires(resolve, (primary,)),
        falls_back(primary, secondary) && (exists|error: E|
            call_ensures(resolve, (primary,), Err::<T, E>(error))) ==> call_requires(
            resolve,
            (secondary,),
        ),
    ensures
        fallback_outcome(primary, secondary, resolve, outcome),
{
    match resolve(primary) {
        Ok(found) => Ok((found, false)),
        Err(error) => {
            if primary.fallback() == Some(secondary) {
                match resolve(secondary) {
                    Ok(found) => Ok((found, true)),
                    Err(second) => Err(second),
                }
            } else {
                Err(error)
            }
        },
    }
}

/// What a lookup with a fallback finds, given what is found for the loader
/// itself, `first`, and for the loader it falls back on, `second`.
pub open spec fn found_with_fallback<T>(
    primary: ModLoader,
    secondary: ModLoader,
    first: Option<T>,
    second: Option<T>,
) -> Option<(T, bool)> {
    match first {
        Some(found) => Some((found, false)),
        None => if falls_back(primary, secondary) {
            match second {
                Some(found) => Some((found, true)),
                None => None,
            }
        } else {
            None
        },
    }
}

/// `filters` with the further demand that the file runs on `loader`.
pub open spec fn for_loader(filters: Seq<FilterView>, loader: ModLoader) -> Seq<FilterView> {
    filters.push(FilterView::ModLoaderAny(seq![loader]))
}

/// How the choice among `files` ends when it is made for `primary` and, where
/// that fails and `primary` falls back on `secondary`, once more for
/// `secondary`; with it, whether the second choice was made.
pub open spec fn fallback_resolution(
    filters: Seq<FilterView>,
    files: Seq<DownloadFileView>,
    groups: Seq<Seq<Seq<char>>>,
    primary: ModLoader,
    secondary: ModLoader,
) -> (Resolution, bool) {
    let first = resolution(for_loader(filters, primary), files, groups);
    if first is Latest || !falls_back(primary, secondary) {
        (first, false)
    } else {
        (resolution(for_loader(filters, secondary), files, groups), true)
    }
}

/// Whether `outcome` is what `resolution` prescribes for the list `files`,
/// a chosen file marked with `used_fallback`.
pub open spec fn delivers_marked(
    outcome: Result<(DownloadFile, bool), Error>,
    files: Seq<DownloadFile>,
    resolution: Resolution,
    used_fallback: bool,
) -> bool {
    match resolution {
        Resolution::Latest(i) => i < files.len() && outcome == Ok::<(DownloadFile, bool), Error>(
            (files[i as int], used_fallback),
        ),
        failure => outcome matches Err(error) && explains(error, failure),
    }
}

/// A copy of `filters` with one more filter behind them, which asks for `loader`.
fn filters_for_loader(filters: &[Filter], loader: ModLoader) -> (extended: Vec<Filter>)
    ensures
        extended.deep_view() == for_loader(filters.deep_view(), loader),
{
    let mut extended: Vec<Filter> = Vec::new();
    let mut k: usize = 0;
    while k < filters.len()
        invariant
            k <= filters.len(),
            extended.deep_view() =~= filters.deep_view().take(k as int),
        decreases filters.len() - k,
    {
        let ghost before = extended.deep_view();
        let copy = filters[k].clone();
        extended.push(copy);
        assert(extended.deep_view() =~= before.push(copy.deep_view()));
        k += 1;
    }
    let ghost before = extended.deep_view();
    let only = vec![loader];
    assert(only@ =~= seq![loader]);
    let last = Filter::ModLoaderAny(only);
    extended.push(last);
    assert(extended.deep_view() =~= before.push(last.deep_view()));
    extended
}

/// The file to download for the loader `primary`, under `filters`: the first
/// of `download_files` that runs on `primary` and that every filter lets
/// through. Where there is none and `primary` loads what is built for
/// `secondary`, the choice is made once more with `secondary` in place of
/// `primary`, and the flag beside the file is `true`.
///
/// Assumes that the provided `download_files` are sorted from the newest to
/// the oldest.
pub fn select_latest_with_fallback(
    download_files: Vec<DownloadFile>,
    filters: &[Filter],
    version_groups: &[Vec<String>],
    primary: ModLoader,
    secondary: ModLoader,
) -> (selected: Result<(DownloadFile, bool), Error>)
    ensures
        ({
            let (resolution, used_fallback) = fallback_resolution(
                filters.deep_view(),
                download_files.deep_view(),
                version_groups.deep_view(),
                primary,
                secondary,
            );
            delivers_marked(selected, download_files@, resolution, used_fallback)
        }),
{
    let mut download_files = download_files;
    let ghost rules = filters.deep_view();
    let ghost files = download_files.deep_view();
    let ghost groups = version_groups.deep_view();
    let candidates = download_files.as_slice();
    let resolve = |loader: ModLoader| -> (place: Result<usize, Error>)
        ensures
            reports(
                place,
                resolution(
                    for_loader(filters.deep_view(), loader),
                    candidates.deep_view(),
                    version_groups.deep_view(),
                ),
            ),
    {
        let extended = filters_for_loader(filters, loader);
        let rules = extended.as_slice();
        select_latest_index(candidates, rules, version_groups)
    };
    match with_fallback(primary, secondary, resolve) {
        Ok((index, used_fallback)) => {
            proof {
                if used_fallback {
                    lemma_latest_in_range(for_loader(rules, secondary), files, groups);
                } else {
                    lemma_latest_in_range(for_loader(rules, primary), files, groups);
                }
            }
            Ok((download_files.swap_remove(index), used_fallback))
        },
        Err(error) => Err(error),
    }
}

} // verus!
