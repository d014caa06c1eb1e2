use libium::config::filters::{Filter, ReleaseChannel};
use libium::config::structs::ModLoader;
use libium::upgrade::check::{select_latest, select_latest_index, Error};
use libium::upgrade::fallback::select_latest_with_fallback;
use libium::upgrade::DownloadFile;
use std::collections::HashSet;

fn file(name: &str, versions: &[&str], loaders: &[ModLoader], channel: ReleaseChannel) -> DownloadFile {
    DownloadFile {
        title: name.to_string(),
        description: String::new(),
        channel,
        game_versions: versions.iter().map(|v| v.to_string()).collect(),
        loaders: loaders.to_vec(),
        download_url: format!("https://example.com/{name}"),
        output: format!("mods/{name}"),
        length: 0,
    }
}

fn strings(items: &[&str]) -> Vec<String> {
    items.iter().map(|s| s.to_string()).collect()
}

fn scenario() -> Vec<DownloadFile> {
    vec![
        file("t3.jar", &["1.20.1"], &[ModLoader::Forge], ReleaseChannel::Release),
        file("t2.jar", &["1.20.1"], &[ModLoader::Fabric], ReleaseChannel::Release),
        file("t1.jar", &["1.19.4"], &[ModLoader::Fabric], ReleaseChannel::Release),
    ]
}

fn set(items: &[usize]) -> HashSet<usize> {
    items.iter().copied().collect()
}

#[test]
fn selects_the_newest_file_that_passes_every_filter() {
    let filters = vec![
        Filter::GameVersionStrict(strings(&["1.20.1"])),
        Filter::ModLoaderAny(vec![ModLoader::Fabric]),
    ];
    let selected = select_latest(scenario(), &filters, &[]).unwrap();
    assert_eq!(selected.title, "t2.jar");
    assert_eq!(select_latest_index(&scenario(), &filters, &[]).unwrap(), 1);
}

#[test]
fn names_the_filter_that_matches_nothing() {
    let filters = vec![
        Filter::GameVersionStrict(strings(&["1.20.1"])),
        Filter::ModLoaderAny(vec![ModLoader::NeoForge]),
    ];
    match select_latest(scenario(), &filters, &[]) {
        Err(Error::FilterEmpty(names)) => assert_eq!(names, strings(&["LoaderAny"])),
        other => panic!("unexpected outcome: {other:?}"),
    }
}

#[test]
fn names_every_filter_that_matches_nothing() {
    let filters = vec![
        Filter::GameVersionStrict(strings(&["1.18.2"])),
        Filter::ReleaseChannel(ReleaseChannel::Alpha),
        Filter::ModLoaderAny(vec![ModLoader::NeoForge]),
        Filter::ModLoaderPrefer(vec![ModLoader::Quilt]),
        Filter::GameVersionMinor(strings(&["1.20.1"])),
        Filter::Filename("zip$".to_string()),
    ];
    match select_latest(scenario(), &filters, &[]) {
        Err(Error::FilterEmpty(names)) => assert_eq!(
            names,
            strings(&["GameVersionStrict", "LoaderAny", "LoaderPrefer", "GameVersionMinor", "Filename"])
        ),
        other => panic!("unexpected outcome: {other:?}"),
    }
}

#[test]
fn reports_filters_that_exclude_each_other() {
    let filters = vec![
        Filter::GameVersionStrict(strings(&["1.19.4"])),
        Filter::ModLoaderAny(vec![ModLoader::Forge]),
    ];
    assert_eq!(filters[0].filter(&scenario(), &[]).unwrap(), set(&[2]));
    assert_eq!(filters[1].filter(&scenario(), &[]).unwrap(), set(&[0]));
    assert!(matches!(select_latest(scenario(), &filters, &[]), Err(Error::IntersectFailure)));
}

#[test]
fn the_first_of_the_surviving_files_is_selected() {
    let mut files = Vec::new();
    for i in 0..9 {
        let loader = if i == 2 || i == 5 || i == 7 { ModLoader::Fabric } else { ModLoader::Forge };
        files.push(file(&format!("{i}.jar"), &["1.20.1"], &[loader], ReleaseChannel::Release));
    }
    let filters = vec![
        Filter::ModLoaderAny(vec![ModLoader::Fabric]),
        Filter::GameVersionStrict(strings(&["1.20.1"])),
    ];
    assert_eq!(filters[0].filter(&files, &[]).unwrap(), set(&[2, 5, 7]));
    assert_eq!(select_latest_index(&files, &filters, &[]).unwrap(), 2);
    assert_eq!(select_latest(files, &filters, &[]).unwrap().title, "2.jar");
}

#[test]
fn a_preference_is_met_by_the_first_loader_that_has_files() {
    let files = vec![
        file("a.jar", &[], &[ModLoader::Forge], ReleaseChannel::Release),
        file("b.jar", &[], &[ModLoader::Fabric], ReleaseChannel::Release),
        file("c.jar", &[], &[ModLoader::Fabric, ModLoader::Forge], ReleaseChannel::Release),
    ];
    let prefer = Filter::ModLoaderPrefer(vec![ModLoader::Quilt, ModLoader::Fabric]);
    assert_eq!(prefer.filter(&files, &[]).unwrap(), set(&[1, 2]));
    let prefer = Filter::ModLoaderPrefer(vec![ModLoader::Forge, ModLoader::Fabric]);
    assert_eq!(prefer.filter(&files, &[]).unwrap(), set(&[0, 2]));
    let prefer = Filter::ModLoaderPrefer(vec![ModLoader::Quilt, ModLoader::NeoForge]);
    assert_eq!(prefer.filter(&files, &[]).unwrap(), set(&[]));
    let prefer = Filter::ModLoaderPrefer(vec![]);
    assert_eq!(prefer.filter(&files, &[]).unwrap(), set(&[]));
}

#[test]
fn any_of_the_loaders_will_do() {
    let files = vec![
        file("a.jar", &[], &[ModLoader::Forge], ReleaseChannel::Release),
        file("b.jar", &[], &[ModLoader::Fabric], ReleaseChannel::Release),
        file("c.jar", &[], &[ModLoader::Quilt], ReleaseChannel::Release),
        file("d.jar", &[], &[], ReleaseChannel::Release),
    ];
    let any = Filter::ModLoaderAny(vec![ModLoader::Quilt, ModLoader::Forge]);
    assert_eq!(any.filter(&files, &[]).unwrap(), set(&[0, 2]));
    assert_eq!(Filter::ModLoaderAny(vec![]).filter(&files, &[]).unwrap(), set(&[]));
}

#[test]
fn a_game_version_is_matched_without_its_mc_prefix() {
    let files = vec![
        file("a.jar", &["mc1.20.1"], &[], ReleaseChannel::Release),
        file("b.jar", &["1.20", "1.20.1"], &[], ReleaseChannel::Release),
        file("c.jar", &["mcmc1.20.1"], &[], ReleaseChannel::Release),
        file("d.jar", &["1.20.10"], &[], ReleaseChannel::Release),
        file("e.jar", &["m1.20.1"], &[], ReleaseChannel::Release),
    ];
    let strict = Filter::GameVersionStrict(strings(&["1.20.1"]));
    assert_eq!(strict.filter(&files, &[]).unwrap(), set(&[0, 1, 2]));
    let prefixed = Filter::GameVersionStrict(strings(&["mc1.20.1"]));
    assert_eq!(prefixed.filter(&files, &[]).unwrap(), set(&[]));
}

#[test]
fn a_minor_version_filter_takes_the_whole_group() {
    let groups = vec![
        strings(&["1.21.1", "1.21"]),
        strings(&["1.20.6", "1.20.5", "1.20.4", "1.20.3"]),
        strings(&["1.20.2", "1.20.1", "1.20"]),
        strings(&[]),
    ];
    let files = vec![
        file("a.jar", &["1.20"], &[], ReleaseChannel::Release),
        file("b.jar", &["1.20.4"], &[], ReleaseChannel::Release),
        file("c.jar", &["1.21"], &[], ReleaseChannel::Release),
        file("d.jar", &["mc1.20.2", "1.19"], &[], ReleaseChannel::Release),
    ];
    let minor = Filter::GameVersionMinor(strings(&["1.20.1"]));
    assert_eq!(minor.filter(&files, &groups).unwrap(), set(&[0, 3]));
    let both = Filter::GameVersionMinor(strings(&["1.20.1", "1.21"]));
    assert_eq!(both.filter(&files, &groups).unwrap(), set(&[0, 2, 3]));
    let unknown = Filter::GameVersionMinor(strings(&["1.19"]));
    assert_eq!(unknown.filter(&files, &groups).unwrap(), set(&[]));
}

#[test]
fn a_channel_admits_itself_and_what_is_more_stable() {
    let files = vec![
        file("a.jar", &[], &[], ReleaseChannel::Alpha),
        file("b.jar", &[], &[], ReleaseChannel::Beta),
        file("c.jar", &[], &[], ReleaseChannel::Release),
    ];
    assert_eq!(Filter::ReleaseChannel(ReleaseChannel::Release).filter(&files, &[]).unwrap(), set(&[2]));
    assert_eq!(Filter::ReleaseChannel(ReleaseChannel::Beta).filter(&files, &[]).unwrap(), set(&[1, 2]));
    assert_eq!(Filter::ReleaseChannel(ReleaseChannel::Alpha).filter(&files, &[]).unwrap(), set(&[0, 1, 2]));
    assert!(ReleaseChannel::Beta.accepts(ReleaseChannel::Release));
    assert!(!ReleaseChannel::Release.accepts(ReleaseChannel::Beta));
}

#[test]
fn a_filename_filter_matches_the_name_without_its_directory() {
    let files = vec![
        file("sodium-fabric-0.5.jar", &[], &[], ReleaseChannel::Release),
        file("sodium-forge-0.5.jar", &[], &[], ReleaseChannel::Release),
        file("mods-pack.zip", &[], &[], ReleaseChannel::Release),
    ];
    let fabric = Filter::Filename("fabric".to_string());
    assert_eq!(fabric.filter(&files, &[]).unwrap(), set(&[0]));
    let anchored = Filter::Filename("^mods".to_string());
    assert_eq!(anchored.filter(&files, &[]).unwrap(), set(&[2]));
    let directory = Filter::Filename("^mods/".to_string());
    assert_eq!(directory.filter(&files, &[]).unwrap(), set(&[]));
    assert_eq!(files[0].filename(), "sodium-fabric-0.5.jar");
}

#[test]
fn a_malformed_pattern_is_an_error() {
    let broken = Filter::Filename("foo(bar".to_string());
    assert!(matches!(broken.filter(&scenario(), &[]), Err(Error::FilenameRegex(_))));
    let filters = vec![Filter::ModLoaderAny(vec![ModLoader::NeoForge]), broken];
    assert!(matches!(select_latest(scenario(), &filters, &[]), Err(Error::FilenameRegex(_))));
    assert!(matches!(select_latest(vec![], &filters, &[]), Err(Error::FilenameRegex(_))));
}

#[test]
fn without_filters_the_first_file_is_selected() {
    assert_eq!(select_latest(scenario(), &[], &[]).unwrap().title, "t3.jar");
}

#[test]
fn nothing_is_selected_from_an_empty_list() {
    assert!(matches!(select_latest(vec![], &[], &[]), Err(Error::IntersectFailure)));
    let filters = vec![Filter::ReleaseChannel(ReleaseChannel::Alpha)];
    match select_latest(vec![], &filters, &[]) {
        Err(Error::FilterEmpty(names)) => assert_eq!(names, strings(&["ReleaseChannel"])),
        other => panic!("unexpected outcome: {other:?}"),
    }
}

#[test]
fn selecting_twice_gives_the_same_file() {
    let filters = vec![
        Filter::GameVersionStrict(strings(&["1.20.1"])),
        Filter::ModLoaderAny(vec![ModLoader::Fabric]),
    ];
    let first = select_latest(scenario(), &filters, &[]).unwrap();
    let second = select_latest(scenario(), &filters, &[]).unwrap();
    assert_eq!(first.title, second.title);
    assert_eq!(first.download_url, second.download_url);
    let empty = vec![Filter::ModLoaderAny(vec![ModLoader::NeoForge])];
    assert!(matches!(select_latest(scenario(), &empty, &[]), Err(Error::FilterEmpty(_))));
    assert!(matches!(select_latest(scenario(), &empty, &[]), Err(Error::FilterEmpty(_))));
}

#[test]
fn one_more_filter_never_lets_more_files_through() {
    let files = scenario();
    let first = Filter::GameVersionStrict(strings(&["1.20.1"]));
    let second = Filter::ModLoaderAny(vec![ModLoader::Fabric]);
    let one = first.filter(&files, &[]).unwrap();
    let other = second.filter(&files, &[]).unwrap();
    let both: HashSet<usize> = one.intersection(&other).copied().collect();
    assert!(both.len() <= one.len());
    assert_eq!(both, set(&[1]));
    assert_eq!(select_latest_index(&files, &[first.clone()], &[]).unwrap(), 0);
    assert_eq!(select_latest_index(&files, &[first, second], &[]).unwrap(), 1);
}

#[test]
fn the_fallback_loader_is_used_where_the_primary_has_no_file() {
    let files = vec![
        file("forge.jar", &["1.20.1"], &[ModLoader::Forge], ReleaseChannel::Release),
        file("fabric.jar", &["1.20.1"], &[ModLoader::Fabric], ReleaseChannel::Release),
    ];
    let filters = vec![Filter::GameVersionStrict(strings(&["1.20.1"]))];
    let (selected, used_fallback) =
        select_latest_with_fallback(files, &filters, &[], ModLoader::Quilt, ModLoader::Fabric).unwrap();
    assert_eq!(selected.title, "fabric.jar");
    assert!(used_fallback);
}

#[test]
fn the_primary_loader_is_used_where_it_has_a_file() {
    let files = vec![
        file("fabric.jar", &["1.20.1"], &[ModLoader::Fabric], ReleaseChannel::Release),
        file("quilt.jar", &["1.20.1"], &[ModLoader::Quilt], ReleaseChannel::Release),
    ];
    let (selected, used_fallback) =
        select_latest_with_fallback(files, &[], &[], ModLoader::Quilt, ModLoader::Fabric).unwrap();
    assert_eq!(selected.title, "quilt.jar");
    assert!(!used_fallback);
}

#[test]
fn the_fallback_fails_where_neither_loader_has_a_file() {
    let files = vec![file("forge.jar", &["1.20.1"], &[ModLoader::Forge], ReleaseChannel::Release)];
    match select_latest_with_fallback(files, &[], &[], ModLoader::Quilt, ModLoader::Fabric) {
        Err(Error::FilterEmpty(names)) => assert_eq!(names, strings(&["LoaderAny"])),
        other => panic!("unexpected outcome: {other:?}"),
    }
}

#[test]
fn a_loader_without_a_fallback_is_not_retried() {
    let files = vec![file("fabric.jar", &["1.20.1"], &[ModLoader::Fabric], ReleaseChannel::Release)];
    assert!(select_latest_with_fallback(files.clone(), &[], &[], ModLoader::Forge, ModLoader::Fabric).is_err());
    assert!(select_latest_with_fallback(files.clone(), &[], &[], ModLoader::Fabric, ModLoader::Quilt).is_ok());
    assert!(select_latest_with_fallback(files.clone(), &[], &[], ModLoader::Quilt, ModLoader::Forge).is_err());
    assert_eq!(ModLoader::Quilt.fallback(), Some(ModLoader::Fabric));
    assert_eq!(ModLoader::Fabric.fallback(), None);
    assert_eq!(ModLoader::Forge.fallback(), None);
    assert_eq!(ModLoader::NeoForge.fallback(), None);
}

#[test]
fn filters_are_equal_when_they_are_of_one_kind() {
    assert!(Filter::ModLoaderAny(vec![ModLoader::Forge]) == Filter::ModLoaderAny(vec![]));
    assert!(Filter::ModLoaderAny(vec![ModLoader::Forge]) != Filter::ModLoaderPrefer(vec![ModLoader::Forge]));
    assert!(Filter::Filename("a".to_string()) == Filter::Filename("b".to_string()));
    assert!(Filter::GameVersionStrict(vec![]) != Filter::GameVersionMinor(vec![]));
    assert_eq!(Filter::ReleaseChannel(ReleaseChannel::Beta).name(), "ReleaseChannel");
}
