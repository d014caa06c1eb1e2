use libium::config::filters::{Filter, ReleaseChannel};
use libium::config::structs::{Mod, ModIdentifier, ModLoader};
use libium::platform::{
    CurseForgeFile, CurseForgeReleaseType, GitHubAsset, GitHubRelease, ModrinthVersion,
    ModrinthVersionFile, ModrinthVersionType,
};
use libium::upgrade::check::Error as CheckError;
use libium::upgrade::mod_downloadable::{DownloadRequest, DownloadResponse, Error};
use libium::upgrade::DistributionDeniedError;

fn strings(items: &[&str]) -> Vec<String> {
    items.iter().map(|s| s.to_string()).collect()
}

fn a_mod(identifier: ModIdentifier, pin: Option<&str>, filters: Vec<Filter>, override_filters: bool) -> Mod {
    Mod { name: "mod".to_string(), identifier, pin: pin.map(ToOwned::to_owned), filters, override_filters }
}

fn cf_file(id: i32, versions: &[&str], date: i64, url: bool) -> CurseForgeFile {
    CurseForgeFile {
        id,
        mod_id: 9,
        display_name: format!("file {id}"),
        file_name: format!("{id}.jar"),
        release_type: CurseForgeReleaseType::Release,
        file_date: date,
        file_length: 1,
        download_url: if url { Some(format!("https://cf/{id}")) } else { None },
        game_versions: strings(versions),
    }
}

fn mr_version(name: &str, versions: &[&str], loaders: &[&str]) -> ModrinthVersion {
    ModrinthVersion {
        name: name.to_string(),
        changelog: None,
        game_versions: strings(versions),
        version_type: ModrinthVersionType::Release,
        loaders: strings(loaders),
        files: vec![ModrinthVersionFile { url: format!("https://mr/{name}"), filename: format!("{name}.jar"), primary: true, size: 1 }],
    }
}

#[test]
fn the_request_depends_on_the_platform_and_the_pin() {
    let cf = ModIdentifier::CurseForgeProject(9);
    let mr = ModIdentifier::ModrinthProject("AANobbMI".to_string());
    let gh = ModIdentifier::GitHubRepository(("owner".to_string(), "repo".to_string()));
    assert_eq!(a_mod(cf.clone(), None, vec![], false).download_request().unwrap(), DownloadRequest::CurseForgeFiles(9));
    assert_eq!(a_mod(mr.clone(), None, vec![], false).download_request().unwrap(), DownloadRequest::ModrinthVersions("AANobbMI".to_string()));
    assert_eq!(a_mod(gh.clone(), None, vec![], false).download_request().unwrap(), DownloadRequest::GitHubReleases("owner".to_string(), "repo".to_string()));
    assert_eq!(a_mod(cf.clone(), Some("4567"), vec![], false).download_request().unwrap(), DownloadRequest::CurseForgeFile(9, 4567));
    assert_eq!(a_mod(mr.clone(), Some("not checked"), vec![], false).download_request().unwrap(), DownloadRequest::ModrinthVersion("not checked".to_string()));
    assert_eq!(a_mod(gh.clone(), Some("18446744073709551615"), vec![], false).download_request().unwrap(), DownloadRequest::GitHubAsset("owner".to_string(), "repo".to_string(), u64::MAX));
    assert!(matches!(a_mod(cf.clone(), Some("4567a"), vec![], false).download_request(), Err(Error::InvalidPinID)));
    assert!(matches!(a_mod(cf, Some("2147483648"), vec![], false).download_request(), Err(Error::InvalidPinID)));
    assert!(matches!(a_mod(gh.clone(), Some("-1"), vec![], false).download_request(), Err(Error::InvalidPinID)));
    assert!(matches!(a_mod(gh, Some(""), vec![], false).download_request(), Err(Error::InvalidPinID)));
}

#[test]
fn a_mods_filters_follow_or_replace_the_profiles() {
    let profile = vec![Filter::ModLoaderAny(vec![ModLoader::Fabric]), Filter::GameVersionStrict(strings(&["1.20.1"]))];
    let own = vec![Filter::ReleaseChannel(ReleaseChannel::Beta)];
    let id = ModIdentifier::CurseForgeProject(9);
    let names = |filters: Vec<Filter>| filters.iter().map(Filter::name).collect::<Vec<_>>();
    assert_eq!(names(a_mod(id.clone(), None, own.clone(), false).effective_filters(profile.clone())), vec!["LoaderAny", "GameVersionStrict", "ReleaseChannel"]);
    assert_eq!(names(a_mod(id.clone(), None, own, true).effective_filters(profile.clone())), vec!["ReleaseChannel"]);
    assert_eq!(names(a_mod(id.clone(), None, vec![], true).effective_filters(profile.clone())), Vec::<String>::new());
    assert_eq!(names(a_mod(id, None, vec![], false).effective_filters(profile)), vec!["LoaderAny", "GameVersionStrict"]);
}

#[test]
fn curseforge_files_are_sorted_before_the_newest_is_chosen() {
    let subject = a_mod(ModIdentifier::CurseForgeProject(9), None, vec![], false);
    let profile = vec![Filter::GameVersionStrict(strings(&["1.20.1"])), Filter::ModLoaderAny(vec![ModLoader::Forge])];
    let files = vec![
        cf_file(1, &["1.20.1", "Forge"], 100, true),
        cf_file(2, &["1.20.1", "Forge"], 300, true),
        cf_file(3, &["1.20.1", "Fabric"], 400, true),
        cf_file(4, &["1.20.1", "Forge"], 200, true),
    ];
    let chosen = subject.fetch_download_file(profile.clone(), DownloadResponse::Files(files.clone()), &[]).unwrap();
    assert_eq!(chosen.title, "file 2");
    assert_eq!(chosen.output, "mods/2.jar");
    let mut denied = files;
    denied.push(cf_file(5, &["1.12"], 50, false));
    match subject.fetch_download_file(profile, DownloadResponse::Files(denied), &[]) {
        Err(Error::DistributionDenied(error)) => assert_eq!(error, DistributionDeniedError(9, 5)),
        other => panic!("unexpected outcome: {other:?}"),
    }
}

#[test]
fn modrinth_versions_and_github_releases_are_taken_in_their_order() {
    let profile = vec![Filter::GameVersionStrict(strings(&["1.20.1"]))];
    let own = vec![Filter::ModLoaderAny(vec![ModLoader::Quilt])];
    let versions = vec![
        mr_version("a", &["1.20.1"], &["fabric"]),
        mr_version("b", &["1.19"], &["quilt"]),
        mr_version("c", &["1.20.1"], &["quilt"]),
    ];
    let appended = a_mod(ModIdentifier::ModrinthProject("x".to_string()), None, own.clone(), false);
    assert_eq!(appended.fetch_download_file(profile.clone(), DownloadResponse::Versions(versions.clone()), &[]).unwrap().title, "c");
    let overriding = a_mod(ModIdentifier::ModrinthProject("x".to_string()), None, own, true);
    assert_eq!(overriding.fetch_download_file(profile.clone(), DownloadResponse::Versions(versions.clone()), &[]).unwrap().title, "b");
    let strict = a_mod(ModIdentifier::ModrinthProject("x".to_string()), None, vec![Filter::ModLoaderAny(vec![ModLoader::Forge])], false);
    match strict.fetch_download_file(profile.clone(), DownloadResponse::Versions(versions), &[]) {
        Err(Error::CheckError(CheckError::FilterEmpty(names))) => assert_eq!(names, strings(&["LoaderAny"])),
        other => panic!("unexpected outcome: {other:?}"),
    }
    let releases = vec![GitHubRelease {
        name: Some("r".to_string()),
        body: None,
        prerelease: false,
        assets: vec![
            GitHubAsset { name: "mod-1.19.jar".to_string(), browser_download_url: "https://gh/1".to_string(), size: 1 },
            GitHubAsset { name: "mod-1.20.1.jar".to_string(), browser_download_url: "https://gh/2".to_string(), size: 1 },
        ],
    }];
    let plain = a_mod(ModIdentifier::GitHubRepository(("o".to_string(), "r".to_string())), None, vec![], false);
    assert_eq!(plain.fetch_download_file(profile, DownloadResponse::Releases(releases), &[]).unwrap().download_url, "https://gh/2");
}

#[test]
fn a_pinned_file_is_taken_whatever_the_filters_say() {
    let profile = vec![Filter::GameVersionStrict(strings(&["1.20.1"]))];
    let subject = a_mod(ModIdentifier::CurseForgeProject(9), Some("3"), vec![], false);
    let pinned = subject.fetch_download_file(profile.clone(), DownloadResponse::PinnedFile(cf_file(3, &["1.12"], 0, true)), &[]).unwrap();
    assert_eq!(pinned.title, "file 3");
    match subject.fetch_download_file(profile.clone(), DownloadResponse::PinnedFile(cf_file(3, &["1.12"], 0, false)), &[]) {
        Err(Error::DistributionDenied(error)) => assert_eq!(error, DistributionDeniedError(9, 3)),
        other => panic!("unexpected outcome: {other:?}"),
    }
    let pinned = subject.fetch_download_file(profile.clone(), DownloadResponse::PinnedVersion(mr_version("old", &["1.12"], &[])), &[]).unwrap();
    assert_eq!(pinned.title, "old");
    let asset = GitHubAsset { name: "mod-forge.jar".to_string(), browser_download_url: "https://gh/a".to_string(), size: 3 };
    let pinned = subject.fetch_download_file(profile, DownloadResponse::PinnedAsset(asset), &[]).unwrap();
    assert_eq!(pinned.download_url, "https://gh/a");
    assert_eq!(pinned.loaders, vec![ModLoader::Forge]);
}

#[test]
fn an_answer_with_a_version_without_files_is_noticed() {
    let mut empty = mr_version("empty", &["1.20.1"], &["fabric"]);
    empty.files.clear();
    let full = mr_version("full", &["1.20.1"], &["fabric"]);
    assert!(!DownloadResponse::PinnedVersion(empty.clone()).has_all_files());
    assert!(DownloadResponse::PinnedVersion(full.clone()).has_all_files());
    assert!(!DownloadResponse::Versions(vec![full.clone(), empty]).has_all_files());
    assert!(DownloadResponse::Versions(vec![full.clone(), full]).has_all_files());
    assert!(DownloadResponse::Versions(vec![]).has_all_files());
    assert!(DownloadResponse::Files(vec![]).has_all_files());
    assert!(DownloadResponse::Releases(vec![]).has_all_files());
}
