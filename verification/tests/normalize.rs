use libium::config::filters::ReleaseChannel;
use libium::config::structs::{find_loaders, ModLoader};
use libium::platform::{
    CurseForgeFile, CurseForgeReleaseType, GameVersion, GameVersionType, GitHubAsset, GitHubRelease,
    ModpackFile, ModrinthVersion, ModrinthVersionFile, ModrinthVersionType,
};
use libium::upgrade::check::get_version_groups;
use libium::upgrade::normalize::{
    from_gh_asset, from_gh_releases, from_modpack_file, from_mr_version, from_mr_versions, output_for,
    try_from_cf_file, try_from_cf_files, words_of_asset,
};
use libium::upgrade::{DistributionDeniedError, DownloadFile};
use libium::version_ext::VersionExt;

fn strings(items: &[&str]) -> Vec<String> {
    items.iter().map(|s| s.to_string()).collect()
}

fn cf_file(id: i32, name: &str, url: Option<&str>, versions: &[&str], date: i64) -> CurseForgeFile {
    CurseForgeFile {
        id,
        mod_id: 238222,
        display_name: format!("Display {name}"),
        file_name: name.to_string(),
        release_type: CurseForgeReleaseType::Beta,
        file_date: date,
        file_length: 1234,
        download_url: url.map(ToOwned::to_owned),
        game_versions: strings(versions),
    }
}

fn version_file(name: &str, primary: bool) -> ModrinthVersionFile {
    ModrinthVersionFile {
        url: format!("https://cdn.modrinth.com/{name}"),
        filename: name.to_string(),
        primary,
        size: 77,
    }
}

fn version(name: &str, files: Vec<ModrinthVersionFile>) -> ModrinthVersion {
    ModrinthVersion {
        name: name.to_string(),
        changelog: Some("fixes".to_string()),
        game_versions: strings(&["1.20.1", "1.20"]),
        version_type: ModrinthVersionType::Alpha,
        loaders: strings(&["fabric", "quilt", "datapack"]),
        files,
    }
}

#[test]
fn a_curseforge_file_is_normalized() {
    let file = cf_file(4, "jei-1.20.1.jar", Some("https://edge.forgecdn.net/jei.jar"), &["1.20.1", "Forge", "NeoForge", "Client"], 0);
    let download = try_from_cf_file(file).unwrap();
    assert_eq!(download.title, "Display jei-1.20.1.jar");
    assert_eq!(download.description, "");
    assert_eq!(download.channel, ReleaseChannel::Beta);
    assert_eq!(download.game_versions, strings(&["1.20.1", "Forge", "NeoForge", "Client"]));
    assert_eq!(download.loaders, vec![ModLoader::Forge, ModLoader::NeoForge]);
    assert_eq!(download.download_url, "https://edge.forgecdn.net/jei.jar");
    assert_eq!(download.output, "mods/jei-1.20.1.jar");
    assert_eq!(download.filename(), "jei-1.20.1.jar");
    assert_eq!(download.length, 1234);
}

#[test]
fn a_curseforge_file_without_an_address_is_denied() {
    let file = cf_file(4, "jei.jar", None, &[], 0);
    assert_eq!(try_from_cf_file(file).unwrap_err(), DistributionDeniedError(238222, 4));
}

#[test]
fn a_list_is_denied_by_its_first_file_without_an_address() {
    let files = vec![
        cf_file(1, "a.jar", Some("https://a"), &[], 0),
        cf_file(2, "b.jar", None, &[], 0),
        cf_file(3, "c.jar", None, &[], 0),
    ];
    assert_eq!(try_from_cf_files(files).unwrap_err(), DistributionDeniedError(238222, 2));
    let files = vec![cf_file(1, "a.jar", Some("https://a"), &[], 0), cf_file(2, "b.zip", Some("https://b"), &[], 0)];
    let converted = try_from_cf_files(files).unwrap();
    assert_eq!(converted.len(), 2);
    assert_eq!(converted[0].output, "mods/a.jar");
    assert_eq!(converted[1].output, "resourcepacks/b.zip");
    assert_eq!(try_from_cf_files(vec![]).unwrap().len(), 0);
}

#[test]
fn archives_go_to_the_resource_packs() {
    assert_eq!(output_for("pack.zip"), "resourcepacks/pack.zip");
    assert_eq!(output_for("mod.jar"), "mods/mod.jar");
    assert_eq!(output_for("zip"), "mods/zip");
    assert_eq!(output_for(".zip"), "resourcepacks/.zip");
    assert_eq!(output_for(""), "mods/");
}

#[test]
fn a_modrinth_version_is_normalized_by_its_primary_file() {
    let files = vec![version_file("sources.jar", false), version_file("mod.jar", true), version_file("other.jar", true)];
    let download = from_mr_version(version("Sodium 0.5", files));
    assert_eq!(download.title, "Sodium 0.5");
    assert_eq!(download.description, "fixes");
    assert_eq!(download.channel, ReleaseChannel::Alpha);
    assert_eq!(download.game_versions, strings(&["1.20.1", "1.20"]));
    assert_eq!(download.loaders, vec![ModLoader::Fabric, ModLoader::Quilt]);
    assert_eq!(download.download_url, "https://cdn.modrinth.com/mod.jar");
    assert_eq!(download.output, "mods/mod.jar");
    assert_eq!(download.length, 77);
}

#[test]
fn the_first_file_stands_in_where_none_is_primary() {
    let files = vec![version_file("first.jar", false), version_file("second.jar", false)];
    let subject = version("v", files);
    assert_eq!(subject.get_version_file().filename, "first.jar");
    assert_eq!(subject.into_version_file().filename, "first.jar");
    let files = vec![version_file("first.jar", false), version_file("second.jar", true)];
    let subject = version("v", files);
    assert_eq!(subject.get_version_file().filename, "second.jar");
    assert_eq!(subject.into_version_file().filename, "second.jar");
    let mut without_changelog = version("v", vec![version_file("only.zip", false)]);
    without_changelog.changelog = None;
    let download = from_mr_version(without_changelog);
    assert_eq!(download.description, "");
    assert_eq!(download.output, "resourcepacks/only.zip");
}

#[test]
fn modrinth_versions_are_normalized_in_their_order() {
    let versions = vec![
        version("new", vec![version_file("new.jar", true)]),
        version("old", vec![version_file("old.jar", false)]),
    ];
    let converted = from_mr_versions(versions);
    let titles: Vec<&str> = converted.iter().map(|file| file.title.as_str()).collect();
    assert_eq!(titles, vec!["new", "old"]);
}

#[test]
fn the_words_of_an_asset_are_its_versions_and_loaders() {
    assert_eq!(words_of_asset("sodium-fabric-mc1.20.1-0.5.jar"), strings(&["sodium", "fabric", "mc1.20.1", "0.5"]));
    assert_eq!(words_of_asset("mod.jar.jar"), strings(&["mod"]));
    assert_eq!(words_of_asset("Quilt-Forge.zip"), strings(&["Quilt", "Forge.zip"]));
    assert_eq!(words_of_asset(""), strings(&[""]));
    assert_eq!(find_loaders(&strings(&["a", "QUILT", " forge ", "neo", "NeoForge", "fabric"])),
        vec![ModLoader::Quilt, ModLoader::Forge, ModLoader::NeoForge, ModLoader::Fabric]);
}

#[test]
fn github_releases_are_normalized_asset_by_asset() {
    let releases = vec![
        GitHubRelease {
            name: Some("v2".to_string()),
            body: None,
            prerelease: true,
            assets: vec![
                GitHubAsset { name: "mod-fabric-1.20.1.jar".to_string(), browser_download_url: "https://gh/2f".to_string(), size: 5 },
                GitHubAsset { name: "mod-forge-1.20.1.jar".to_string(), browser_download_url: "https://gh/2g".to_string(), size: 6 },
            ],
        },
        GitHubRelease { name: None, body: Some("notes".to_string()), prerelease: false, assets: vec![] },
        GitHubRelease {
            name: None,
            body: Some("first".to_string()),
            prerelease: false,
            assets: vec![GitHubAsset { name: "mod-1.19.jar".to_string(), browser_download_url: "https://gh/1".to_string(), size: 4 }],
        },
    ];
    let converted = from_gh_releases(&releases);
    assert_eq!(converted.len(), 3);
    assert_eq!(converted[0].title, "v2");
    assert_eq!(converted[0].description, "");
    assert_eq!(converted[0].channel, ReleaseChannel::Beta);
    assert_eq!(converted[0].game_versions, strings(&["mod", "fabric", "1.20.1"]));
    assert_eq!(converted[0].loaders, vec![ModLoader::Fabric]);
    assert_eq!(converted[0].download_url, "https://gh/2f");
    assert_eq!(converted[0].output, "mods/mod-fabric-1.20.1.jar");
    assert_eq!(converted[0].length, 5);
    assert_eq!(converted[1].loaders, vec![ModLoader::Forge]);
    assert_eq!(converted[2].title, "");
    assert_eq!(converted[2].description, "first");
    assert_eq!(converted[2].channel, ReleaseChannel::Release);
    assert_eq!(converted[2].loaders, vec![]);
    assert_eq!(DownloadFile::from_gh_assets(&releases).len(), 3);
    let lone = from_gh_asset(releases[0].assets[1].clone());
    assert_eq!(lone.title, "");
    assert_eq!(lone.channel, ReleaseChannel::Release);
    assert_eq!(lone.loaders, vec![ModLoader::Forge]);
    assert_eq!(lone.output, "mods/mod-forge-1.20.1.jar");
}

#[test]
fn a_modpack_file_keeps_its_path() {
    let file = ModpackFile {
        path: "mods/sodium.jar".to_string(),
        downloads: strings(&["https://first", "https://second"]),
        file_size: 9,
    };
    let download = from_modpack_file(file);
    assert_eq!(download.download_url, "https://first");
    assert_eq!(download.output, "mods/sodium.jar");
    assert_eq!(download.filename(), "sodium.jar");
    assert_eq!(download.length, 9);
    assert_eq!(download.channel, ReleaseChannel::Release);
    assert!(download.game_versions.is_empty());
    assert!(download.loaders.is_empty());
}

#[test]
fn a_clone_holds_what_the_file_holds() {
    let file = try_from_cf_file(cf_file(4, "jei.jar", Some("https://a"), &["1.20.1", "Forge"], 0)).unwrap();
    let copy = file.clone();
    assert_eq!(copy.title, file.title);
    assert_eq!(copy.game_versions, file.game_versions);
    assert_eq!(copy.loaders, file.loaders);
    assert_eq!(copy.download_url, file.download_url);
    assert_eq!(copy.output, file.output);
    assert_eq!(copy.length, file.length);
    assert_eq!(copy.channel, file.channel);
}

fn game_version(version: &str, version_type: GameVersionType, major: bool) -> GameVersion {
    GameVersion { version: version.to_string(), version_type, major }
}

#[test]
fn game_versions_are_grouped_at_major_releases() {
    let versions = vec![
        game_version("1.21.1", GameVersionType::Release, false),
        game_version("24w33a", GameVersionType::Snapshot, false),
        game_version("1.21", GameVersionType::Release, true),
        game_version("1.20.6", GameVersionType::Release, false),
        game_version("1.20.5-rc1", GameVersionType::Snapshot, true),
        game_version("1.20.5", GameVersionType::Release, true),
        game_version("b1.8", GameVersionType::Beta, true),
        game_version("1.20.4", GameVersionType::Release, false),
        game_version("a1.0", GameVersionType::Alpha, false),
    ];
    assert_eq!(
        get_version_groups(&versions),
        vec![strings(&["1.21.1", "1.21"]), strings(&["1.20.6", "1.20.5"]), strings(&["1.20.4"])]
    );
    assert_eq!(get_version_groups(&[]), vec![Vec::<String>::new()]);
    let closed = vec![game_version("1.21", GameVersionType::Release, true)];
    assert_eq!(get_version_groups(&closed), vec![strings(&["1.21"]), vec![]]);
}

#[test]
fn a_curseforge_file_is_converted_through_the_trait() {
    let file = cf_file(4, "pack.zip", Some("https://edge.forgecdn.net/pack.zip"), &["1.20.1", "Fabric"], 0);
    let download = DownloadFile::try_from(file).unwrap();
    assert_eq!(download.output, "resourcepacks/pack.zip");
    assert_eq!(download.loaders, vec![ModLoader::Fabric]);
    let denied: Result<DownloadFile, _> = cf_file(5, "a.jar", None, &[], 0).try_into();
    assert_eq!(denied.unwrap_err(), DistributionDeniedError(238222, 5));
}
