use libium::check;
use libium::config::structs::ModLoader;
use libium::platform::{
    CurseForgeFile, CurseForgeReleaseType, GitHubAsset, GitHubRelease, ModrinthVersion,
    ModrinthVersionFile, ModrinthVersionType,
};
use libium::upgrade::compatible::{
    get_latest_compatible_asset, get_latest_compatible_downloadable, get_latest_compatible_file,
    get_latest_compatible_version, Error, ProjectFiles,
};
use libium::upgrade::fallback::with_fallback;
use libium::upgrade::DistributionDeniedError;

fn strings(items: &[&str]) -> Vec<String> {
    items.iter().map(|s| s.to_string()).collect()
}

fn cf_file(id: i32, versions: &[&str], date: i64) -> CurseForgeFile {
    CurseForgeFile {
        id,
        mod_id: 1,
        display_name: format!("file {id}"),
        file_name: format!("{id}.jar"),
        release_type: CurseForgeReleaseType::Release,
        file_date: date,
        file_length: 1,
        download_url: Some(format!("https://cf/{id}")),
        game_versions: strings(versions),
    }
}

fn mr_version(name: &str, versions: &[&str], loaders: &[&str], files: &[(&str, bool)]) -> ModrinthVersion {
    ModrinthVersion {
        name: name.to_string(),
        changelog: None,
        game_versions: strings(versions),
        version_type: ModrinthVersionType::Release,
        loaders: strings(loaders),
        files: files
            .iter()
            .map(|(file, primary)| ModrinthVersionFile {
                url: format!("https://mr/{file}"),
                filename: file.to_string(),
                primary: *primary,
                size: 1,
            })
            .collect(),
    }
}

fn release(assets: &[&str]) -> GitHubRelease {
    GitHubRelease {
        name: None,
        body: None,
        prerelease: false,
        assets: assets
            .iter()
            .map(|name| GitHubAsset { name: name.to_string(), browser_download_url: format!("https://gh/{name}"), size: 1 })
            .collect(),
    }
}

#[test]
fn game_versions_and_loaders_are_looked_up() {
    let versions = strings(&["1.20.1", "Forge", " QUILT "]);
    assert!(check::check_game_version(&versions, "1.20.1"));
    assert!(!check::check_game_version(&versions, "1.20"));
    assert!(!check::check_game_version(&versions, "forge"));
    assert!(check::check_mod_loader(&versions, &ModLoader::Forge));
    assert!(check::check_mod_loader(&versions, &ModLoader::Quilt));
    assert!(!check::check_mod_loader(&versions, &ModLoader::Fabric));
    assert!(!check::check_mod_loader(&[], &ModLoader::Fabric));
}

#[test]
fn curseforge_files_are_sorted_newest_first() {
    let mut files = vec![cf_file(1, &[], 10), cf_file(2, &[], 30), cf_file(3, &[], 20), cf_file(4, &[], 30), cf_file(5, &[], -5)];
    check::sort_newest_first(&mut files);
    let dates: Vec<i64> = files.iter().map(|file| file.file_date).collect();
    assert_eq!(dates, vec![30, 30, 20, 10, -5]);
    let mut ids: Vec<i32> = files.iter().map(|file| file.id).collect();
    ids.sort();
    assert_eq!(ids, vec![1, 2, 3, 4, 5]);
    let mut none: Vec<CurseForgeFile> = vec![];
    check::sort_newest_first(&mut none);
    assert!(none.is_empty());
}

#[test]
fn the_newest_fitting_curseforge_file_is_found() {
    let mut files = vec![
        cf_file(1, &["1.20.1", "Fabric"], 10),
        cf_file(2, &["1.20.1", "Forge"], 30),
        cf_file(3, &["1.19.4", "Fabric"], 40),
        cf_file(4, &["1.20.1", "Fabric"], 20),
    ];
    let found = check::curseforge(&mut files, "1.20.1", &ModLoader::Fabric, None, None).unwrap();
    assert_eq!(found.id, 4);
    assert_eq!(files[0].id, 3);
    assert_eq!(check::curseforge(&mut files, "1.20.1", &ModLoader::Fabric, Some(false), None).unwrap().id, 3);
    assert_eq!(check::curseforge(&mut files, "1.20.1", &ModLoader::Fabric, Some(true), Some(false)).unwrap().id, 2);
    assert_eq!(check::curseforge(&mut files, "1.18", &ModLoader::Fabric, Some(false), Some(false)).unwrap().id, 3);
    assert!(check::curseforge(&mut files, "1.18", &ModLoader::Fabric, None, None).is_none());
    assert!(check::curseforge(&mut files, "1.20.1", &ModLoader::Quilt, None, None).is_none());
    assert_eq!(check::first_fitting_file(&files, "1.20.1", &ModLoader::Forge, None, None), Some(1));
}

#[test]
fn quilt_falls_back_on_fabric_files() {
    let files = vec![
        cf_file(1, &["1.20.1", "Fabric"], 10),
        cf_file(2, &["1.20.1", "Forge"], 30),
        cf_file(4, &["1.20.1", "Fabric"], 20),
    ];
    let (file, used) = get_latest_compatible_file(files.clone(), "1.20.1", &ModLoader::Quilt, None, None).unwrap();
    assert_eq!((file.id, used), (4, true));
    let (file, used) = get_latest_compatible_file(files.clone(), "1.20.1", &ModLoader::Fabric, None, None).unwrap();
    assert_eq!((file.id, used), (4, false));
    assert!(get_latest_compatible_file(files.clone(), "1.20.1", &ModLoader::NeoForge, None, None).is_none());
    assert!(get_latest_compatible_file(files.clone(), "1.19", &ModLoader::Quilt, None, None).is_none());
    let mut with_quilt = files.clone();
    with_quilt.push(cf_file(5, &["1.20.1", "Quilt"], 1));
    let (file, used) = get_latest_compatible_file(with_quilt, "1.20.1", &ModLoader::Quilt, None, None).unwrap();
    assert_eq!((file.id, used), (5, false));
}

#[test]
fn the_first_fitting_modrinth_version_is_found() {
    let versions = vec![
        mr_version("forge", &["1.20.1"], &["forge"], &[("forge.jar", true)]),
        mr_version("fabric", &["1.20.1", "1.20"], &["fabric", "quilt"], &[("sources.jar", false), ("fabric.jar", true)]),
        mr_version("older", &["1.20.1"], &["fabric"], &[("older.jar", false)]),
    ];
    let (file, version) = check::modrinth(&versions, "1.20.1", &ModLoader::Fabric, None, None).unwrap();
    assert_eq!((file.filename.as_str(), version.name.as_str()), ("fabric.jar", "fabric"));
    let (file, version) = check::modrinth(&versions, "1.20", &ModLoader::Forge, Some(false), None).unwrap();
    assert_eq!((file.filename.as_str(), version.name.as_str()), ("forge.jar", "forge"));
    assert!(check::modrinth(&versions, "1.19", &ModLoader::Fabric, None, None).is_none());
    assert!(check::modrinth(&versions, "1.20.1", &ModLoader::NeoForge, Some(true), Some(true)).is_none());
    assert!(check::modrinth(&[], "1.20.1", &ModLoader::Fabric, Some(false), Some(false)).is_none());
}

#[test]
fn quilt_falls_back_on_fabric_versions() {
    let versions = vec![
        mr_version("forge", &["1.20.1"], &["forge"], &[("forge.jar", true)]),
        mr_version("fabric", &["1.20.1"], &["fabric"], &[("fabric.jar", false)]),
    ];
    let (file, version, used) = get_latest_compatible_version(&versions, "1.20.1", &ModLoader::Quilt, None, None).unwrap();
    assert_eq!((file.filename.as_str(), version.name.as_str(), used), ("fabric.jar", "fabric", true));
    let (_, version, used) = get_latest_compatible_version(&versions, "1.20.1", &ModLoader::Forge, None, None).unwrap();
    assert_eq!((version.name.as_str(), used), ("forge", false));
    assert!(get_latest_compatible_version(&versions, "1.20.1", &ModLoader::NeoForge, None, None).is_none());
    assert!(get_latest_compatible_version(&versions, "1.19", &ModLoader::Quilt, None, None).is_none());
}

#[test]
fn the_first_fitting_github_asset_is_found() {
    let releases = vec![
        release(&["mod-fabric-1.20.1-sources.jar", "mod-forge-1.20.1.jar", "notes.txt"]),
        release(&[]),
        release(&["mod-fabric-1.20.1.jar", "mod-FABRIC-1.20.1-alt.jar"]),
    ];
    assert_eq!(check::github(&releases, "1.20.1", &ModLoader::Fabric, None, None).unwrap().name, "mod-fabric-1.20.1.jar");
    assert_eq!(check::github(&releases, "1.20.1", &ModLoader::Forge, None, None).unwrap().name, "mod-forge-1.20.1.jar");
    assert_eq!(check::github(&releases, "1.19", &ModLoader::Fabric, Some(false), Some(false)).unwrap().name, "mod-forge-1.20.1.jar");
    assert!(check::github(&releases, "1.19", &ModLoader::Fabric, None, None).is_none());
    assert!(check::github(&releases, "1.20.1", &ModLoader::Quilt, None, None).is_none());
    let (asset, used) = get_latest_compatible_asset(&releases, "1.20.1", &ModLoader::Quilt, None, None).unwrap();
    assert_eq!((asset.name.as_str(), used), ("mod-fabric-1.20.1.jar", true));
    let (asset, used) = get_latest_compatible_asset(&releases, "1.20", &ModLoader::Forge, None, None).unwrap();
    assert_eq!((asset.name.as_str(), used), ("mod-forge-1.20.1.jar", false));
    assert!(get_latest_compatible_asset(&releases, "1.20.1", &ModLoader::NeoForge, None, None).is_none());
}

#[test]
fn a_downloadable_is_found_on_every_platform() {
    let files = ProjectFiles::CurseForge(vec![cf_file(1, &["1.20.1", "Fabric"], 10), cf_file(2, &["1.20.1", "Fabric"], 20)]);
    let (downloadable, used) = get_latest_compatible_downloadable(files, "1.20.1", &ModLoader::Quilt, None, None).unwrap();
    assert_eq!((downloadable.filename.as_str(), downloadable.download_url.as_str(), used), ("2.jar", "https://cf/2", true));

    let versions = ProjectFiles::Modrinth(vec![mr_version("v", &["1.20.1"], &["quilt"], &[("a.jar", false), ("b.jar", true)])]);
    let (downloadable, used) = get_latest_compatible_downloadable(versions, "1.20.1", &ModLoader::Quilt, None, None).unwrap();
    assert_eq!((downloadable.filename.as_str(), downloadable.download_url.as_str(), used), ("b.jar", "https://mr/b.jar", false));

    let releases = ProjectFiles::GitHub(vec![release(&["mod-forge-1.20.1.jar"])]);
    let (downloadable, used) = get_latest_compatible_downloadable(releases.clone(), "1.20.1", &ModLoader::Forge, None, None).unwrap();
    assert_eq!((downloadable.filename.as_str(), downloadable.download_url.as_str(), used), ("mod-forge-1.20.1.jar", "https://gh/mod-forge-1.20.1.jar", false));
    assert_eq!(get_latest_compatible_downloadable(releases, "1.20.1", &ModLoader::Quilt, None, None).unwrap_err(), Error::NoCompatibleFile);
}

#[test]
fn a_downloadable_without_an_address_is_denied() {
    let mut file = cf_file(7, &["1.20.1", "Forge"], 10);
    file.download_url = None;
    let outcome = get_latest_compatible_downloadable(ProjectFiles::CurseForge(vec![file]), "1.20.1", &ModLoader::Forge, None, None);
    assert_eq!(outcome.unwrap_err(), Error::DistributionDenied(DistributionDeniedError(1, 7)));
}

#[test]
fn the_fallback_is_asked_once_and_only_after_a_failure() {
    let asked = std::cell::RefCell::new(Vec::new());
    let only_fabric = |loader: ModLoader| {
        asked.borrow_mut().push(loader);
        if loader == ModLoader::Fabric { Ok("fabric") } else { Err("nothing") }
    };
    assert_eq!(with_fallback(ModLoader::Quilt, ModLoader::Fabric, &only_fabric), Ok(("fabric", true)));
    assert_eq!(*asked.borrow(), vec![ModLoader::Quilt, ModLoader::Fabric]);
    asked.borrow_mut().clear();
    assert_eq!(with_fallback(ModLoader::Fabric, ModLoader::Quilt, &only_fabric), Ok(("fabric", false)));
    assert_eq!(*asked.borrow(), vec![ModLoader::Fabric]);
    asked.borrow_mut().clear();
    assert_eq!(with_fallback(ModLoader::Forge, ModLoader::Fabric, &only_fabric), Err("nothing"));
    assert_eq!(*asked.borrow(), vec![ModLoader::Forge]);
    asked.borrow_mut().clear();
    let never = |loader: ModLoader| -> Result<(), ModLoader> {
        asked.borrow_mut().push(loader);
        Err(loader)
    };
    assert_eq!(with_fallback(ModLoader::Quilt, ModLoader::Fabric, &never), Err(ModLoader::Fabric));
    assert_eq!(*asked.borrow(), vec![ModLoader::Quilt, ModLoader::Fabric]);
}

#[test]
fn a_version_without_files_is_noticed_before_it_is_chosen() {
    let versions = vec![
        mr_version("empty forge", &["1.20.1"], &["forge"], &[]),
        mr_version("fabric", &["1.20.1"], &["fabric"], &[("fabric.jar", true)]),
        mr_version("empty fabric", &["1.20.1"], &["fabric"], &[]),
    ];
    assert!(!check::has_files_to_choose(&versions, "1.20.1", &ModLoader::Forge, None, None));
    assert!(check::has_files_to_choose(&versions, "1.20.1", &ModLoader::Fabric, None, None));
    assert!(check::has_files_to_choose(&versions, "1.20.1", &ModLoader::NeoForge, None, None));
    assert!(!check::has_files_to_choose(&versions, "1.20.1", &ModLoader::NeoForge, None, Some(false)));
    assert_eq!(check::find_fitting_version(&versions, "1.20.1", &ModLoader::Fabric, None, None), Some(1));
    assert_eq!(check::find_fitting_version(&versions, "1.19", &ModLoader::Fabric, None, None), None);
    let offered = ProjectFiles::Modrinth(versions.clone());
    assert!(libium::upgrade::compatible::has_files_to_choose(&offered, "1.20.1", &ModLoader::Quilt, None, None));
    assert!(!libium::upgrade::compatible::has_files_to_choose(&offered, "1.20.1", &ModLoader::Forge, None, None));
    let only_empty_fabric = ProjectFiles::Modrinth(vec![versions[2].clone()]);
    assert!(!libium::upgrade::compatible::has_files_to_choose(&only_empty_fabric, "1.20.1", &ModLoader::Quilt, None, None));
    assert!(libium::upgrade::compatible::has_files_to_choose(&only_empty_fabric, "1.20.1", &ModLoader::Forge, None, None));
    assert!(libium::upgrade::compatible::has_files_to_choose(&ProjectFiles::GitHub(vec![]), "1.20.1", &ModLoader::Quilt, None, None));
}

#[test]
fn files_of_one_date_keep_their_order() {
    let mut files = vec![cf_file(1, &[], 5), cf_file(2, &[], 9), cf_file(3, &[], 5), cf_file(4, &[], 9), cf_file(5, &[], 5)];
    check::sort_newest_first(&mut files);
    let ids: Vec<i32> = files.iter().map(|file| file.id).collect();
    assert_eq!(ids, vec![2, 4, 1, 3, 5]);
    let fitting = vec![cf_file(1, &["1.20.1", "Forge"], 7), cf_file(2, &["1.20.1", "Forge"], 7)];
    let (file, used) = get_latest_compatible_file(fitting, "1.20.1", &ModLoader::Forge, None, None).unwrap();
    assert_eq!((file.id, used), (1, false));
}
