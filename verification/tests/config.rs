use libium::config::filters::{Filter, ProfileParameters, ReleaseChannel};
use libium::config::structs::{
    is_false, is_zero, Config, ModIdentifier, ModIdentifierRef, ModLoader, ModLoaderParseError,
    ModpackIdentifier, Profile,
};
use std::path::PathBuf;

fn strings(items: &[&str]) -> Vec<String> {
    items.iter().map(|s| s.to_string()).collect()
}

#[test]
fn a_new_profile_prefers_its_loader() {
    let profile = Profile::new("name".to_string(), PathBuf::from("/out"), strings(&["1.20.1", "1.20"]), ModLoader::Quilt);
    assert_eq!(profile.name, "name");
    assert_eq!(profile.output_dir, PathBuf::from("/out"));
    assert!(profile.mods.is_empty());
    assert_eq!(profile.game_version, None);
    assert_eq!(profile.mod_loader, None);
    assert_eq!(profile.filters.len(), 2);
    match &profile.filters[0] {
        Filter::ModLoaderPrefer(loaders) => assert_eq!(loaders, &vec![ModLoader::Quilt, ModLoader::Fabric]),
        other => panic!("unexpected filter: {other:?}"),
    }
    match &profile.filters[1] {
        Filter::GameVersionStrict(versions) => assert_eq!(versions, &strings(&["1.20.1", "1.20"])),
        other => panic!("unexpected filter: {other:?}"),
    }
    for loader in [ModLoader::Fabric, ModLoader::Forge, ModLoader::NeoForge] {
        let profile = Profile::new("name".to_string(), PathBuf::new(), vec![], loader);
        match &profile.filters[0] {
            Filter::ModLoaderPrefer(loaders) => assert_eq!(loaders, &vec![loader]),
            other => panic!("unexpected filter: {other:?}"),
        }
    }
}

#[test]
fn old_fields_become_filters() {
    let mut profile = Profile::new("name".to_string(), PathBuf::new(), strings(&["1.21"]), ModLoader::Forge);
    profile.game_version = Some("1.19.4".to_string());
    profile.mod_loader = Some(ModLoader::Quilt);
    profile.backwards_compat();
    assert_eq!(profile.game_version, None);
    assert_eq!(profile.mod_loader, None);
    match &profile.filters[0] {
        Filter::ModLoaderPrefer(loaders) => assert_eq!(loaders, &vec![ModLoader::Quilt, ModLoader::Fabric]),
        other => panic!("unexpected filter: {other:?}"),
    }
    match &profile.filters[1] {
        Filter::GameVersionStrict(versions) => assert_eq!(versions, &strings(&["1.19.4"])),
        other => panic!("unexpected filter: {other:?}"),
    }
    profile.game_version = Some("1.18".to_string());
    profile.backwards_compat();
    assert_eq!(profile.game_version, None);
    match &profile.filters[1] {
        Filter::GameVersionStrict(versions) => assert_eq!(versions, &strings(&["1.19.4"])),
        other => panic!("unexpected filter: {other:?}"),
    }
    profile.mod_loader = Some(ModLoader::Forge);
    profile.backwards_compat();
    assert_eq!(profile.mod_loader, None);
    assert_eq!(profile.filters.len(), 2);
}

#[test]
fn identifiers_are_borrowed_and_compared() {
    let cf = ModIdentifier::CurseForgeProject(7);
    let mr = ModIdentifier::ModrinthProject("abc".to_string());
    let gh = ModIdentifier::GitHubRepository(("o".to_string(), "r".to_string()));
    assert_eq!(cf.as_ref(), ModIdentifierRef::CurseForgeProject(7));
    assert_eq!(mr.as_ref(), ModIdentifierRef::ModrinthProject("abc"));
    assert_eq!(gh.as_ref(), ModIdentifierRef::GitHubRepository(("o", "r")));
    assert_ne!(gh.as_ref(), ModIdentifierRef::GitHubRepository(("o", "x")));
    assert_ne!(mr.as_ref(), ModIdentifierRef::ModrinthProject("ABC"));
    assert_ne!(cf, ModIdentifier::CurseForgeProject(8));
    assert_ne!(cf, mr);
    assert_eq!(gh.clone(), gh);
    assert_eq!(mr.clone(), mr);
    assert_eq!(ModpackIdentifier::CurseForgeModpack(3), ModpackIdentifier::CurseForgeModpack(3));
    assert_ne!(ModpackIdentifier::CurseForgeModpack(3), ModpackIdentifier::ModrinthModpack("3".to_string()));
    assert_eq!(ModpackIdentifier::ModrinthModpack("x".to_string()), ModpackIdentifier::ModrinthModpack("x".to_string()));
}

#[test]
fn an_empty_config_is_the_default() {
    let config = Config::default();
    assert_eq!(config.active_profile, 0);
    assert_eq!(config.active_modpack, 0);
    assert!(config.profiles.is_empty());
    assert!(config.modpacks.is_empty());
    assert!(is_zero(&0));
    assert!(!is_zero(&3));
    assert!(is_false(&false));
    assert!(!is_false(&true));
}

#[test]
fn loaders_are_parsed_through_the_trait_too() {
    assert_eq!("Quilt".parse::<ModLoader>(), Ok(ModLoader::Quilt));
    assert_eq!("\tNEOFORGE ".parse::<ModLoader>(), Ok(ModLoader::NeoForge));
    assert_eq!("rift".parse::<ModLoader>(), Err(ModLoaderParseError));
    assert_eq!(ModLoader::from_identifier("forge"), Ok(ModLoader::Forge));
    assert_eq!(ModLoader::from_identifier("Forge"), Err(ModLoaderParseError));
    assert_eq!(ModLoader::from_identifier(" forge"), Err(ModLoaderParseError));
    assert_eq!(ModLoader::from_str("ＦＯＲＧＥ"), Err(ModLoaderParseError));
}

#[test]
fn the_first_filter_of_a_kind_gives_the_parameters() {
    let mut filters = vec![
        Filter::ReleaseChannel(ReleaseChannel::Beta),
        Filter::ModLoaderAny(vec![ModLoader::Forge, ModLoader::NeoForge]),
        Filter::GameVersionMinor(strings(&["1.20.1"])),
        Filter::ModLoaderPrefer(vec![ModLoader::Quilt]),
        Filter::GameVersionStrict(strings(&["1.19"])),
    ];
    assert_eq!(filters.game_versions(), Some(&strings(&["1.20.1"])));
    assert_eq!(filters.mod_loader(), Some(&ModLoader::Forge));
    filters.game_versions_mut().unwrap().push("1.20.2".to_string());
    filters.mod_loaders_mut().unwrap().remove(0);
    assert_eq!(filters.game_versions(), Some(&strings(&["1.20.1", "1.20.2"])));
    assert_eq!(filters.mod_loader(), Some(&ModLoader::NeoForge));
    match &filters[4] {
        Filter::GameVersionStrict(versions) => assert_eq!(versions, &strings(&["1.19"])),
        other => panic!("unexpected filter: {other:?}"),
    }
    let mut none = vec![Filter::Filename("x".to_string())];
    assert_eq!(none.game_versions(), None);
    assert_eq!(none.mod_loader(), None);
    assert!(none.game_versions_mut().is_none());
    assert!(none.mod_loaders_mut().is_none());
}

#[test]
fn a_filter_is_cloned_with_what_it_holds() {
    let filters = vec![
        Filter::ModLoaderPrefer(vec![ModLoader::Quilt, ModLoader::Fabric]),
        Filter::ModLoaderAny(vec![ModLoader::Forge]),
        Filter::GameVersionStrict(strings(&["1.19"])),
        Filter::GameVersionMinor(strings(&["1.20"])),
        Filter::ReleaseChannel(ReleaseChannel::Alpha),
        Filter::Filename("^a$".to_string()),
    ];
    for filter in &filters {
        assert_eq!(format!("{:?}", filter.clone()), format!("{filter:?}"));
    }
    let names: Vec<String> = filters.iter().map(Filter::name).collect();
    assert_eq!(names, strings(&["LoaderPrefer", "LoaderAny", "GameVersionStrict", "GameVersionMinor", "ReleaseChannel", "Filename"]));
}

#[test]
fn a_profile_is_cloned_with_its_directory() {
    let profile = Profile::new("name".to_string(), PathBuf::from("/some/where"), strings(&["1.20.1"]), ModLoader::Fabric);
    let copy = profile.clone();
    assert_eq!(copy.output_dir, PathBuf::from("/some/where"));
    assert_eq!(copy.name, profile.name);
    assert_eq!(copy.filters.len(), 2);
}
