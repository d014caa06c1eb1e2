use libium::config::structs::ModLoader;

#[test]
fn loader_names_are_read_in_any_case() {
    assert_eq!(ModLoader::from_str("  QuILt "), Ok(ModLoader::Quilt));
    assert_eq!(ModLoader::from_str("fabric"), Ok(ModLoader::Fabric));
    assert_eq!(ModLoader::from_str("Forge\n"), Ok(ModLoader::Forge));
    assert_eq!(ModLoader::from_str("NeoForge"), Ok(ModLoader::NeoForge));
    assert!(ModLoader::from_str("neo forge").is_err());
}
