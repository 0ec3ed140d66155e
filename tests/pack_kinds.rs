use resource_core::pack_parser::{extract_namespace, parse_resource_type, MinecraftVersion, ResourceType};

#[test]
fn version_families() {
    assert_eq!(MinecraftVersion::from_pack_format(1), MinecraftVersion::Legacy);
    assert_eq!(MinecraftVersion::from_pack_format(4), MinecraftVersion::Legacy);
    assert_eq!(MinecraftVersion::from_pack_format(5), MinecraftVersion::Flattening);
    assert_eq!(MinecraftVersion::from_pack_format(13), MinecraftVersion::Components);
    assert_eq!(MinecraftVersion::from_pack_format(34), MinecraftVersion::NewModel);
    assert_eq!(MinecraftVersion::from_pack_format(35), MinecraftVersion::ItemsFolder);
    assert_eq!(MinecraftVersion::from_pack_format(0), MinecraftVersion::Legacy);
    assert_eq!(MinecraftVersion::from_pack_format(-3), MinecraftVersion::Legacy);
    assert_eq!(MinecraftVersion::NewModel.description(), "1.20.5-1.21.3 (New Components)");
    assert!(MinecraftVersion::ItemsFolder.uses_items_folder());
    assert!(!MinecraftVersion::NewModel.uses_items_folder());
    assert!(MinecraftVersion::Components.uses_components());
    assert!(!MinecraftVersion::Flattening.uses_components());
}

#[test]
fn resource_kinds_by_folder() {
    let v = MinecraftVersion::NewModel;
    assert_eq!(parse_resource_type("/p/assets/minecraft/Textures/block/stone.png", &v), ResourceType::Texture);
    assert_eq!(parse_resource_type("/p/assets/minecraft/models/item/a.json", &v), ResourceType::Model);
    assert_eq!(parse_resource_type("/p/assets/minecraft/items/a.json", &v), ResourceType::Other);
    assert_eq!(
        parse_resource_type("/p/assets/minecraft/items/a.json", &MinecraftVersion::ItemsFolder),
        ResourceType::ItemModel
    );
    assert_eq!(parse_resource_type("/p/assets/minecraft/blockstates/a.json", &v), ResourceType::BlockState);
    assert_eq!(parse_resource_type("/p/assets/minecraft/sounds/a.ogg", &v), ResourceType::Sound);
    assert_eq!(parse_resource_type("/p/assets/minecraft/lang/en_us.json", &v), ResourceType::Language);
    assert_eq!(parse_resource_type("/p/assets/minecraft/font/default.json", &v), ResourceType::Font);
    assert_eq!(parse_resource_type("/p/assets/minecraft/shaders/core/a.vsh", &v), ResourceType::Shader);
    assert_eq!(parse_resource_type("/p/pack.mcmeta", &v), ResourceType::Other);
}

#[test]
fn namespaces_after_assets() {
    assert_eq!(extract_namespace("/p/assets/minecraft/textures/a.png"), Some("minecraft".to_string()));
    assert_eq!(extract_namespace("assets/mymod/x"), Some("mymod".to_string()));
    assert_eq!(extract_namespace("/p/assets/"), None);
    assert_eq!(extract_namespace("/p/assets/file.png"), None);
    assert_eq!(extract_namespace("/p/other/x.png"), None);
    assert_eq!(extract_namespace("/p/assets//x"), Some(String::new()));
}
