use rbx_dom_weak::{InstanceBuilder, WeakDom};
use roform::metadata::{enum_value, is_class, is_geometry, material_name, parse_asset_id, PropertyValue};

#[test]
fn metadata_parses_asset_ids_from_roblox_urls() {
    assert_eq!(parse_asset_id("rbxassetid://123"), Some("123".to_owned()));
    assert_eq!(
        parse_asset_id("https://www.roblox.com/asset/?id=456"),
        Some("456".to_owned())
    );
    assert_eq!(parse_asset_id("rbxassetid://not-an-id"), None);
}

#[test]
fn recognizes_primitive_part_classes_as_geometry() {
    for class in ["Part", "WedgePart", "CornerWedgePart"] {
        let dom = WeakDom::new(InstanceBuilder::new(class));
        assert!(is_geometry(dom.root().class.as_str()), "{class} should be geometry");
    }
}

#[test]
fn mesh_parts_and_unions_are_geometry_but_folders_are_not() {
    assert!(is_geometry("MeshPart"));
    assert!(is_geometry("UnionOperation"));
    assert!(!is_geometry("Folder"));
    assert!(!is_geometry("part"));
    assert!(is_class("Model", "Model"));
    assert!(!is_class("Model", "Folder"));
}

#[test]
fn asset_ids_stop_at_query_separators() {
    assert_eq!(
        parse_asset_id("https://www.roblox.com/asset/?id=789&version=2"),
        Some("789".to_owned())
    );
    assert_eq!(parse_asset_id("rbxassetid://42#frag"), Some("42".to_owned()));
    assert_eq!(parse_asset_id("rbxassetid://"), None);
    assert_eq!(parse_asset_id("plain text"), None);
}

#[test]
fn names_known_materials_and_falls_back_to_plastic() {
    assert_eq!(material_name(256), "plastic");
    assert_eq!(material_name(272), "smoothplastic");
    assert_eq!(material_name(288), "neon");
    assert_eq!(material_name(512), "wood");
    assert_eq!(material_name(1088), "metal");
    assert_eq!(material_name(2311), "rubber");
    assert_eq!(material_name(7), "plastic");
}

#[test]
fn reads_enum_values_from_enums_and_non_negative_integers() {
    assert_eq!(enum_value(&PropertyValue::Enum(3)), Some(3));
    assert_eq!(enum_value(&PropertyValue::EnumItem(4)), Some(4));
    assert_eq!(enum_value(&PropertyValue::Int32(5)), Some(5));
    assert_eq!(enum_value(&PropertyValue::Int32(-1)), None);
    assert_eq!(enum_value(&PropertyValue::Int64(0x1_0000_0002)), Some(2));
    assert_eq!(enum_value(&PropertyValue::Other), None);
}

#[test]
fn asset_ids_prefer_the_query_and_need_digits() {
    assert_eq!(parse_asset_id("https://x/?id=12/extra"), Some("12".to_owned()));
    assert_eq!(parse_asset_id("rbxasset://textures/x.png"), None);
    assert_eq!(parse_asset_id("rbxassetid://55?x=1"), Some("55".to_owned()));
    assert_eq!(parse_asset_id("rbxasset://77"), Some("77".to_owned()));
    assert_eq!(parse_asset_id("xid=7"), Some("7".to_owned()));
    assert_eq!(parse_asset_id("rbxassetid://9?id=abc"), None);
}
