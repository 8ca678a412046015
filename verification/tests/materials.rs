use roform::materials::{
    fallback_texture_names, image_position, material_blends, material_matches, material_position,
    material_unlit, texture_source, uses_unlit_extension, MaterialKey, TextureSource,
};

fn key(name: &str, alpha: f32, base: Option<&str>) -> MaterialKey {
    MaterialKey {
        name: name.to_owned(),
        color_bits: [1.0f32.to_bits(), 0.5f32.to_bits(), 0.0f32.to_bits(), alpha.to_bits()],
        base_color_asset: base.map(str::to_owned),
        normal_asset: None,
    }
}

fn path(parts: &[&str]) -> Vec<String> {
    parts.iter().map(|p| p.to_string()).collect()
}

#[test]
fn primitives_share_materials_with_the_same_key() {
    let keys = vec![key("plastic", 1.0, None), key("neon", 1.0, None), key("plastic", 0.5, None)];
    assert_eq!(material_position(&keys, &key("neon", 1.0, None)), Some(1));
    assert_eq!(material_position(&keys, &key("plastic", 0.5, None)), Some(2));
    assert_eq!(material_position(&keys, &key("plastic", 1.0, Some("9"))), None);
    assert_eq!(material_position(&keys, &key("wood", 1.0, None)), None);
}

#[test]
fn material_keys_compare_components_as_they_print() {
    assert!(material_matches(&key("a", f32::NAN, None), &key("a", -f32::NAN, None)));
    assert!(!material_matches(&key("a", 0.0, None), &key("a", -0.0, None)));
    assert!(material_matches(&key("a", 1.0, Some("1")), &key("a", 1.0, Some("1"))));
}

#[test]
fn textures_are_shared_by_image_file() {
    let images = vec![path(&["/", "m", "a.png"]), path(&["/", "dl", "7", "x.png"])];
    assert_eq!(image_position(&images, &path(&["/", "dl", "7", "x.png"])), Some(1));
    assert_eq!(image_position(&images, &path(&["/", "m", "b.png"])), None);
    assert_eq!(image_position(&images, &path(&["/", "m"])), None);
}

#[test]
fn texture_sources_prefer_downloads_over_fallbacks() {
    assert_eq!(texture_source(true, true), TextureSource::Downloaded);
    assert_eq!(texture_source(false, true), TextureSource::Fallback);
    assert_eq!(texture_source(false, false), TextureSource::Absent);
    assert_eq!(
        fallback_texture_names("plastic"),
        ("plastic_color.png".to_owned(), "plastic_normal.png".to_owned())
    );
}

#[test]
fn translucent_materials_blend_and_neon_is_unlit() {
    assert!(material_blends(0.5f32.to_bits()));
    assert!(material_blends((-0.0f32).to_bits()));
    assert!(material_blends(f32::NEG_INFINITY.to_bits()));
    assert!(!material_blends(1.0f32.to_bits()));
    assert!(!material_blends(f32::INFINITY.to_bits()));
    assert!(!material_blends(f32::NAN.to_bits()));
    assert!(!material_blends((-f32::NAN).to_bits()));
    assert!(material_unlit("neon"));
    assert!(!material_unlit("plastic"));
    assert!(uses_unlit_extension(&vec!["plastic".to_owned(), "neon".to_owned()]));
    assert!(!uses_unlit_extension(&vec!["plastic".to_owned()]));
}
