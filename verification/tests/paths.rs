use roform::paths::{file_name, file_stem, sorted_unique, staged_path};

fn path(parts: &[&str]) -> Vec<String> {
    parts.iter().map(|p| p.to_string()).collect()
}

#[test]
fn file_names_are_the_last_normal_component() {
    assert_eq!(file_name("a/b/c.gltf"), Some("c.gltf".to_owned()));
    assert_eq!(file_name("a/b/"), Some("b".to_owned()));
    assert_eq!(file_name("a/b/."), Some("b".to_owned()));
    assert_eq!(file_name("a//b"), Some("b".to_owned()));
    assert_eq!(file_name("plain"), Some("plain".to_owned()));
    assert_eq!(file_name(""), None);
    assert_eq!(file_name("/"), None);
    assert_eq!(file_name("a/.."), None);
    assert_eq!(file_name("."), None);
}

#[test]
fn file_stems_drop_the_last_extension() {
    assert_eq!(file_stem("a.tar.gz"), "a.tar");
    assert_eq!(file_stem(".profile"), ".profile");
    assert_eq!(file_stem("noext"), "noext");
    assert_eq!(file_stem("trailing."), "trailing");
}

#[test]
fn sorting_paths_removes_repeats() {
    let paths = vec![path(&["b"]), path(&["a", "x"]), path(&["b"]), path(&["a"])];
    assert_eq!(sorted_unique(&paths), vec![path(&["a"]), path(&["a", "x"]), path(&["b"])]);
}

#[test]
fn material_images_are_staged_under_the_output_directory() {
    assert_eq!(
        staged_path(
            &path(&["/", "assets", "material", "wood_color.png"]),
            &path(&["/", "assets", "material"]),
            &path(&["/", "out"]),
        ),
        path(&["/", "out", "wood_color.png"])
    );
    assert_eq!(
        staged_path(
            &path(&["/", "dl", "1", "asset.png"]),
            &path(&["/", "assets", "material"]),
            &path(&["/", "out"]),
        ),
        path(&["/", "dl", "1", "asset.png"])
    );
}
