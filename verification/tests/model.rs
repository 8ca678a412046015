use roform::model::{
    ascii_lowercase, decoded_mesh_file_name, geometry_plan, geometry_positions, is_geometry,
    is_source_extension, load_packaged_mesh, material_name, mesh_load_warning, model_roots,
    packaged_mesh, parse_asset_id, primitive_shape, source_files, source_format, DomInstance,
    GeometryInstance, GeometryPlan, MeshFit, MeshSource, PackagedInstance, PrimitiveShape,
    SourceFormat, SpecialMeshAssets, SurfaceAssets,
};
use roform::paths::{file_extension, path_less_or_equal};
use roform::payload::test_v5_triangle_payload;

fn path(parts: &[&str]) -> Vec<String> {
    parts.iter().map(|p| p.to_string()).collect()
}

fn instance(class: &str, lineage: &[&str]) -> DomInstance {
    DomInstance { class: class.to_owned(), lineage: path(lineage) }
}

#[test]
fn model_parses_asset_ids_from_roblox_urls() {
    assert_eq!(parse_asset_id("rbxassetid://123"), Some("123".to_owned()));
    assert_eq!(
        parse_asset_id("https://www.roblox.com/asset/?id=456"),
        Some("456".to_owned())
    );
    assert_eq!(parse_asset_id("rbxassetid://not-an-id"), None);
}

#[test]
fn model_material_names_match_the_metadata_table() {
    assert_eq!(material_name(816), "concrete");
    assert_eq!(material_name(1), "plastic");
}

#[test]
fn lowercases_ascii_letters_only() {
    assert_eq!(ascii_lowercase("RbXmX"), "rbxmx");
    assert_eq!(ascii_lowercase("ÄB-1"), "Äb-1");
    assert_eq!(ascii_lowercase(""), "");
}

#[test]
fn source_formats_follow_the_extension_in_any_case() {
    assert_eq!(source_format("rbxm"), Some(SourceFormat::Binary));
    assert_eq!(source_format("RBXL"), Some(SourceFormat::Binary));
    assert_eq!(source_format("rbxmx"), Some(SourceFormat::Xml));
    assert_eq!(source_format("RbxLx"), Some(SourceFormat::Xml));
    assert_eq!(source_format("rbx"), None);
    assert!(is_source_extension("RBXMX"));
    assert!(!is_source_extension("txt"));
}

#[test]
fn file_extensions_follow_the_last_dot() {
    assert_eq!(file_extension("hut.rbxm"), Some("rbxm".to_owned()));
    assert_eq!(file_extension("archive.tar.gz"), Some("gz".to_owned()));
    assert_eq!(file_extension("trailing."), Some("".to_owned()));
    assert_eq!(file_extension(".rbxm"), None);
    assert_eq!(file_extension("README"), None);
    assert_eq!(file_extension(".."), None);
}

#[test]
fn orders_paths_component_by_component() {
    assert!(path_less_or_equal(&path(&["a"]), &path(&["a", "b"])));
    assert!(!path_less_or_equal(&path(&["a", "b"]), &path(&["a"])));
    assert!(path_less_or_equal(&path(&["a", "z"]), &path(&["a-c"])));
    assert!(!path_less_or_equal(&path(&["a-c"]), &path(&["a", "z"])));
    assert!(path_less_or_equal(&path(&["B"]), &path(&["a"])));
    assert!(path_less_or_equal(&path(&["x"]), &path(&["x"])));
}

#[test]
fn source_files_keeps_roblox_sources_in_path_order() {
    let found = vec![
        path(&["in", "z.RBXMX"]),
        path(&["in", "notes.txt"]),
        path(&["in", "a-c", "b.rbxl"]),
        path(&["in", "a", "c.rbxm"]),
        path(&["in", ".rbxm"]),
        path(&["in", "a", "b.rbxlx"]),
    ];
    assert_eq!(
        source_files(found),
        vec![
            path(&["in", "a", "b.rbxlx"]),
            path(&["in", "a", "c.rbxm"]),
            path(&["in", "a-c", "b.rbxl"]),
            path(&["in", "z.RBXMX"]),
        ]
    );
    assert!(source_files(vec![]).is_empty());
}

#[test]
fn model_roots_are_the_dom_root() {
    let walk = vec![
        instance("Model", &["Model"]),
        instance("Model", &["Model", "Model"]),
        instance("Part", &["Part", "Model", "Model"]),
    ];
    assert_eq!(model_roots(&walk), vec![0]);
    let walk = vec![
        instance("DataModel", &["DataModel"]),
        instance("Model", &["Model", "DataModel"]),
        instance("Model", &["Model", "DataModel"]),
    ];
    assert_eq!(model_roots(&walk), vec![0]);
}

#[test]
fn model_roots_take_models_free_of_models_in_their_lineage() {
    let walk = vec![
        instance("Folder", &[]),
        instance("Model", &["Folder"]),
        instance("Model", &["Model", "Folder"]),
        instance("Model", &["Folder"]),
    ];
    assert_eq!(model_roots(&walk), vec![1, 3]);
    let walk = vec![instance("Model", &[])];
    assert_eq!(model_roots(&walk), vec![0, 0]);
}

#[test]
fn geometry_classes_of_the_model_export() {
    assert!(is_geometry("Part"));
    assert!(is_geometry("MeshPart"));
    assert!(is_geometry("UnionOperation"));
    assert!(!is_geometry("WedgePart"));
}

#[test]
fn shapes_follow_the_part_type_values() {
    assert_eq!(primitive_shape(Some(0)), PrimitiveShape::Ball);
    assert_eq!(primitive_shape(Some(1)), PrimitiveShape::Block);
    assert_eq!(primitive_shape(Some(2)), PrimitiveShape::Cylinder);
    assert_eq!(primitive_shape(Some(3)), PrimitiveShape::Wedge);
    assert_eq!(primitive_shape(Some(4)), PrimitiveShape::CornerWedge);
    assert_eq!(primitive_shape(Some(9)), PrimitiveShape::Block);
    assert_eq!(primitive_shape(None), PrimitiveShape::Block);
}

fn id(s: &str) -> Option<String> {
    Some(s.to_owned())
}

fn geometry(name: &str, class: &str) -> GeometryInstance {
    GeometryInstance {
        name: name.to_owned(),
        class: class.to_owned(),
        special_mesh: None,
        texture_id: None,
        mesh_id: None,
        mesh_content: None,
        asset_id: None,
        surface_appearance: None,
    }
}

#[test]
fn parts_use_their_shape_or_their_special_mesh() {
    let plain = geometry_plan(&geometry("Block", "Part"));
    assert_eq!(
        plain,
        GeometryPlan { source: MeshSource::Shape, base_color_asset: None, normal_asset: None }
    );
    let mut part = geometry("Statue", "Part");
    part.special_mesh = Some(SpecialMeshAssets {
        mesh_id: id("11"),
        texture_id: None,
        texture_id_upper: id("12"),
    });
    assert_eq!(
        geometry_plan(&part),
        GeometryPlan {
            source: MeshSource::Asset { asset_id: "11".to_owned(), fit: MeshFit::SpecialMesh },
            base_color_asset: id("12"),
            normal_asset: None,
        }
    );
    part.special_mesh = Some(SpecialMeshAssets { mesh_id: None, texture_id: id("13"), texture_id_upper: None });
    part.surface_appearance = Some(SurfaceAssets { color_map: None, normal_map: id("14") });
    assert_eq!(
        geometry_plan(&part),
        GeometryPlan { source: MeshSource::Shape, base_color_asset: None, normal_asset: id("14") }
    );
}

#[test]
fn mesh_parts_and_unions_need_an_asset() {
    let mut mesh_part = geometry("Rock", "MeshPart");
    assert_eq!(
        geometry_plan(&mesh_part).source,
        MeshSource::Missing { warning: "Rock: MeshPart has no MeshId".to_owned() }
    );
    mesh_part.mesh_content = id("21");
    mesh_part.texture_id = id("22");
    mesh_part.surface_appearance = Some(SurfaceAssets { color_map: id("23"), normal_map: id("24") });
    assert_eq!(
        geometry_plan(&mesh_part),
        GeometryPlan {
            source: MeshSource::Asset { asset_id: "21".to_owned(), fit: MeshFit::InstanceSize },
            base_color_asset: id("23"),
            normal_asset: id("24"),
        }
    );
    mesh_part.mesh_id = id("20");
    mesh_part.surface_appearance = Some(SurfaceAssets { color_map: None, normal_map: None });
    let plan = geometry_plan(&mesh_part);
    assert_eq!(plan.source, MeshSource::Asset { asset_id: "20".to_owned(), fit: MeshFit::InstanceSize });
    assert_eq!(plan.base_color_asset, id("22"));

    let mut union = geometry("Arch", "UnionOperation");
    assert_eq!(
        geometry_plan(&union).source,
        MeshSource::Missing { warning: "Arch: UnionOperation has no AssetId".to_owned() }
    );
    union.asset_id = id("31");
    union.surface_appearance = Some(SurfaceAssets { color_map: id("32"), normal_map: None });
    assert_eq!(
        geometry_plan(&union),
        GeometryPlan {
            source: MeshSource::Asset { asset_id: "31".to_owned(), fit: MeshFit::InstanceSize },
            base_color_asset: id("32"),
            normal_asset: None,
        }
    );
    assert_eq!(geometry_plan(&geometry("Wedge", "WedgePart")).source, MeshSource::Skip);
}

#[test]
fn geometry_roots_are_taken_twice() {
    let classes = vec!["Part".to_owned(), "Folder".to_owned(), "MeshPart".to_owned()];
    assert_eq!(geometry_positions(&classes), vec![0, 0, 2]);
    let classes = vec!["Model".to_owned(), "UnionOperation".to_owned(), "WedgePart".to_owned()];
    assert_eq!(geometry_positions(&classes), vec![1]);
}

#[test]
fn mesh_warnings_name_instance_asset_and_error() {
    assert_eq!(mesh_load_warning("Rock", "21", "boom"), "Rock (21): boom");
}

#[test]
fn decoded_meshes_are_cached_by_content_hash() {
    assert_eq!(
        decoded_mesh_file_name(b"payload"),
        format!("{}.bin", blake3::hash(b"payload").to_hex())
    );
}

#[test]
fn finds_the_first_packaged_mesh_data() {
    let instances = vec![
        PackagedInstance { class: "Folder".to_owned(), mesh_data: Some(vec![1, 2, 3]) },
        PackagedInstance { class: "PartOperationAsset".to_owned(), mesh_data: None },
        PackagedInstance { class: "PartOperationAsset".to_owned(), mesh_data: Some(test_v5_triangle_payload()) },
    ];
    let mesh = packaged_mesh(&instances, "pkg.rbxm").unwrap();
    assert_eq!(mesh.indices, vec![0, 1, 2]);
    assert_eq!(
        packaged_mesh(&instances[..2].to_vec(), "pkg.rbxm").unwrap_err(),
        "pkg.rbxm contains no PartOperationAsset MeshData"
    );
    let broken = vec![PackagedInstance { class: "PartOperationAsset".to_owned(), mesh_data: Some(Vec::new()) }];
    assert_eq!(
        packaged_mesh(&broken, "pkg.rbxm").unwrap_err(),
        "failed to decode pkg.rbxm: unknown: mesh payload is empty"
    );
}

#[test]
fn loads_packaged_meshes_from_the_decoded_model() {
    let instances = vec![PackagedInstance {
        class: "PartOperationAsset".to_owned(),
        mesh_data: Some(test_v5_triangle_payload()),
    }];
    let mesh = load_packaged_mesh(Ok(instances), "asset.rbxm").unwrap();
    assert_eq!(mesh.vertices.len(), 3);
    assert_eq!(
        load_packaged_mesh(Err("bad header".to_owned()), "asset.rbxm").unwrap_err(),
        "failed to decode asset.rbxm: bad header"
    );
}
