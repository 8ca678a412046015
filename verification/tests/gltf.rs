use roform::gltf::{add_primitive, AccessorRecord, AccessorType, BufferViewRecord, PrimitiveAccessors};
use roform::csg::{UnionMesh, UnionVertex};
use roform::gltf::{
    append_aligned, append_indices, append_primitive, glb_from_chunks, image_mime_type,
    indices_fit_short, is_local_resource, join_components, pad_to_four, relative_uri,
    PrimitiveLayout,
};

fn path(parts: &[&str]) -> Vec<String> {
    parts.iter().map(|p| p.to_string()).collect()
}

fn le32(bytes: &[u8], at: usize) -> u32 {
    u32::from_le_bytes([bytes[at], bytes[at + 1], bytes[at + 2], bytes[at + 3]])
}

fn vertex(x: f32) -> UnionVertex {
    UnionVertex {
        position: [x.to_bits(), 0, 0],
        normal: [0, 0, 1.0f32.to_bits()],
        tex_coord: [0, 0],
        color: [255, 255, 255, 255],
    }
}

#[test]
fn pads_to_a_multiple_of_four() {
    let mut bytes = vec![1, 2, 3, 4, 5];
    pad_to_four(&mut bytes, 0x20);
    assert_eq!(bytes, vec![1, 2, 3, 4, 5, 0x20, 0x20, 0x20]);
    let mut aligned = vec![9, 9, 9, 9];
    pad_to_four(&mut aligned, 0);
    assert_eq!(aligned, vec![9, 9, 9, 9]);
    let mut empty: Vec<u8> = Vec::new();
    pad_to_four(&mut empty, 0);
    assert!(empty.is_empty());
}

#[test]
fn recognizes_png_jpeg_and_webp_images() {
    assert_eq!(image_mime_type(b"\x89PNG\r\n\x1a\nrest"), Some("image/png"));
    assert_eq!(image_mime_type(&[0xff, 0xd8, 0xff, 0xe0]), Some("image/jpeg"));
    assert_eq!(image_mime_type(b"RIFF\0\0\0\0WEBPVP8 "), Some("image/webp"));
    assert_eq!(image_mime_type(b"RIFF\0\0\0\0WAVE"), None);
    assert_eq!(image_mime_type(b"RIFF"), None);
    assert_eq!(image_mime_type(b"GIF89a"), None);
}

#[test]
fn local_resources_are_neither_data_nor_remote_uris() {
    assert!(is_local_resource("../bin/triangle.bin"));
    assert!(!is_local_resource("data:application/octet-stream;base64,AAAA"));
    assert!(!is_local_resource("https://example.com/a.png"));
}

#[test]
fn relative_uris_climb_out_of_the_model_directory() {
    assert_eq!(
        relative_uri(&path(&["/", "out", "model"]), &path(&["/", "out", "bin", "triangle.bin"])),
        Some("../bin/triangle.bin".to_owned())
    );
    assert_eq!(
        relative_uri(&path(&["/", "out", "model"]), &path(&["/", "out", "download", "123", "asset.png"])),
        Some("../download/123/asset.png".to_owned())
    );
    assert_eq!(
        relative_uri(&path(&["/", "out"]), &path(&["/", "out", "a.bin"])),
        Some("a.bin".to_owned())
    );
    assert_eq!(relative_uri(&path(&["a"]), &path(&["b", "c"])), None);
    assert_eq!(
        relative_uri(&path(&["C:", "out", "model"]), &path(&["C:", "out", "x\\y.bin"])),
        Some("../x/y.bin".to_owned())
    );
    assert_eq!(join_components(&path(&["a", "b", "c"])), "a/b/c");
}

#[test]
fn frames_json_and_binary_chunks_as_glb() {
    let glb = glb_from_chunks(b"{}".to_vec(), vec![1, 2, 3, 4, 5]).unwrap();
    assert_eq!(&glb[0..4], b"glTF");
    assert_eq!(le32(&glb, 4), 2);
    assert_eq!(le32(&glb, 8) as usize, glb.len());
    assert_eq!(glb.len(), 12 + 8 + 4 + 8 + 8);
    assert_eq!(le32(&glb, 12), 4);
    assert_eq!(&glb[16..20], b"JSON");
    assert_eq!(&glb[20..24], b"{}  ");
    assert_eq!(le32(&glb, 24), 8);
    assert_eq!(&glb[28..32], b"BIN\0");
    assert_eq!(&glb[32..40], &[1, 2, 3, 4, 5, 0, 0, 0]);
}

#[test]
fn appends_resources_at_four_byte_boundaries() {
    let mut binary = vec![1, 2, 3];
    let offset = append_aligned(&mut binary, &[7, 8]);
    assert_eq!(offset, 4);
    assert_eq!(binary, vec![1, 2, 3, 0, 7, 8]);
}

#[test]
fn writes_indices_as_shorts_when_they_fit() {
    assert!(indices_fit_short(&vec![0, 1, 65535]));
    assert!(!indices_fit_short(&vec![0, 65536]));
    let mut binary = Vec::new();
    append_indices(&mut binary, &vec![1, 2, 3], true);
    assert_eq!(binary, vec![1, 0, 2, 0, 3, 0]);
    let mut wide = Vec::new();
    append_indices(&mut wide, &vec![1, 70000], false);
    assert_eq!(wide, vec![1, 0, 0, 0, 0x70, 0x11, 1, 0]);
}

#[test]
fn lays_out_a_primitive_after_the_existing_buffer() {
    let mesh = UnionMesh {
        vertices: vec![vertex(0.0), vertex(1.0), vertex(2.0)],
        indices: vec![0, 1, 2],
    };
    let mut binary = vec![0xaa];
    let layout = append_primitive(&mut binary, &mesh, None);
    assert_eq!(
        layout,
        PrimitiveLayout {
            vertex_offset: 1,
            vertex_length: 108,
            tangent_view: None,
            index_offset: 112,
            index_length: 6,
            short_indices: true,
        }
    );
    assert_eq!(binary.len(), 120);
    assert_eq!(&binary[1..5], &0.0f32.to_le_bytes());
    assert_eq!(&binary[37..41], &1.0f32.to_le_bytes());
    assert_eq!(&binary[112..118], &[0, 0, 1, 0, 2, 0]);

    let tangents = vec![[1.0f32.to_bits(), 0, 0, 1.0f32.to_bits()]; 3];
    let mut with_tangents = Vec::new();
    let layout = append_primitive(&mut with_tangents, &mesh, Some(&tangents));
    assert_eq!(layout.tangent_view, Some((108, 48)));
    assert_eq!(layout.index_offset, 156);
    assert_eq!(with_tangents.len(), 164);
}

#[test]
fn refuses_remote_and_inline_resources_for_glb() {
    assert!(roform::gltf::check_local_resource("../bin/a.bin").is_ok());
    assert_eq!(
        roform::gltf::check_local_resource("https://x/y.png").unwrap_err(),
        "GLB conversion only supports local external resources, got https://x/y.png"
    );
}

#[test]
fn packs_images_after_the_buffer_at_four_byte_boundaries() {
    let mut binary = vec![1, 2, 3, 4, 5];
    let images = vec![Some(vec![9, 9]), None, Some(vec![7, 7, 7])];
    let placed = roform::gltf::pack_images(&mut binary, &images, 4);
    assert_eq!(binary, vec![1, 2, 3, 4, 5, 0, 0, 0, 9, 9, 0, 0, 7, 7, 7]);
    assert_eq!(
        placed,
        vec![
            Some(roform::gltf::PackedImage { buffer_view: 4, byte_offset: 8, byte_length: 2 }),
            None,
            Some(roform::gltf::PackedImage { buffer_view: 5, byte_offset: 12, byte_length: 3 }),
        ]
    );
}

#[test]
fn records_buffer_views_and_accessors_of_primitives() {
    let mesh = UnionMesh {
        vertices: vec![vertex(0.0), vertex(1.0), vertex(2.0)],
        indices: vec![0, 1, 70000],
    };
    let mut binary = Vec::new();
    let mut views = Vec::new();
    let mut accessors = Vec::new();
    let first = add_primitive(&mut binary, &mut views, &mut accessors, &mesh, None);
    assert_eq!(
        first,
        PrimitiveAccessors { position: 0, normal: 1, tex_coord: 2, color: 3, tangent: None, indices: 4 }
    );
    assert_eq!(
        views,
        vec![
            BufferViewRecord { byte_offset: 0, byte_length: 108, byte_stride: Some(36), target: Some(34962) },
            BufferViewRecord { byte_offset: 108, byte_length: 12, byte_stride: None, target: Some(34963) },
        ]
    );
    assert_eq!(
        accessors[3],
        AccessorRecord { buffer_view: 0, byte_offset: Some(32), component_type: 5121, normalized: true, count: 3, accessor_type: AccessorType::Vec4 }
    );
    assert_eq!(
        accessors[4],
        AccessorRecord { buffer_view: 1, byte_offset: None, component_type: 5125, normalized: false, count: 3, accessor_type: AccessorType::Scalar }
    );
    let small = UnionMesh { vertices: vec![vertex(0.0), vertex(1.0), vertex(2.0)], indices: vec![0, 1, 2] };
    let tangents = vec![[0u32; 4]; 3];
    let second = add_primitive(&mut binary, &mut views, &mut accessors, &small, Some(&tangents));
    assert_eq!(second.tangent, Some(9));
    assert_eq!(second.indices, 10);
    assert_eq!(views.len(), 5);
    assert_eq!(views[3], BufferViewRecord { byte_offset: 228, byte_length: 48, byte_stride: None, target: Some(34962) });
    assert_eq!(accessors[10].component_type, 5123);
    assert_eq!(accessors[10].buffer_view, 4);
    for view in &views {
        assert!(view.byte_offset + view.byte_length <= binary.len());
    }
}

#[test]
fn relative_uris_lead_back_to_their_target() {
    let from = path(&["/", "out", "model", "nested"]);
    let to = path(&["/", "out", "bin", "x", "a.bin"]);
    let uri = relative_uri(&from, &to).unwrap();
    assert_eq!(uri, "../../bin/x/a.bin");
    let mut reached = from.clone();
    for part in uri.split('/') {
        if part == ".." {
            reached.pop();
        } else {
            reached.push(part.to_owned());
        }
    }
    assert_eq!(reached, to);
}

#[test]
fn relative_uris_of_joined_paths_are_the_joined_parts() {
    assert_eq!(
        relative_uri(&path(&["/", "out", "model"]), &path(&["/", "out", "model", "tex", "a.png"])),
        Some("tex/a.png".to_owned())
    );
    assert_eq!(
        relative_uri(&path(&["data"]), &path(&["data", "b.bin"])),
        Some("b.bin".to_owned())
    );
}
