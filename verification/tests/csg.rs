use roform::csg::{
    check_mesh, decode_cached_mesh, encode_cached_mesh, read_cached_color, read_cached_u32,
    validate_cached_mesh, MeshFault, UnionMesh, UnionVertex,
};

fn bits3(v: [f32; 3]) -> [u32; 3] {
    [v[0].to_bits(), v[1].to_bits(), v[2].to_bits()]
}

fn bits2(v: [f32; 2]) -> [u32; 2] {
    [v[0].to_bits(), v[1].to_bits()]
}

fn triangle() -> UnionMesh {
    UnionMesh {
        vertices: vec![
            UnionVertex {
                position: bits3([0.0, 0.0, 0.0]),
                normal: bits3([0.0, 0.0, 1.0]),
                tex_coord: bits2([0.0, 0.0]),
                color: [255, 128, 64, 255],
            },
            UnionVertex {
                position: bits3([1.0, 0.0, 0.0]),
                normal: bits3([0.0, 0.0, 1.0]),
                tex_coord: bits2([1.0, 0.0]),
                color: [255, 128, 64, 255],
            },
            UnionVertex {
                position: bits3([0.0, 1.0, 0.0]),
                normal: bits3([0.0, 0.0, 1.0]),
                tex_coord: bits2([0.0, 1.0]),
                color: [255, 128, 64, 255],
            },
        ],
        indices: vec![0, 1, 2],
    }
}

#[test]
fn round_trips_cached_meshes() {
    let mesh = triangle();
    let encoded = encode_cached_mesh(&mesh).unwrap();
    assert_eq!(&encoded[..b"ROFMESH1".len()], b"ROFMESH1");
    assert_eq!(decode_cached_mesh(&encoded).unwrap(), mesh);
}

#[test]
fn cached_mesh_layout_is_header_vertices_indices() {
    let encoded = encode_cached_mesh(&triangle()).unwrap();
    assert_eq!(encoded.len(), 8 + 8 + 3 * 36 + 3 * 4);
    assert_eq!(&encoded[8..12], &3u32.to_le_bytes());
    assert_eq!(&encoded[12..16], &3u32.to_le_bytes());
    assert_eq!(&encoded[16..20], &0.0f32.to_le_bytes());
    assert_eq!(&encoded[48..52], &[255, 128, 64, 255]);
    assert_eq!(&encoded[encoded.len() - 4..], &2u32.to_le_bytes());
}

#[test]
fn refuses_foreign_truncated_and_padded_cache_entries() {
    assert_eq!(
        decode_cached_mesh(b"NOTAMESH\0\0\0\0\0\0\0\0").unwrap_err(),
        "cached mesh has an unsupported format"
    );
    assert_eq!(
        decode_cached_mesh(b"ROFMESH1\x03\0\0").unwrap_err(),
        "cached mesh is truncated"
    );
    let encoded = encode_cached_mesh(&triangle()).unwrap();
    assert_eq!(
        decode_cached_mesh(&encoded[..encoded.len() - 1]).unwrap_err(),
        "cached mesh is truncated or has trailing data"
    );
    let mut padded = encoded.clone();
    padded.push(0);
    assert_eq!(
        decode_cached_mesh(&padded).unwrap_err(),
        "cached mesh is truncated or has trailing data"
    );
}

#[test]
fn refuses_cache_entries_with_bad_indices() {
    let mut mesh = triangle();
    mesh.indices = vec![0, 1, 5];
    assert!(encode_cached_mesh(&mesh).is_ok());
    let encoded = encode_cached_mesh(&mesh).unwrap();
    assert_eq!(
        decode_cached_mesh(&encoded).unwrap_err(),
        "cached mesh references vertex index 5, but has 3 vertices"
    );
    assert_eq!(
        validate_cached_mesh(&mesh).unwrap_err(),
        "cached mesh references vertex index 5, but has 3 vertices"
    );
}

#[test]
fn meshes_without_whole_triangles_have_no_geometry() {
    let mut mesh = triangle();
    mesh.indices = vec![0, 1];
    assert_eq!(check_mesh(&mesh), Some(MeshFault::NoGeometry));
    assert_eq!(
        validate_cached_mesh(&mesh).unwrap_err(),
        "cached mesh contains no triangle geometry"
    );
    assert_eq!(check_mesh(&triangle()), None);
    mesh.indices = vec![0, 7, 9];
    assert_eq!(check_mesh(&mesh), Some(MeshFault::InvalidIndex(7)));
}

#[test]
fn reads_little_endian_words_and_colors() {
    let bytes = [1u8, 2, 3, 4, 5, 6, 7, 8];
    let mut offset = 0usize;
    assert_eq!(read_cached_u32(&bytes, &mut offset).unwrap(), 0x0403_0201);
    assert_eq!(offset, 4);
    assert_eq!(read_cached_color(&bytes, &mut offset).unwrap(), [5, 6, 7, 8]);
    assert_eq!(offset, 8);
    assert_eq!(
        read_cached_u32(&bytes, &mut offset).unwrap_err(),
        "cached mesh is truncated"
    );
    assert_eq!(offset, 8);
    let mut far = usize::MAX - 1;
    assert_eq!(
        read_cached_color(&bytes, &mut far).unwrap_err(),
        "cached mesh offset overflow"
    );
}

#[test]
fn decoded_payloads_read_back_from_their_cache_entry() {
    let decoded = roform::payload::decode_mesh_payload(&roform::payload::test_v5_triangle_payload()).unwrap();
    let entry = encode_cached_mesh(&decoded).unwrap();
    assert_eq!(decode_cached_mesh(&entry).unwrap(), decoded);
}
