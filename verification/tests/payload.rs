use roform::payload::{
    decode_mesh, decode_mesh_payload, decode_union_graphics, highest_detail_face_range,
    mesh_face_count_overflows, mesh_matrix_overflows, payload_version, test_v5_triangle_payload, CsgError, MeshError,
};

const CSGMDL2_MAGIC: &[u8] = b"\x15\x7d\x29\x15\x75\x6c\x32\x04\x34\x69";
const CSGMDL4_MAGIC: &[u8] = b"\x15\x7d\x29\x15\x75\x6c\x34\x04\x34\x69";
const CSGMDL5_MAGIC: &[u8] = b"\x15\x7d\x29\x15\x75\x6c\x35\x04\x34\x69";

#[test]
fn rejects_empty_and_non_geometry_payloads() {
    assert!(matches!(decode_union_graphics(&[]), Err(CsgError::Empty)));
    let mut csgk = b"CSGK".to_vec();
    csgk.extend_from_slice(&[b'0'; 32]);
    assert!(matches!(
        decode_union_graphics(&csgk),
        Err(CsgError::NoGeometry)
    ));
}

#[test]
fn decodes_v5_triangle_payload() {
    let payload = test_v5_triangle_payload();
    assert_eq!(payload_version(&payload), "CSGMDL5");
    let mesh = decode_union_graphics(&payload).unwrap();
    assert_eq!(mesh.vertices.len(), 3);
    assert_eq!(mesh.indices, vec![0, 1, 2]);
}

#[test]
fn decodes_mesh_v1_triangle_payload() {
    let payload = b"version 1.00\r\n1\r\n[0,0,0][0,1,0][0,0,0][1,0,0][0,1,0][1,0,0][0,0,1][0,1,0][0,1,1]\r\n";
    let mesh = decode_mesh(payload).unwrap();
    assert_eq!(mesh.vertices.len(), 3);
    assert_eq!(mesh.indices, vec![0, 1, 2]);
}

#[test]
fn selects_highest_detail_mesh_lod() {
    assert_eq!(
        highest_detail_face_range(&vec![0, 394, 504, 576], 576).unwrap(),
        0..394
    );
    assert_eq!(highest_detail_face_range(&vec![], 7).unwrap(), 0..7);
}

#[test]
fn classifies_known_and_unknown_payload_headers() {
    assert_eq!(payload_version(b"CSGK\0"), "CSGK");
    assert_eq!(payload_version(CSGMDL2_MAGIC), "CSGMDL2");
    assert_eq!(payload_version(CSGMDL4_MAGIC), "CSGMDL4");
    assert_eq!(payload_version(CSGMDL5_MAGIC), "CSGMDL5");
    assert_eq!(payload_version(b"future-csg"), "unknown");
}

#[test]
fn refuses_lod_offsets_beyond_the_faces_or_out_of_order() {
    assert!(matches!(
        highest_detail_face_range(&vec![0, 9], 7),
        Err(MeshError::InvalidLods { face_count: 7 })
    ));
    assert!(matches!(
        highest_detail_face_range(&vec![4, 2], 7),
        Err(MeshError::InvalidLods { face_count: 7 })
    ));
    assert_eq!(highest_detail_face_range(&vec![2], 7).unwrap(), 2..7);
}

#[test]
fn union_payload_vertices_keep_their_positions() {
    let mesh = decode_union_graphics(&test_v5_triangle_payload()).unwrap();
    assert_eq!(mesh.vertices[0].position, [0, 0, 0]);
    assert_eq!(mesh.vertices[1].position, [1.0f32.to_bits(), 0, 0]);
    assert_eq!(mesh.vertices[2].position, [0, 1.0f32.to_bits(), 0]);
}

#[test]
fn mesh_v1_vertices_carry_positions_normals_and_white() {
    // Version 1.00 meshes are stored at twice their size.
    let payload = b"version 1.00\r\n1\r\n[0,0,0][0,1,0][0,0,0][1,0,0][0,1,0][1,0,0][0,0,1][0,1,0][0,1,1]\r\n";
    let mesh = decode_mesh(payload).unwrap();
    assert_eq!(mesh.vertices[1].position, [0.5f32.to_bits(), 0, 0]);
    assert_eq!(mesh.vertices[1].normal, [0, 1.0f32.to_bits(), 0]);
    assert_eq!(mesh.vertices[0].color, [255, 255, 255, 255]);
}

#[test]
fn decoding_an_empty_mesh_payload_fails() {
    assert!(matches!(decode_mesh(&[]), Err(MeshError::Empty)));
    assert_eq!(MeshError::Empty.message(), "mesh payload is empty");
}

#[test]
fn payload_errors_name_their_header() {
    let mut csgk = b"CSGK".to_vec();
    csgk.extend_from_slice(&[b'0'; 32]);
    assert_eq!(
        decode_mesh_payload(&csgk).unwrap_err(),
        "CSGK: union graphics payload contains no triangle geometry"
    );
    assert_eq!(
        decode_mesh_payload(&[]).unwrap_err(),
        "unknown: mesh payload is empty"
    );
    assert!(decode_mesh_payload(b"garbage").unwrap_err().starts_with("unknown: mesh payload is not a supported version: "));
}

#[test]
fn payload_dispatch_decodes_unions_and_meshes() {
    let union = decode_mesh_payload(&test_v5_triangle_payload()).unwrap();
    assert_eq!(union.indices, vec![0, 1, 2]);
    let payload = b"version 1.00\r\n1\r\n[0,0,0][0,1,0][0,0,0][1,0,0][0,1,0][1,0,0][0,0,1][0,1,0][0,1,1]\r\n";
    let mesh = decode_mesh_payload(payload).unwrap();
    assert_eq!(mesh.vertices.len(), 3);
}

#[test]
fn union_error_messages() {
    assert_eq!(CsgError::Empty.message(), "union graphics payload is empty");
    assert_eq!(
        CsgError::InvalidIndex { index: 7, vertex_count: 3 }.message(),
        "union graphics payload references vertex index 7, but has 3 vertices"
    );
    assert_eq!(
        MeshError::InvalidLods { face_count: 12 }.message(),
        "mesh payload contains invalid LOD ranges for 12 faces"
    );
}

#[test]
fn meshes_without_faces_have_no_geometry() {
    let payload = b"version 1.00\r\n0\r\n\r\n";
    assert!(matches!(decode_mesh(payload), Err(MeshError::NoGeometry)));
    assert_eq!(MeshError::NoGeometry.message(), "mesh payload contains no triangle geometry");
    assert_eq!(
        decode_mesh_payload(payload).unwrap_err(),
        "unknown: mesh payload contains no triangle geometry"
    );
}

/// A version 5 mesh with no geometry whose first FACS matrix announces
/// `rows` by `columns` values, with the given tag and the bytes after the
/// sizes.
fn v5_mesh_with_matrix(tag: u16, rows: u32, columns: u32, after: &[u8]) -> Vec<u8> {
    let mut b = b"version 5.00\n".to_vec();
    b.extend_from_slice(&32u16.to_le_bytes());
    b.extend_from_slice(&0u16.to_le_bytes());
    b.extend_from_slice(&0u32.to_le_bytes());
    b.extend_from_slice(&0u32.to_le_bytes());
    b.extend_from_slice(&0u16.to_le_bytes());
    b.extend_from_slice(&0u16.to_le_bytes());
    b.extend_from_slice(&0u32.to_le_bytes());
    b.extend_from_slice(&0u16.to_le_bytes());
    b.push(0);
    b.push(0);
    b.extend_from_slice(&1u32.to_le_bytes());
    b.extend_from_slice(&0u32.to_le_bytes());
    b.extend_from_slice(&[0u8; 24]);
    b.extend_from_slice(&tag.to_le_bytes());
    b.extend_from_slice(&rows.to_le_bytes());
    b.extend_from_slice(&columns.to_le_bytes());
    b.extend_from_slice(after);
    b
}

#[test]
fn oversized_facs_matrices_are_refused_before_decoding() {
    let raw = v5_mesh_with_matrix(1, 0x1_0000, 0x1_0000, &[]);
    assert!(mesh_matrix_overflows(&raw));
    match decode_mesh(&raw) {
        Err(MeshError::Decode(message)) => {
            assert_eq!(message, "version 5.00 FACS matrix size overflows u32")
        }
        other => panic!("unexpected {other:?}"),
    }
    let quantized = v5_mesh_with_matrix(2, 0x1_0000, 0x1_0000, &[0u8; 8]);
    assert!(mesh_matrix_overflows(&quantized));
    let quantized_without_bounds = v5_mesh_with_matrix(2, 0x1_0000, 0x1_0000, &[]);
    assert!(!mesh_matrix_overflows(&quantized_without_bounds));
    let small = v5_mesh_with_matrix(1, 2, 3, &[]);
    assert!(!mesh_matrix_overflows(&small));
    assert!(matches!(decode_mesh(&small), Err(MeshError::Decode(_))));
    let unknown_tag = v5_mesh_with_matrix(3, 0x1_0000, 0x1_0000, &[]);
    assert!(!mesh_matrix_overflows(&unknown_tag));
    assert!(!mesh_matrix_overflows(b"version 1.00\r\n0\r\n\r\n"));
}

#[test]
fn later_facs_matrices_are_checked_too() {
    let mut after = vec![0u8; 24];
    after.extend_from_slice(&1u16.to_le_bytes());
    after.extend_from_slice(&0xffff_ffffu32.to_le_bytes());
    after.extend_from_slice(&2u32.to_le_bytes());
    let second = v5_mesh_with_matrix(1, 2, 3, &after);
    assert!(mesh_matrix_overflows(&second));
}

#[test]
fn oversized_text_mesh_face_counts_are_refused_before_decoding() {
    let payload = b"version 1.00\n1431655766\nx";
    assert!(mesh_face_count_overflows(payload));
    match decode_mesh(payload) {
        Err(MeshError::Decode(message)) => assert_eq!(message, "version 1 mesh face count is too large"),
        other => panic!("unexpected {other:?}"),
    }
    assert!(mesh_face_count_overflows(b" version 1.01\r\n\t+1431655766 \r\n[0,0,0]"));
    assert!(mesh_face_count_overflows(b"version 1.00\n99999999999999999999\nx"));
    assert!(!mesh_face_count_overflows(b"version 1.00\n1431655766\n"));
    assert!(!mesh_face_count_overflows(b"version 1.00\n1431655766"));
    assert!(!mesh_face_count_overflows(b"version 2.00\n1431655766\nx"));
    assert!(!mesh_face_count_overflows(b"version 1.00\n-1431655766\nx"));
    assert!(!mesh_face_count_overflows(b"version 1.00\n14316x55766\nx"));
    assert!(!mesh_face_count_overflows(b"version 1.00\n+\nx"));
    assert!(!mesh_face_count_overflows(b"version 1.00\r\n1\r\n[0,0,0][0,1,0][0,0,0][1,0,0][0,1,0][1,0,0][0,0,1][0,1,0][0,1,1]\r\n"));
}

#[test]
fn the_largest_text_face_count_that_fits_is_not_refused() {
    let fits = b"version 1.00\n1431655765\nx";
    assert_eq!(mesh_face_count_overflows(fits), usize::BITS == 32);
}
