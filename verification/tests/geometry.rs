use roform::csg::{UnionMesh, UnionVertex};
use roform::geometry::{add_face_with_uvs, add_triangle_with_uvs};

fn bits(v: [f32; 3]) -> [u32; 3] {
    [v[0].to_bits(), v[1].to_bits(), v[2].to_bits()]
}

fn uv(v: [f32; 2]) -> [u32; 2] {
    [v[0].to_bits(), v[1].to_bits()]
}

#[test]
fn faces_add_four_white_vertices_and_two_triangles() {
    let mut mesh = UnionMesh { vertices: Vec::new(), indices: Vec::new() };
    add_triangle_with_uvs(
        &mut mesh,
        [bits([0.0, 0.0, 0.0]), bits([1.0, 0.0, 0.0]), bits([0.0, 1.0, 0.0])],
        [uv([0.0, 0.0]), uv([1.0, 0.0]), uv([0.5, 1.0])],
        bits([0.0, 0.0, 1.0]),
    );
    add_face_with_uvs(
        &mut mesh,
        [bits([0.0, 0.0, 1.0]), bits([1.0, 0.0, 1.0]), bits([1.0, 1.0, 1.0]), bits([0.0, 1.0, 1.0])],
        [uv([0.0, 0.0]), uv([1.0, 0.0]), uv([1.0, 1.0]), uv([0.0, 1.0])],
        bits([0.0, 0.0, 1.0]),
    );
    assert_eq!(mesh.vertices.len(), 7);
    assert_eq!(mesh.indices, vec![0, 1, 2, 3, 4, 5, 3, 5, 6]);
    assert_eq!(
        mesh.vertices[5],
        UnionVertex {
            position: bits([1.0, 1.0, 1.0]),
            normal: bits([0.0, 0.0, 1.0]),
            tex_coord: uv([1.0, 1.0]),
            color: [255; 4],
        }
    );
}
