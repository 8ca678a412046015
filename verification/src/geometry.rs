//! Building primitive meshes face by face.
use vstd::prelude::*;
use crate::csg::{UnionMesh, UnionVertex, UnionMeshView, indices_in_range};

verus! {

/// A white vertex with the given attributes.
pub open spec fn white_vertex(position: [u32; 3], normal: [u32; 3], tex_coord: [u32; 2]) -> UnionVertex {
    UnionVertex { position, normal, tex_coord, color: [255u8, 255u8, 255u8, 255u8] }
}

/// Appends a quad: four white vertices sharing `normal`, and the two
/// triangles (0, 1, 2) and (0, 2, 3) over them.
pub fn add_face_with_uvs(
    mesh: &mut UnionMesh,
    positions: [[u32; 3]; 4],
    tex_coords: [[u32; 2]; 4],
    normal: [u32; 3],
)
    requires
        old(mesh).vertices@.len() + 4 <= u32::MAX,
    ensures
        ({
            let b = old(mesh).vertices@.len() as u32;
            &&& final(mesh).vertices@ == old(mesh).vertices@ + seq![
                white_vertex(positions[0], normal, tex_coords[0]),
                white_vertex(positions[1], normal, tex_coords[1]),
                white_vertex(positions[2], normal, tex_coords[2]),
                white_vertex(positions[3], normal, tex_coords[3]),
            ]
            &&& final(mesh).indices@ == old(mesh).indices@ + seq![
                b,
                (b + 1) as u32,
                (b + 2) as u32,
                b,
                (b + 2) as u32,
                (b + 3) as u32,
            ]
        }),
{
    let base = mesh.vertices.len() as u32;
    let mut i: usize = 0;
    while i < 4
        invariant
            0 <= i <= 4,
            mesh.vertices@ =~= old(mesh).vertices@ + Seq::new(
                i as nat,
                |k: int| white_vertex(positions[k], normal, tex_coords[k]),
            ),
            mesh.indices@ == old(mesh).indices@,
        decreases 4 - i,
    {
        mesh.vertices.push(UnionVertex { position: positions[i], normal, tex_coord: tex_coords[i], color: [255u8, 255u8, 255u8, 255u8] });
        i = i + 1;
    }
    mesh.indices.push(base);
    mesh.indices.push(base + 1);
    mesh.indices.push(base + 2);
    mesh.indices.push(base);
    mesh.indices.push(base + 2);
    mesh.indices.push(base + 3);
    assert(mesh.indices@ =~= old(mesh).indices@ + seq![base, (base + 1) as u32, (base + 2) as u32, base, (base + 2) as u32, (base + 3) as u32]);
}

/// Appends a triangle: three white vertices sharing `normal` and the
/// triangle over them.
pub fn add_triangle_with_uvs(
    mesh: &mut UnionMesh,
    positions: [[u32; 3]; 3],
    tex_coords: [[u32; 2]; 3],
    normal: [u32; 3],
)
    requires
        old(mesh).vertices@.len() + 3 <= u32::MAX,
    ensures
        ({
            let b = old(mesh).vertices@.len() as u32;
            &&& final(mesh).vertices@ == old(mesh).vertices@ + seq![
                white_vertex(positions[0], normal, tex_coords[0]),
                white_vertex(positions[1], normal, tex_coords[1]),
                white_vertex(positions[2], normal, tex_coords[2]),
            ]
            &&& final(mesh).indices@ == old(mesh).indices@ + seq![b, (b + 1) as u32, (b + 2) as u32]
        }),
{
    let base = mesh.vertices.len() as u32;
    let mut i: usize = 0;
    while i < 3
        invariant
            0 <= i <= 3,
            mesh.vertices@ =~= old(mesh).vertices@ + Seq::new(
                i as nat,
                |k: int| white_vertex(positions[k], normal, tex_coords[k]),
            ),
            mesh.indices@ == old(mesh).indices@,
        decreases 3 - i,
    {
        mesh.vertices.push(UnionVertex { position: positions[i], normal, tex_coord: tex_coords[i], color: [255u8, 255u8, 255u8, 255u8] });
        i = i + 1;
    }
    mesh.indices.push(base);
    mesh.indices.push(base + 1);
    mesh.indices.push(base + 2);
    assert(mesh.indices@ =~= old(mesh).indices@ + seq![base, (base + 1) as u32, (base + 2) as u32]);
}

/// A mesh built from faces and triangles is well formed: whole triangles
/// whose indices all name its vertices.
pub open spec fn well_built(m: UnionMeshView) -> bool {
    m.indices.len() % 3 == 0 && indices_in_range(m)
}

/// Adding a quad or a triangle to a well-built mesh keeps it well built.
pub proof fn lemma_faces_keep_mesh_well_built(
    before: UnionMeshView,
    added_vertices: Seq<UnionVertex>,
    added_indices: Seq<u32>,
)
    requires
        well_built(before),
        before.vertices.len() + added_vertices.len() <= u32::MAX,
        added_vertices.len() == 4 || added_vertices.len() == 3,
        added_vertices.len() == 4 ==> added_indices == seq![
            before.vertices.len() as u32,
            (before.vertices.len() + 1) as u32,
            (before.vertices.len() + 2) as u32,
            before.vertices.len() as u32,
            (before.vertices.len() + 2) as u32,
            (before.vertices.len() + 3) as u32,
        ],
        added_vertices.len() == 3 ==> added_indices == seq![
            before.vertices.len() as u32,
            (before.vertices.len() + 1) as u32,
            (before.vertices.len() + 2) as u32,
        ],
    ensures
        well_built(
            UnionMeshView {
                vertices: before.vertices + added_vertices,
                indices: before.indices + added_indices,
            },
        ),
{
    let after = UnionMeshView {
        vertices: before.vertices + added_vertices,
        indices: before.indices + added_indices,
    };
    assert forall|i: int| 0 <= i < after.indices.len() implies (#[trigger] after.indices[i]) < after.vertices.len() by {
        if i < before.indices.len() {
            assert(after.indices[i] == before.indices[i]);
        }
    }
}

} // verus!
