//! Decoded triangle meshes, their on-disk cache format, and the decoders for
//! Roblox union and mesh payloads.
use vstd::prelude::*;
use crate::bytes::{le32, le32_bytes, push_le32, read_le32, lemma_le32_at, lemma_le32_bytes_of_read};
use crate::text::{decimal, append_decimal};

verus! {

/// One vertex of a decoded mesh. The floating-point attributes (position,
/// normal and texture coordinate) are held as IEEE-754 `f32` bit patterns.
#[derive(Clone, Copy, Debug, PartialEq, Eq)]
pub struct UnionVertex {
    pub position: [u32; 3],
    pub normal: [u32; 3],
    pub tex_coord: [u32; 2],
    pub color: [u8; 4],
}

/// A triangle mesh: a vertex list and a flat list of triangle corner indices.
#[derive(Clone, Debug, PartialEq, Eq)]
pub struct UnionMesh {
    pub vertices: Vec<UnionVertex>,
    pub indices: Vec<u32>,
}

/// The mathematical content of a [`UnionMesh`].
pub struct UnionMeshView {
    pub vertices: Seq<UnionVertex>,
    pub indices: Seq<u32>,
}

impl View for UnionMesh {
    type V = UnionMeshView;

    open spec fn view(&self) -> UnionMeshView {
        UnionMeshView { vertices: self.vertices@, indices: self.indices@ }
    }
}

/// A mesh has triangle geometry when it has vertices and a non-empty index
/// list made of whole triangles.
pub open spec fn has_triangle_geometry(m: UnionMeshView) -> bool {
    &&& m.vertices.len() > 0
    &&& m.indices.len() > 0
    &&& m.indices.len() % 3 == 0
}

/// The position of the first index in `idx` that is not below `n`, or
/// `idx.len()` when every index is below `n`.
pub open spec fn first_out_of_range(idx: Seq<u32>, n: nat) -> int
    decreases idx.len(),
{
    if idx.len() == 0 {
        0
    } else if first_out_of_range(idx.drop_last(), n) < idx.len() - 1 {
        first_out_of_range(idx.drop_last(), n)
    } else if idx.last() >= n {
        idx.len() - 1
    } else {
        idx.len() as int
    }
}

/// Every index of the mesh names one of its vertices.
pub open spec fn indices_in_range(m: UnionMeshView) -> bool {
    forall|i: int| 0 <= i < m.indices.len() ==> (#[trigger] m.indices[i]) < m.vertices.len()
}

/// A mesh that the cache accepts: triangle geometry whose indices all name
/// vertices.
pub open spec fn valid_mesh(m: UnionMeshView) -> bool {
    has_triangle_geometry(m) && indices_in_range(m)
}

pub proof fn lemma_first_out_of_range(idx: Seq<u32>, n: nat)
    ensures
        0 <= first_out_of_range(idx, n) <= idx.len(),
        forall|j: int| 0 <= j < first_out_of_range(idx, n) ==> (#[trigger] idx[j]) < n,
        first_out_of_range(idx, n) < idx.len() ==> idx[first_out_of_range(idx, n)] >= n,
    decreases idx.len(),
{
    if idx.len() > 0 {
        lemma_first_out_of_range(idx.drop_last(), n);
        assert forall|j: int| 0 <= j < first_out_of_range(idx, n) implies (#[trigger] idx[j]) < n by {
            if j < idx.len() - 1 {
                assert(idx[j] == idx.drop_last()[j]);
            }
        }
    }
}

/// The message for a mesh whose index `index` is out of range for
/// `vertex_count` vertices.
pub open spec fn cached_index_message(index: u32, vertex_count: nat) -> Seq<char> {
    "cached mesh references vertex index "@ + decimal(index as nat) + ", but has "@
        + decimal(vertex_count) + " vertices"@
}

/// What is wrong with a mesh that is not valid.
#[derive(Clone, Copy, Debug, PartialEq, Eq)]
pub enum MeshFault {
    /// No vertices, no indices, or an index count that is not a multiple of three.
    NoGeometry,
    /// The first index, in list order, that names no vertex.
    InvalidIndex(u32),
}

/// The fault of a mesh, or `None` when the mesh is valid.
pub open spec fn mesh_fault(m: UnionMeshView) -> Option<MeshFault> {
    if !has_triangle_geometry(m) {
        Some(MeshFault::NoGeometry)
    } else if first_out_of_range(m.indices, m.vertices.len()) < m.indices.len() {
        Some(MeshFault::InvalidIndex(m.indices[first_out_of_range(m.indices, m.vertices.len())]))
    } else {
        None
    }
}

/// A mesh has no fault exactly when it is valid.
pub proof fn lemma_mesh_fault_valid(m: UnionMeshView)
    ensures
        mesh_fault(m) is None <==> valid_mesh(m),
{
    lemma_first_out_of_range(m.indices, m.vertices.len());
}

/// Finds the fault of a mesh: missing triangle geometry, or the first index
/// that names no vertex.
pub fn check_mesh(mesh: &UnionMesh) -> (r: Option<MeshFault>)
    ensures
        r == mesh_fault(mesh@),
        r is None <==> valid_mesh(mesh@),
{
    proof { lemma_first_out_of_range(mesh.indices@, mesh.vertices@.len()); }
    if mesh.vertices.len() == 0 || mesh.indices.len() == 0 || mesh.indices.len() % 3 != 0 {
        return Some(MeshFault::NoGeometry);
    }
    let n = mesh.vertices.len();
    let mut i: usize = 0;
    while i < mesh.indices.len()
        invariant
            n == mesh.vertices@.len(),
            has_triangle_geometry(mesh@),
            0 <= i <= mesh.indices@.len(),
            first_out_of_range(mesh.indices@.take(i as int), n as nat) == i,
        decreases mesh.indices@.len() - i,
    {
        let index = mesh.indices[i];
        assert(mesh.indices@.take(i + 1).drop_last() =~= mesh.indices@.take(i as int));
        if (index as usize) >= n {
            assert(first_out_of_range(mesh.indices@.take(i + 1), n as nat) == i);
            proof { lemma_prefix_first_out_of_range(mesh.indices@, n as nat, i as int + 1); }
            return Some(MeshFault::InvalidIndex(index));
        }
        i = i + 1;
    }
    assert(mesh.indices@.take(i as int) =~= mesh.indices@);
    None
}

/// The outcome of checking a decoded cache entry.
pub open spec fn cached_mesh_check(m: UnionMeshView) -> Result<(), Seq<char>> {
    match mesh_fault(m) {
        None => Ok(()),
        Some(MeshFault::NoGeometry) => Err("cached mesh contains no triangle geometry"@),
        Some(MeshFault::InvalidIndex(index)) => Err(cached_index_message(index, m.vertices.len())),
    }
}

/// Checks that a mesh read from the cache holds triangle geometry whose
/// indices all name vertices.
pub fn validate_cached_mesh(mesh: &UnionMesh) -> (r: Result<(), String>)
    ensures
        r is Ok ==> cached_mesh_check(mesh@) is Ok,
        r matches Err(e) ==> cached_mesh_check(mesh@) == Err::<(), Seq<char>>(e@),
        r is Ok <==> valid_mesh(mesh@),
{
    match check_mesh(mesh) {
        None => Ok(()),
        Some(MeshFault::NoGeometry) => Err("cached mesh contains no triangle geometry".to_owned()),
        Some(MeshFault::InvalidIndex(index)) => {
            let mut e = "cached mesh references vertex index ".to_owned();
            append_decimal(&mut e, index as u64);
            e.append(", but has ");
            append_decimal(&mut e, mesh.vertices.len() as u64);
            e.append(" vertices");
            assert(e@ =~= cached_index_message(index, mesh.vertices@.len()));
            Err(e)
        },
    }
}

/// Once a prefix holds an out-of-range index, the whole sequence reports
/// the same position.
pub proof fn lemma_prefix_first_out_of_range(idx: Seq<u32>, n: nat, k: int)
    requires
        0 <= k <= idx.len(),
        first_out_of_range(idx.take(k), n) < k,
    ensures
        first_out_of_range(idx, n) == first_out_of_range(idx.take(k), n),
    decreases idx.len() - k,
{
    if k < idx.len() {
        assert(idx.take(k + 1).drop_last() =~= idx.take(k));
        lemma_prefix_first_out_of_range(idx, n, k + 1);
    } else {
        assert(idx.take(k) =~= idx);
    }
}

/// The first bytes of every cache entry: `ROFMESH1`.
pub open spec fn cached_magic() -> Seq<u8> {
    seq![0x52u8, 0x4fu8, 0x46u8, 0x4du8, 0x45u8, 0x53u8, 0x48u8, 0x31u8]
}

/// The 36 bytes that encode one vertex: eight little-endian 32-bit words
/// (position, normal, texture coordinate) followed by the four color bytes.
pub open spec fn vertex_bytes(v: UnionVertex) -> Seq<u8> {
    le32_bytes(v.position[0]) + le32_bytes(v.position[1]) + le32_bytes(v.position[2])
        + le32_bytes(v.normal[0]) + le32_bytes(v.normal[1]) + le32_bytes(v.normal[2])
        + le32_bytes(v.tex_coord[0]) + le32_bytes(v.tex_coord[1])
        + seq![v.color[0], v.color[1], v.color[2], v.color[3]]
}

/// The encodings of `vs`, one after another.
pub open spec fn vertices_bytes(vs: Seq<UnionVertex>) -> Seq<u8>
    decreases vs.len(),
{
    if vs.len() == 0 {
        Seq::empty()
    } else {
        vertices_bytes(vs.drop_last()) + vertex_bytes(vs.last())
    }
}

/// The little-endian encodings of `idx`, one after another.
pub open spec fn indices_bytes(idx: Seq<u32>) -> Seq<u8>
    decreases idx.len(),
{
    if idx.len() == 0 {
        Seq::empty()
    } else {
        indices_bytes(idx.drop_last()) + le32_bytes(idx.last())
    }
}

/// The cache entry of a mesh: magic, vertex count, index count, vertices,
/// indices.
pub open spec fn cached_mesh_bytes(m: UnionMeshView) -> Seq<u8> {
    cached_magic() + le32_bytes(m.vertices.len() as u32) + le32_bytes(m.indices.len() as u32)
        + vertices_bytes(m.vertices) + indices_bytes(m.indices)
}

/// The length of the cache entry of a mesh with `vc` vertices and `ic`
/// indices.
pub open spec fn cached_length(vc: int, ic: int) -> int {
    16 + 36 * vc + 4 * ic
}

/// A mesh can be cached when both counts fit in 32 bits and the entry's
/// length fits in memory.
pub open spec fn cache_encodable(m: UnionMeshView) -> bool {
    &&& m.vertices.len() <= u32::MAX
    &&& m.indices.len() <= u32::MAX
    &&& cached_length(m.vertices.len() as int, m.indices.len() as int) <= usize::MAX
}

/// The message with which encoding refuses a mesh that cannot be cached.
pub open spec fn cache_encode_error(m: UnionMeshView) -> Seq<char> {
    if m.vertices.len() > u32::MAX {
        "decoded mesh has too many vertices to cache"@
    } else if m.indices.len() > u32::MAX {
        "decoded mesh has too many indices to cache"@
    } else {
        "decoded mesh cache is too large"@
    }
}

fn push_vertex(out: &mut Vec<u8>, v: &UnionVertex)
    ensures
        final(out)@ == old(out)@ + vertex_bytes(*v),
{
    push_le32(out, v.position[0]);
    push_le32(out, v.position[1]);
    push_le32(out, v.position[2]);
    push_le32(out, v.normal[0]);
    push_le32(out, v.normal[1]);
    push_le32(out, v.normal[2]);
    push_le32(out, v.tex_coord[0]);
    push_le32(out, v.tex_coord[1]);
    out.push(v.color[0]);
    out.push(v.color[1]);
    out.push(v.color[2]);
    out.push(v.color[3]);
    assert(final(out)@ =~= old(out)@ + vertex_bytes(*v));
}

/// Encodes a mesh as a cache entry.
pub fn encode_cached_mesh(mesh: &UnionMesh) -> (r: Result<Vec<u8>, String>)
    ensures
        r is Ok <==> cache_encodable(mesh@),
        r matches Ok(b) ==> b@ == cached_mesh_bytes(mesh@),
        r matches Err(e) ==> e@ == cache_encode_error(mesh@),
{
    let vc = mesh.vertices.len();
    let ic = mesh.indices.len();
    if vc > 0xffff_ffffusize {
        return Err("decoded mesh has too many vertices to cache".to_owned());
    }
    if ic > 0xffff_ffffusize {
        return Err("decoded mesh has too many indices to cache".to_owned());
    }
    let vertex_bytes_len = match vc.checked_mul(36) {
        Some(n) => n,
        None => return Err("decoded mesh cache is too large".to_owned()),
    };
    let index_bytes_len = match ic.checked_mul(4) {
        Some(n) => n,
        None => return Err("decoded mesh cache is too large".to_owned()),
    };
    let capacity = match 16usize.checked_add(vertex_bytes_len) {
        Some(n) => match n.checked_add(index_bytes_len) {
            Some(m) => m,
            None => return Err("decoded mesh cache is too large".to_owned()),
        },
        None => return Err("decoded mesh cache is too large".to_owned()),
    };
    let mut bytes: Vec<u8> = Vec::with_capacity(capacity);
    bytes.push(0x52u8);
    bytes.push(0x4fu8);
    bytes.push(0x46u8);
    bytes.push(0x4du8);
    bytes.push(0x45u8);
    bytes.push(0x53u8);
    bytes.push(0x48u8);
    bytes.push(0x31u8);
    assert(bytes@ =~= cached_magic());
    push_le32(&mut bytes, vc as u32);
    push_le32(&mut bytes, ic as u32);
    let ghost header = bytes@;
    let mut i: usize = 0;
    while i < vc
        invariant
            vc == mesh.vertices@.len(),
            0 <= i <= vc,
            bytes@ == header + vertices_bytes(mesh.vertices@.take(i as int)),
        decreases vc - i,
    {
        push_vertex(&mut bytes, &mesh.vertices[i]);
        assert(mesh.vertices@.take(i + 1).drop_last() =~= mesh.vertices@.take(i as int));
        assert(bytes@ =~= header + vertices_bytes(mesh.vertices@.take(i + 1)));
        i = i + 1;
    }
    assert(mesh.vertices@.take(vc as int) =~= mesh.vertices@);
    let ghost body = bytes@;
    let mut j: usize = 0;
    while j < ic
        invariant
            ic == mesh.indices@.len(),
            0 <= j <= ic,
            bytes@ == body + indices_bytes(mesh.indices@.take(j as int)),
        decreases ic - j,
    {
        push_le32(&mut bytes, mesh.indices[j]);
        assert(mesh.indices@.take(j + 1).drop_last() =~= mesh.indices@.take(j as int));
        assert(bytes@ =~= body + indices_bytes(mesh.indices@.take(j + 1)));
        j = j + 1;
    }
    assert(mesh.indices@.take(ic as int) =~= mesh.indices@);
    assert(bytes@ =~= cached_mesh_bytes(mesh@));
    Ok(bytes)
}

/// The vertex whose 36-byte encoding starts at `at` in `b`.
pub open spec fn cached_vertex_at(b: Seq<u8>, at: int) -> UnionVertex {
    UnionVertex {
        position: [le32(b, at), le32(b, at + 4), le32(b, at + 8)],
        normal: [le32(b, at + 12), le32(b, at + 16), le32(b, at + 20)],
        tex_coord: [le32(b, at + 24), le32(b, at + 28)],
        color: [b[at + 32], b[at + 33], b[at + 34], b[at + 35]],
    }
}

/// The mesh laid out in a cache entry `b` whose header announces `vc`
/// vertices and `ic` indices.
pub open spec fn cached_mesh_body(b: Seq<u8>, vc: int, ic: int) -> UnionMeshView {
    UnionMeshView {
        vertices: Seq::new(vc as nat, |i: int| cached_vertex_at(b, 16 + 36 * i)),
        indices: Seq::new(ic as nat, |j: int| le32(b, 16 + 36 * vc + 4 * j)),
    }
}

/// What decoding the cache entry `b` gives: the mesh it holds, or the
/// message with which it is refused.
pub open spec fn decode_cached_mesh_spec(b: Seq<u8>) -> Result<UnionMeshView, Seq<char>> {
    if b.len() < 8 || b.take(8) != cached_magic() {
        Err("cached mesh has an unsupported format"@)
    } else if b.len() < 16 {
        Err("cached mesh is truncated"@)
    } else {
        let vc = le32(b, 8) as int;
        let ic = le32(b, 12) as int;
        if cached_length(vc, ic) > usize::MAX {
            Err("cached mesh is too large"@)
        } else if b.len() != cached_length(vc, ic) {
            Err("cached mesh is truncated or has trailing data"@)
        } else {
            let m = cached_mesh_body(b, vc, ic);
            match cached_mesh_check(m) {
                Ok(()) => Ok(m),
                Err(e) => Err(e),
            }
        }
    }
}

/// Reads the little-endian `u32` at `*offset` and moves past it.
pub fn read_cached_u32(bytes: &[u8], offset: &mut usize) -> (r: Result<u32, String>)
    ensures
        *old(offset) + 4 > usize::MAX ==> (*final(offset) == *old(offset)
            && (r matches Err(e) && e@ == "cached mesh offset overflow"@)),
        *old(offset) + 4 <= usize::MAX && *old(offset) + 4 > bytes@.len() ==> (*final(offset)
            == *old(offset) && (r matches Err(e) && e@ == "cached mesh is truncated"@)),
        *old(offset) + 4 <= bytes@.len() ==> *final(offset) == *old(offset) + 4 && r == Ok::<
            u32,
            String,
        >(le32(bytes@, *old(offset) as int)),
{
    let len = bytes.len();
    let end = match offset.checked_add(4) {
        Some(end) => end,
        None => return Err("cached mesh offset overflow".to_owned()),
    };
    if end > len {
        return Err("cached mesh is truncated".to_owned());
    }
    let value = read_le32(bytes, *offset);
    *offset = end;
    Ok(value)
}

/// Reads the bit pattern of the little-endian `f32` at `*offset` and moves
/// past it.
pub fn read_cached_f32(bytes: &[u8], offset: &mut usize) -> (r: Result<u32, String>)
    ensures
        *old(offset) + 4 > usize::MAX ==> (*final(offset) == *old(offset)
            && (r matches Err(e) && e@ == "cached mesh offset overflow"@)),
        *old(offset) + 4 <= usize::MAX && *old(offset) + 4 > bytes@.len() ==> (*final(offset)
            == *old(offset) && (r matches Err(e) && e@ == "cached mesh is truncated"@)),
        *old(offset) + 4 <= bytes@.len() ==> *final(offset) == *old(offset) + 4 && r == Ok::<
            u32,
            String,
        >(le32(bytes@, *old(offset) as int)),
{
    read_cached_u32(bytes, offset)
}

/// Reads the four color bytes at `*offset` and moves past them.
pub fn read_cached_color(bytes: &[u8], offset: &mut usize) -> (r: Result<[u8; 4], String>)
    ensures
        *old(offset) + 4 > usize::MAX ==> (*final(offset) == *old(offset)
            && (r matches Err(e) && e@ == "cached mesh offset overflow"@)),
        *old(offset) + 4 <= usize::MAX && *old(offset) + 4 > bytes@.len() ==> (*final(offset)
            == *old(offset) && (r matches Err(e) && e@ == "cached mesh is truncated"@)),
        *old(offset) + 4 <= bytes@.len() ==> (*final(offset) == *old(offset) + 4 && (r matches Ok(
            c,
        ) && c == [
            bytes@[*old(offset) as int],
            bytes@[*old(offset) + 1],
            bytes@[*old(offset) + 2],
            bytes@[*old(offset) + 3],
        ])),
{
    let len = bytes.len();
    let end = match offset.checked_add(4) {
        Some(end) => end,
        None => return Err("cached mesh offset overflow".to_owned()),
    };
    if end > len {
        return Err("cached mesh is truncated".to_owned());
    }
    let at = *offset;
    let color = [bytes[at], bytes[at + 1], bytes[at + 2], bytes[at + 3]];
    *offset = end;
    Ok(color)
}

fn read_cached_vertex(bytes: &[u8], offset: &mut usize) -> (r: Result<UnionVertex, String>)
    requires
        *old(offset) + 36 <= bytes@.len(),
    ensures
        *final(offset) == *old(offset) + 36,
        r == Ok::<UnionVertex, String>(cached_vertex_at(bytes@, *old(offset) as int)),
{
    let p0 = read_cached_f32(bytes, offset)?;
    let p1 = read_cached_f32(bytes, offset)?;
    let p2 = read_cached_f32(bytes, offset)?;
    let n0 = read_cached_f32(bytes, offset)?;
    let n1 = read_cached_f32(bytes, offset)?;
    let n2 = read_cached_f32(bytes, offset)?;
    let t0 = read_cached_f32(bytes, offset)?;
    let t1 = read_cached_f32(bytes, offset)?;
    let color = read_cached_color(bytes, offset)?;
    Ok(UnionVertex { position: [p0, p1, p2], normal: [n0, n1, n2], tex_coord: [t0, t1], color })
}

/// Decodes a cache entry written by [`encode_cached_mesh`].
pub fn decode_cached_mesh(bytes: &[u8]) -> (r: Result<UnionMesh, String>)
    ensures
        r matches Ok(m) ==> decode_cached_mesh_spec(bytes@) == Ok::<UnionMeshView, Seq<char>>(m@),
        r matches Err(e) ==> decode_cached_mesh_spec(bytes@) == Err::<UnionMeshView, Seq<char>>(e@),
{
    if bytes.len() < 8 || bytes[0] != 0x52u8 || bytes[1] != 0x4fu8 || bytes[2] != 0x46u8
        || bytes[3] != 0x4du8 || bytes[4] != 0x45u8 || bytes[5] != 0x53u8 || bytes[6] != 0x48u8
        || bytes[7] != 0x31u8 {
        proof {
            if bytes@.len() >= 8 {
                assert(bytes@.take(8) != cached_magic()) by {
                    if bytes@.take(8) == cached_magic() {
                        assert(bytes@.take(8)[0] == bytes@[0]);
                        assert(bytes@.take(8)[1] == bytes@[1]);
                        assert(bytes@.take(8)[2] == bytes@[2]);
                        assert(bytes@.take(8)[3] == bytes@[3]);
                        assert(bytes@.take(8)[4] == bytes@[4]);
                        assert(bytes@.take(8)[5] == bytes@[5]);
                        assert(bytes@.take(8)[6] == bytes@[6]);
                        assert(bytes@.take(8)[7] == bytes@[7]);
                    }
                }
            }
        }
        return Err("cached mesh has an unsupported format".to_owned());
    }
    assert(bytes@.take(8) =~= cached_magic());
    let mut offset: usize = 8;
    let vertex_count = read_cached_u32(bytes, &mut offset)?;
    let index_count = read_cached_u32(bytes, &mut offset)?;
    let vc = vertex_count as usize;
    let ic = index_count as usize;
    let vertex_bytes_len = match vc.checked_mul(36) {
        Some(n) => n,
        None => return Err("cached mesh is too large".to_owned()),
    };
    let index_bytes_len = match ic.checked_mul(4) {
        Some(n) => n,
        None => return Err("cached mesh is too large".to_owned()),
    };
    let expected_length = match 16usize.checked_add(vertex_bytes_len) {
        Some(n) => match n.checked_add(index_bytes_len) {
            Some(m) => m,
            None => return Err("cached mesh is too large".to_owned()),
        },
        None => return Err("cached mesh is too large".to_owned()),
    };
    if bytes.len() != expected_length {
        return Err("cached mesh is truncated or has trailing data".to_owned());
    }
    let ghost body = cached_mesh_body(bytes@, vc as int, ic as int);
    let mut vertices: Vec<UnionVertex> = Vec::with_capacity(vc);
    let mut i: usize = 0;
    while i < vc
        invariant
            bytes@.len() == cached_length(vc as int, ic as int),
            body == cached_mesh_body(bytes@, vc as int, ic as int),
            0 <= i <= vc,
            offset == 16 + 36 * i,
            vertices@ =~= body.vertices.take(i as int),
        decreases vc - i,
    {
        let v = read_cached_vertex(bytes, &mut offset)?;
        vertices.push(v);
        i = i + 1;
    }
    let mut indices: Vec<u32> = Vec::with_capacity(ic);
    let mut j: usize = 0;
    while j < ic
        invariant
            bytes@.len() == cached_length(vc as int, ic as int),
            body == cached_mesh_body(bytes@, vc as int, ic as int),
            0 <= j <= ic,
            offset == 16 + 36 * vc + 4 * j,
            indices@ =~= body.indices.take(j as int),
        decreases ic - j,
    {
        let index = read_cached_u32(bytes, &mut offset)?;
        indices.push(index);
        j = j + 1;
    }
    let mesh = UnionMesh { vertices, indices };
    assert(mesh@.vertices =~= body.vertices);
    assert(mesh@.indices =~= body.indices);
    validate_cached_mesh(&mesh)?;
    Ok(mesh)
}

/// Each vertex's encoding sits at its place in the encodings of a vertex list.
pub proof fn lemma_vertices_bytes(vs: Seq<UnionVertex>)
    ensures
        vertices_bytes(vs).len() == 36 * vs.len(),
        forall|i: int|
            0 <= i < vs.len() ==> vertices_bytes(vs).subrange(36 * i, 36 * i + 36) == vertex_bytes(
                #[trigger] vs[i],
            ),
    decreases vs.len(),
{
    if vs.len() > 0 {
        lemma_vertices_bytes(vs.drop_last());
        let pre = vertices_bytes(vs.drop_last());
        assert forall|i: int| 0 <= i < vs.len() implies vertices_bytes(vs).subrange(
            36 * i,
            36 * i + 36,
        ) == vertex_bytes(#[trigger] vs[i]) by {
            if i < vs.len() - 1 {
                assert(vertices_bytes(vs).subrange(36 * i, 36 * i + 36) =~= pre.subrange(
                    36 * i,
                    36 * i + 36,
                ));
                assert(vs[i] == vs.drop_last()[i]);
            } else {
                assert(vertices_bytes(vs).subrange(36 * i, 36 * i + 36) =~= vertex_bytes(
                    vs.last(),
                ));
            }
        }
    }
}

/// Each index's encoding sits at its place in the encodings of an index list.
pub proof fn lemma_indices_bytes(idx: Seq<u32>)
    ensures
        indices_bytes(idx).len() == 4 * idx.len(),
        forall|j: int|
            0 <= j < idx.len() ==> indices_bytes(idx).subrange(4 * j, 4 * j + 4) == le32_bytes(
                #[trigger] idx[j],
            ),
    decreases idx.len(),
{
    if idx.len() > 0 {
        lemma_indices_bytes(idx.drop_last());
        let pre = indices_bytes(idx.drop_last());
        assert forall|j: int| 0 <= j < idx.len() implies indices_bytes(idx).subrange(
            4 * j,
            4 * j + 4,
        ) == le32_bytes(#[trigger] idx[j]) by {
            if j < idx.len() - 1 {
                assert(indices_bytes(idx).subrange(4 * j, 4 * j + 4) =~= pre.subrange(
                    4 * j,
                    4 * j + 4,
                ));
                assert(idx[j] == idx.drop_last()[j]);
            } else {
                assert(indices_bytes(idx).subrange(4 * j, 4 * j + 4) =~= le32_bytes(idx.last()));
            }
        }
    }
}

proof fn lemma_word_at(b: Seq<u8>, at: int, vb: Seq<u8>, w: int, v: u32)
    requires
        0 <= at,
        at + 36 <= b.len(),
        b.subrange(at, at + 36) == vb,
        0 <= w < 8,
        vb.subrange(4 * w, 4 * w + 4) == le32_bytes(v),
    ensures
        le32(b, at + 4 * w) == v,
{
    assert(b.subrange(at + 4 * w, at + 4 * w + 4) =~= vb.subrange(4 * w, 4 * w + 4));
    lemma_le32_at(b, at + 4 * w, v);
}

/// The 36 bytes of a vertex's encoding are read back as that vertex.
pub proof fn lemma_cached_vertex_at(b: Seq<u8>, at: int, v: UnionVertex)
    requires
        0 <= at,
        at + 36 <= b.len(),
        b.subrange(at, at + 36) == vertex_bytes(v),
    ensures
        cached_vertex_at(b, at) == v,
{
    let vb = vertex_bytes(v);
    assert(vb.subrange(0, 4) =~= le32_bytes(v.position[0]));
    assert(vb.subrange(4, 8) =~= le32_bytes(v.position[1]));
    assert(vb.subrange(8, 12) =~= le32_bytes(v.position[2]));
    assert(vb.subrange(12, 16) =~= le32_bytes(v.normal[0]));
    assert(vb.subrange(16, 20) =~= le32_bytes(v.normal[1]));
    assert(vb.subrange(20, 24) =~= le32_bytes(v.normal[2]));
    assert(vb.subrange(24, 28) =~= le32_bytes(v.tex_coord[0]));
    assert(vb.subrange(28, 32) =~= le32_bytes(v.tex_coord[1]));
    lemma_word_at(b, at, vb, 0, v.position[0]);
    lemma_word_at(b, at, vb, 1, v.position[1]);
    lemma_word_at(b, at, vb, 2, v.position[2]);
    lemma_word_at(b, at, vb, 3, v.normal[0]);
    lemma_word_at(b, at, vb, 4, v.normal[1]);
    lemma_word_at(b, at, vb, 5, v.normal[2]);
    lemma_word_at(b, at, vb, 6, v.tex_coord[0]);
    lemma_word_at(b, at, vb, 7, v.tex_coord[1]);
    assert(b[at + 32] == vb[32]);
    assert(b[at + 33] == vb[33]);
    assert(b[at + 34] == vb[34]);
    assert(b[at + 35] == vb[35]);
    let d = cached_vertex_at(b, at);
    assert(d.position =~= v.position);
    assert(d.normal =~= v.normal);
    assert(d.tex_coord =~= v.tex_coord);
    assert(d.color =~= v.color);
}

/// Decoding the cache entry of a mesh that the cache accepts gives that mesh
/// back.
pub proof fn lemma_cached_mesh_roundtrip(m: UnionMeshView)
    requires
        valid_mesh(m),
        cache_encodable(m),
    ensures
        decode_cached_mesh_spec(cached_mesh_bytes(m)) == Ok::<UnionMeshView, Seq<char>>(m),
{
    let b = cached_mesh_bytes(m);
    let vc = m.vertices.len() as int;
    let ic = m.indices.len() as int;
    let vb = vertices_bytes(m.vertices);
    let ib = indices_bytes(m.indices);
    lemma_vertices_bytes(m.vertices);
    lemma_indices_bytes(m.indices);
    assert(b.take(8) =~= cached_magic());
    assert(b.subrange(8, 12) =~= le32_bytes(vc as u32));
    assert(b.subrange(12, 16) =~= le32_bytes(ic as u32));
    lemma_le32_at(b, 8, vc as u32);
    lemma_le32_at(b, 12, ic as u32);
    assert(b.len() == cached_length(vc, ic));
    let body = cached_mesh_body(b, vc, ic);
    assert forall|i: int| 0 <= i < vc implies body.vertices[i] == m.vertices[i] by {
        assert(b.subrange(16 + 36 * i, 16 + 36 * i + 36) =~= vb.subrange(36 * i, 36 * i + 36));
        lemma_cached_vertex_at(b, 16 + 36 * i, m.vertices[i]);
    }
    assert forall|j: int| 0 <= j < ic implies body.indices[j] == m.indices[j] by {
        assert(b.subrange(16 + 36 * vc + 4 * j, 16 + 36 * vc + 4 * j + 4) =~= ib.subrange(
            4 * j,
            4 * j + 4,
        ));
        lemma_le32_at(b, 16 + 36 * vc + 4 * j, m.indices[j]);
    }
    assert(body.vertices =~= m.vertices);
    assert(body.indices =~= m.indices);
    lemma_mesh_fault_valid(m);
}

/// Encoding the vertex read from 36 bytes gives those bytes back.
pub proof fn lemma_vertex_bytes_of_read(b: Seq<u8>, at: int)
    requires
        0 <= at,
        at + 36 <= b.len(),
    ensures
        vertex_bytes(cached_vertex_at(b, at)) == b.subrange(at, at + 36),
{
    lemma_le32_bytes_of_read(b, at + 4 * 0);
    lemma_le32_bytes_of_read(b, at + 4 * 1);
    lemma_le32_bytes_of_read(b, at + 4 * 2);
    lemma_le32_bytes_of_read(b, at + 4 * 3);
    lemma_le32_bytes_of_read(b, at + 4 * 4);
    lemma_le32_bytes_of_read(b, at + 4 * 5);
    lemma_le32_bytes_of_read(b, at + 4 * 6);
    lemma_le32_bytes_of_read(b, at + 4 * 7);
    assert(vertex_bytes(cached_vertex_at(b, at)) =~= b.subrange(at, at + 36));
}

proof fn lemma_vertices_bytes_of_read(b: Seq<u8>, start: int, n: int)
    requires
        0 <= start,
        0 <= n,
        start + 36 * n <= b.len(),
    ensures
        vertices_bytes(Seq::new(n as nat, |i: int| cached_vertex_at(b, start + 36 * i)))
            == b.subrange(start, start + 36 * n),
    decreases n,
{
    let vs = Seq::new(n as nat, |i: int| cached_vertex_at(b, start + 36 * i));
    if n == 0 {
        assert(b.subrange(start, start) =~= Seq::<u8>::empty());
    } else {
        lemma_vertices_bytes_of_read(b, start, n - 1);
        assert(vs.drop_last() =~= Seq::new(
            (n - 1) as nat,
            |i: int| cached_vertex_at(b, start + 36 * i),
        ));
        lemma_vertex_bytes_of_read(b, start + 36 * (n - 1));
        assert(b.subrange(start, start + 36 * n) =~= b.subrange(start, start + 36 * (n - 1))
            + b.subrange(start + 36 * (n - 1), start + 36 * n));
    }
}

proof fn lemma_indices_bytes_of_read(b: Seq<u8>, start: int, n: int)
    requires
        0 <= start,
        0 <= n,
        start + 4 * n <= b.len(),
    ensures
        indices_bytes(Seq::new(n as nat, |j: int| le32(b, start + 4 * j))) == b.subrange(
            start,
            start + 4 * n,
        ),
    decreases n,
{
    let idx = Seq::new(n as nat, |j: int| le32(b, start + 4 * j));
    if n == 0 {
        assert(b.subrange(start, start) =~= Seq::<u8>::empty());
    } else {
        lemma_indices_bytes_of_read(b, start, n - 1);
        assert(idx.drop_last() =~= Seq::new((n - 1) as nat, |j: int| le32(b, start + 4 * j)));
        lemma_le32_bytes_of_read(b, start + 4 * (n - 1));
        assert(b.subrange(start, start + 4 * n) =~= b.subrange(start, start + 4 * (n - 1))
            + b.subrange(start + 4 * (n - 1), start + 4 * n));
    }
}

/// The cache format is canonical: a cache entry that decodes to a mesh is
/// exactly the entry that encoding writes for that mesh.
pub proof fn lemma_cached_mesh_canonical(b: Seq<u8>)
    requires
        decode_cached_mesh_spec(b) is Ok,
    ensures
        cache_encodable(decode_cached_mesh_spec(b)->Ok_0),
        cached_mesh_bytes(decode_cached_mesh_spec(b)->Ok_0) == b,
{
    let vc = le32(b, 8) as int;
    let ic = le32(b, 12) as int;
    let m = cached_mesh_body(b, vc, ic);
    lemma_le32_bytes_of_read(b, 8);
    lemma_le32_bytes_of_read(b, 12);
    lemma_vertices_bytes_of_read(b, 16, vc);
    lemma_indices_bytes_of_read(b, 16 + 36 * vc, ic);
    assert(b =~= b.take(8) + b.subrange(8, 12) + b.subrange(12, 16) + b.subrange(16, 16 + 36 * vc)
        + b.subrange(16 + 36 * vc, 16 + 36 * vc + 4 * ic));
    assert(cached_mesh_bytes(m) =~= b);
}

} // verus!
