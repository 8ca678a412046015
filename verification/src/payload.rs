//! Recognising and decoding Roblox union (`CSGMDL`) and mesh payloads.
use vstd::prelude::*;
use crate::csg::{
    UnionVertex, UnionMesh, UnionMeshView, MeshFault, mesh_fault, check_mesh, valid_mesh,
    lemma_mesh_fault_valid,
};
use crate::text::{decimal, append_decimal};
use crate::bytes::{le16_bytes, le32_bytes, push_le16, push_le32};
use rbx_mesh::read_union_graphics_versioned;
use rbx_mesh::union_graphics::UnionGraphics;
use rbx_mesh::read_mesh_versioned;
use rbx_mesh::mesh::Mesh;
use std::io::Cursor;

verus! {

/// `b` begins with `p`.
pub open spec fn starts_with(b: Seq<u8>, p: Seq<u8>) -> bool {
    b.len() >= p.len() && b.take(p.len() as int) == p
}

/// Whether `bytes` begins with `prefix`.
pub fn bytes_start_with(bytes: &[u8], prefix: &[u8]) -> (r: bool)
    ensures
        r == starts_with(bytes@, prefix@),
{
    if bytes.len() < prefix.len() {
        return false;
    }
    let mut i: usize = 0;
    while i < prefix.len()
        invariant
            bytes@.len() >= prefix@.len(),
            0 <= i <= prefix@.len(),
            bytes@.take(i as int) == prefix@.take(i as int),
        decreases prefix@.len() - i,
    {
        if bytes[i] != prefix[i] {
            assert(bytes@.take(prefix@.len() as int)[i as int] != prefix@[i as int]);
            return false;
        }
        assert(bytes@.take(i + 1) =~= bytes@.take(i as int).push(bytes@[i as int]));
        assert(prefix@.take(i + 1) =~= prefix@.take(i as int).push(prefix@[i as int]));
        i = i + 1;
    }
    assert(prefix@.take(prefix@.len() as int) =~= prefix@);
    true
}

/// The header `CSGK` of a union payload that holds no mesh.
pub open spec fn csgk_magic() -> Seq<u8> {
    seq![0x43u8, 0x53u8, 0x47u8, 0x4bu8]
}

/// The obfuscated ten-byte header of a `CSGMDL` union payload of the given
/// version digit.
pub open spec fn csgmdl_magic(digit: u8) -> Seq<u8> {
    seq![0x15u8, 0x7du8, 0x29u8, 0x15u8, 0x75u8, 0x6cu8, digit, 0x04u8, 0x34u8, 0x69u8]
}

/// The kinds of payload that a header announces.
#[derive(Clone, Copy, Debug, PartialEq, Eq)]
pub enum PayloadHeader {
    Csgk,
    Csgmdl2,
    Csgmdl4,
    Csgmdl5,
    Unknown,
}

impl PayloadHeader {
    /// The name under which the header is reported.
    pub open spec fn spec_name(self) -> Seq<char> {
        match self {
            PayloadHeader::Csgk => "CSGK"@,
            PayloadHeader::Csgmdl2 => "CSGMDL2"@,
            PayloadHeader::Csgmdl4 => "CSGMDL4"@,
            PayloadHeader::Csgmdl5 => "CSGMDL5"@,
            PayloadHeader::Unknown => "unknown"@,
        }
    }

    /// The name under which the header is reported.
    pub fn name(&self) -> (r: String)
        ensures
            r@ == self.spec_name(),
    {
        match self {
            PayloadHeader::Csgk => "CSGK".to_owned(),
            PayloadHeader::Csgmdl2 => "CSGMDL2".to_owned(),
            PayloadHeader::Csgmdl4 => "CSGMDL4".to_owned(),
            PayloadHeader::Csgmdl5 => "CSGMDL5".to_owned(),
            PayloadHeader::Unknown => "unknown".to_owned(),
        }
    }

    /// The header announces a union payload (`CSGK` or a `CSGMDL` version).
    pub open spec fn spec_is_union(self) -> bool {
        !(self is Unknown)
    }
}

/// The header that a payload begins with; the checks are made in the order
/// `CSGK`, `CSGMDL2`, `CSGMDL4`, `CSGMDL5`.
pub open spec fn payload_header_spec(b: Seq<u8>) -> PayloadHeader {
    if starts_with(b, csgk_magic()) {
        PayloadHeader::Csgk
    } else if starts_with(b, csgmdl_magic(0x32u8)) {
        PayloadHeader::Csgmdl2
    } else if starts_with(b, csgmdl_magic(0x34u8)) {
        PayloadHeader::Csgmdl4
    } else if starts_with(b, csgmdl_magic(0x35u8)) {
        PayloadHeader::Csgmdl5
    } else {
        PayloadHeader::Unknown
    }
}

fn starts_with_csgmdl(bytes: &[u8], digit: u8) -> (r: bool)
    ensures
        r == starts_with(bytes@, csgmdl_magic(digit)),
{
    let magic = [0x15u8, 0x7du8, 0x29u8, 0x15u8, 0x75u8, 0x6cu8, digit, 0x04u8, 0x34u8, 0x69u8];
    assert(magic@ =~= csgmdl_magic(digit));
    bytes_start_with(bytes, &magic)
}

/// Recognises the header of a payload.
pub fn payload_header(bytes: &[u8]) -> (r: PayloadHeader)
    ensures
        r == payload_header_spec(bytes@),
{
    let csgk = [0x43u8, 0x53u8, 0x47u8, 0x4bu8];
    assert(csgk@ =~= csgk_magic());
    if bytes_start_with(bytes, &csgk) {
        PayloadHeader::Csgk
    } else if starts_with_csgmdl(bytes, 0x32u8) {
        PayloadHeader::Csgmdl2
    } else if starts_with_csgmdl(bytes, 0x34u8) {
        PayloadHeader::Csgmdl4
    } else if starts_with_csgmdl(bytes, 0x35u8) {
        PayloadHeader::Csgmdl5
    } else {
        PayloadHeader::Unknown
    }
}

/// The name of the payload format that `bytes` begins with: `CSGK`,
/// `CSGMDL2`, `CSGMDL4`, `CSGMDL5`, or `unknown`.
pub fn payload_version(bytes: &[u8]) -> (r: String)
    ensures
        r@ == payload_header_spec(bytes@).spec_name(),
{
    payload_header(bytes).name()
}

/// The white opaque color given to vertices that carry none.
pub open spec fn default_color() -> [u8; 4] {
    [255u8, 255u8, 255u8, 255u8]
}

/// The bits of the normal `(0, 1, 0)` given to union vertices that carry none.
pub open spec fn default_normal() -> [u32; 3] {
    [0u32, 0x3f80_0000u32, 0u32]
}

/// The bits of the texture coordinate `(0, 0)` given to union vertices that
/// carry none.
pub open spec fn default_tex_coord() -> [u32; 2] {
    [0u32, 0u32]
}

/// A union payload as the decoder reads it, with floating-point attributes
/// as IEEE-754 bits.
pub enum RawUnionGraphics {
    /// A `CSGK` payload, which holds no geometry.
    Csgk,
    /// A `CSGMDL2` or `CSGMDL4` payload: full vertices and triangles.
    Indexed { vertices: Vec<UnionVertex>, faces: Vec<[u32; 3]> },
    /// A `CSGMDL5` payload: per-attribute lists and a flat index list.
    Attributes {
        positions: Vec<[u32; 3]>,
        normals: Vec<[u32; 3]>,
        tex_coords: Vec<[u32; 2]>,
        colors: Vec<[u8; 4]>,
        indices: Vec<u32>,
    },
}

/// The mathematical content of a [`RawUnionGraphics`].
pub enum RawUnionGraphicsView {
    Csgk,
    Indexed { vertices: Seq<UnionVertex>, faces: Seq<[u32; 3]> },
    Attributes {
        positions: Seq<[u32; 3]>,
        normals: Seq<[u32; 3]>,
        tex_coords: Seq<[u32; 2]>,
        colors: Seq<[u8; 4]>,
        indices: Seq<u32>,
    },
}

impl View for RawUnionGraphics {
    type V = RawUnionGraphicsView;

    open spec fn view(&self) -> RawUnionGraphicsView {
        match self {
            RawUnionGraphics::Csgk => RawUnionGraphicsView::Csgk,
            RawUnionGraphics::Indexed { vertices, faces } => RawUnionGraphicsView::Indexed {
                vertices: vertices@,
                faces: faces@,
            },
            RawUnionGraphics::Attributes { positions, normals, tex_coords, colors, indices } =>
                RawUnionGraphicsView::Attributes {
                positions: positions@,
                normals: normals@,
                tex_coords: tex_coords@,
                colors: colors@,
                indices: indices@,
            },
        }
    }
}

/// The corners of `faces`, triangle after triangle.
pub open spec fn flatten_faces(faces: Seq<[u32; 3]>) -> Seq<u32>
    decreases faces.len(),
{
    if faces.len() == 0 {
        Seq::empty()
    } else {
        flatten_faces(faces.drop_last()) + seq![faces.last()[0], faces.last()[1], faces.last()[2]]
    }
}

/// The vertex `i` of a `CSGMDL5` payload: its position, and its normal,
/// texture coordinate and color where the payload has them, defaults
/// otherwise.
pub open spec fn attribute_vertex(
    positions: Seq<[u32; 3]>,
    normals: Seq<[u32; 3]>,
    tex_coords: Seq<[u32; 2]>,
    colors: Seq<[u8; 4]>,
    i: int,
) -> UnionVertex {
    UnionVertex {
        position: positions[i],
        normal: if i < normals.len() { normals[i] } else { default_normal() },
        tex_coord: if i < tex_coords.len() { tex_coords[i] } else { default_tex_coord() },
        color: if i < colors.len() { colors[i] } else { default_color() },
    }
}

/// The mesh a union payload describes, or `None` for `CSGK`.
pub open spec fn union_graphics_mesh(g: RawUnionGraphicsView) -> Option<UnionMeshView> {
    match g {
        RawUnionGraphicsView::Csgk => None,
        RawUnionGraphicsView::Indexed { vertices, faces } => Some(
            UnionMeshView { vertices, indices: flatten_faces(faces) },
        ),
        RawUnionGraphicsView::Attributes { positions, normals, tex_coords, colors, indices } =>
            Some(
            UnionMeshView {
                vertices: Seq::new(
                    positions.len(),
                    |i: int| attribute_vertex(positions, normals, tex_coords, colors, i),
                ),
                indices,
            },
        ),
    }
}

/// A `CSGMDL5` union keeps every attribute of every vertex: the mesh it
/// decodes to has one vertex per position, and vertex `i` has position `i`,
/// and normal, texture coordinate and color `i` wherever the payload
/// carries them (an opaque white where it carries no color); its corners
/// are the payload's indices.
pub proof fn lemma_attribute_union_keeps_attributes(
    positions: Seq<[u32; 3]>,
    normals: Seq<[u32; 3]>,
    tex_coords: Seq<[u32; 2]>,
    colors: Seq<[u8; 4]>,
    indices: Seq<u32>,
)
    ensures
        ({
            let g = RawUnionGraphicsView::Attributes { positions, normals, tex_coords, colors, indices };
            &&& union_graphics_mesh(g) is Some
            &&& union_graphics_mesh(g)->Some_0.vertices.len() == positions.len()
            &&& union_graphics_mesh(g)->Some_0.indices == indices
            &&& forall|i: int| 0 <= i < positions.len() ==> {
                let v = #[trigger] union_graphics_mesh(g)->Some_0.vertices[i];
                &&& v.position == positions[i]
                &&& (i < normals.len() ==> v.normal == normals[i])
                &&& (i < tex_coords.len() ==> v.tex_coord == tex_coords[i])
                &&& (i < colors.len() ==> v.color == colors[i])
                &&& (i >= colors.len() ==> v.color == [255u8, 255u8, 255u8, 255u8])
            }
        }),
{
}

/// Decoding a union payload keeps the colors it carries: when the decoder
/// reads a `CSGMDL5` payload and the union decodes, vertex `i` of the mesh
/// has the payload's color `i`, and every attribute the payload has for it.
pub proof fn lemma_decoded_union_keeps_colors(bytes: Seq<u8>, m: UnionMeshView)
    requires
        decode_union_graphics_spec(bytes) == Ok::<UnionMeshView, CsgErrorView>(m),
        decoded_union_graphics(bytes) is Ok,
        decoded_union_graphics(bytes)->Ok_0 is Attributes,
    ensures
        ({
            let g = decoded_union_graphics(bytes)->Ok_0;
            &&& m.vertices.len() == g->positions.len()
            &&& m.indices == g->indices
            &&& forall|i: int| 0 <= i < m.vertices.len() ==> {
                &&& (#[trigger] m.vertices[i]).position == g->positions[i]
                &&& (i < g->normals.len() ==> m.vertices[i].normal == g->normals[i])
                &&& (i < g->tex_coords.len() ==> m.vertices[i].tex_coord == g->tex_coords[i])
                &&& (i < g->colors.len() ==> m.vertices[i].color == g->colors[i])
            }
        }),
{
    let g = decoded_union_graphics(bytes)->Ok_0;
    lemma_attribute_union_keeps_attributes(g->positions, g->normals, g->tex_coords, g->colors, g->indices);
}

/// Why a union payload was refused.
#[derive(Debug)]
pub enum CsgError {
    Empty,
    Decode(String),
    NoGeometry,
    InvalidIndex { index: u32, vertex_count: usize },
}

/// The mathematical content of a [`CsgError`].
pub enum CsgErrorView {
    Empty,
    Decode(Seq<char>),
    NoGeometry,
    InvalidIndex { index: u32, vertex_count: nat },
}

impl View for CsgError {
    type V = CsgErrorView;

    open spec fn view(&self) -> CsgErrorView {
        match self {
            CsgError::Empty => CsgErrorView::Empty,
            CsgError::Decode(s) => CsgErrorView::Decode(s@),
            CsgError::NoGeometry => CsgErrorView::NoGeometry,
            CsgError::InvalidIndex { index, vertex_count } => CsgErrorView::InvalidIndex {
                index: *index,
                vertex_count: *vertex_count as nat,
            },
        }
    }
}

impl CsgErrorView {
    /// The message of the error.
    pub open spec fn message(self) -> Seq<char> {
        match self {
            CsgErrorView::Empty => "union graphics payload is empty"@,
            CsgErrorView::Decode(s) => "union graphics payload is not a supported version: "@ + s,
            CsgErrorView::NoGeometry => "union graphics payload contains no triangle geometry"@,
            CsgErrorView::InvalidIndex { index, vertex_count } =>
                "union graphics payload references vertex index "@ + decimal(index as nat)
                    + ", but has "@ + decimal(vertex_count) + " vertices"@,
        }
    }
}

impl CsgError {
    /// The message of the error.
    pub fn message(&self) -> (r: String)
        ensures
            r@ == self@.message(),
    {
        match self {
            CsgError::Empty => "union graphics payload is empty".to_owned(),
            CsgError::Decode(s) => {
                let mut r = "union graphics payload is not a supported version: ".to_owned();
                r.append(s.as_str());
                r
            },
            CsgError::NoGeometry => "union graphics payload contains no triangle geometry".to_owned(),
            CsgError::InvalidIndex { index, vertex_count } => {
                let mut r = "union graphics payload references vertex index ".to_owned();
                append_decimal(&mut r, *index as u64);
                r.append(", but has ");
                append_decimal(&mut r, *vertex_count as u64);
                r.append(" vertices");
                r
            },
        }
    }
}

/// A decoding outcome as mathematical values.
pub open spec fn csg_result_view(r: Result<UnionMesh, CsgError>) -> Result<
    UnionMeshView,
    CsgErrorView,
> {
    match r {
        Ok(m) => Ok(m@),
        Err(e) => Err(e@),
    }
}

/// The outcome of turning a decoded union payload into a mesh: `CSGK`
/// and meshes without triangle geometry are refused, so is the first index
/// that names no vertex.
pub open spec fn union_graphics_outcome(g: RawUnionGraphicsView) -> Result<
    UnionMeshView,
    CsgErrorView,
> {
    match union_graphics_mesh(g) {
        None => Err(CsgErrorView::NoGeometry),
        Some(m) => match mesh_fault(m) {
            None => Ok(m),
            Some(MeshFault::NoGeometry) => Err(CsgErrorView::NoGeometry),
            Some(MeshFault::InvalidIndex(index)) => Err(
                CsgErrorView::InvalidIndex { index, vertex_count: m.vertices.len() },
            ),
        },
    }
}

/// The corners of `faces`, triangle after triangle.
pub fn flatten_face_indices(faces: &Vec<[u32; 3]>) -> (r: Vec<u32>)
    ensures
        r@ == flatten_faces(faces@),
{
    let mut r: Vec<u32> = Vec::new();
    let mut i: usize = 0;
    while i < faces.len()
        invariant
            0 <= i <= faces@.len(),
            r@ == flatten_faces(faces@.take(i as int)),
        decreases faces@.len() - i,
    {
        let f = faces[i];
        r.push(f[0]);
        r.push(f[1]);
        r.push(f[2]);
        assert(faces@.take(i + 1).drop_last() =~= faces@.take(i as int));
        assert(r@ =~= flatten_faces(faces@.take(i + 1)));
        i = i + 1;
    }
    assert(faces@.take(faces@.len() as int) =~= faces@);
    r
}

/// The vertices of a `CSGMDL5` payload: one per position, with defaults for
/// missing normals, texture coordinates and colors.
pub fn attribute_vertices(
    positions: &Vec<[u32; 3]>,
    normals: &Vec<[u32; 3]>,
    tex_coords: &Vec<[u32; 2]>,
    colors: &Vec<[u8; 4]>,
) -> (r: Vec<UnionVertex>)
    ensures
        r@ == Seq::new(
            positions@.len(),
            |i: int| attribute_vertex(positions@, normals@, tex_coords@, colors@, i),
        ),
        r@.len() == positions@.len(),
        forall|i: int| 0 <= i < r@.len() ==> (#[trigger] r@[i]).position == positions@[i],
        forall|i: int| 0 <= i < r@.len() && i < normals@.len() ==> (#[trigger] r@[i]).normal == normals@[i],
        forall|i: int| 0 <= i < r@.len() && i < tex_coords@.len() ==> (#[trigger] r@[i]).tex_coord == tex_coords@[i],
        forall|i: int| 0 <= i < r@.len() && i < colors@.len() ==> (#[trigger] r@[i]).color == colors@[i],
        forall|i: int| 0 <= i < r@.len() && i >= colors@.len() ==> (#[trigger] r@[i]).color == [255u8, 255u8, 255u8, 255u8],
{
    let mut r: Vec<UnionVertex> = Vec::with_capacity(positions.len());
    let mut i: usize = 0;
    while i < positions.len()
        invariant
            0 <= i <= positions@.len(),
            r@ =~= Seq::new(
                i as nat,
                |k: int| attribute_vertex(positions@, normals@, tex_coords@, colors@, k),
            ),
        decreases positions@.len() - i,
    {
        let normal = if i < normals.len() { normals[i] } else { [0u32, 0x3f80_0000u32, 0u32] };
        let tex_coord = if i < tex_coords.len() { tex_coords[i] } else { [0u32, 0u32] };
        let color = if i < colors.len() { colors[i] } else { [255u8, 255u8, 255u8, 255u8] };
        r.push(UnionVertex { position: positions[i], normal, tex_coord, color });
        i = i + 1;
    }
    r
}

/// Turns a decoded union payload into a mesh, refusing `CSGK` payloads and
/// meshes that are not valid.
pub fn union_mesh_from_graphics(graphics: RawUnionGraphics) -> (r: Result<UnionMesh, CsgError>)
    ensures
        csg_result_view(r) == union_graphics_outcome(graphics@),
        r matches Ok(m) ==> valid_mesh(m@),
{
    let mesh = match graphics {
        RawUnionGraphics::Csgk => return Err(CsgError::NoGeometry),
        RawUnionGraphics::Indexed { vertices, faces } => {
            let indices = flatten_face_indices(&faces);
            UnionMesh { vertices, indices }
        },
        RawUnionGraphics::Attributes { positions, normals, tex_coords, colors, indices } => {
            let vertices = attribute_vertices(&positions, &normals, &tex_coords, &colors);
            UnionMesh { vertices, indices }
        },
    };
    proof { lemma_mesh_fault_valid(mesh@); }
    match check_mesh(&mesh) {
        None => Ok(mesh),
        Some(MeshFault::NoGeometry) => Err(CsgError::NoGeometry),
        Some(MeshFault::InvalidIndex(index)) => Err(
            CsgError::InvalidIndex { index, vertex_count: mesh.vertices.len() },
        ),
    }
}

/// What `rbx_mesh::read_union_graphics_versioned` gives for a payload: the
/// decoded payload, or the text of its error.
pub uninterp spec fn decoded_union_graphics(bytes: Seq<u8>) -> Result<RawUnionGraphicsView, Seq<char>>;

/// A decoding outcome of `rbx_mesh` as mathematical values.
pub open spec fn raw_union_result_view(r: Result<RawUnionGraphics, String>) -> Result<
    RawUnionGraphicsView,
    Seq<char>,
> {
    match r {
        Ok(g) => Ok(g@),
        Err(e) => Err(e@),
    }
}

/// `rbx_mesh`'s version-2/4 union mesh, carried opaquely into the conversion.
#[verifier::external_type_specification]
#[verifier::external_body]
pub struct ExUnionMesh2(rbx_mesh::union_graphics::Mesh2);

/// `rbx_mesh`'s version-5 union payload, carried opaquely into the conversion.
#[verifier::external_type_specification]
#[verifier::external_body]
pub struct ExCsgmdl5(rbx_mesh::union_graphics::CSGMDL5);

/// Decodes a union payload with `rbx_mesh::read_union_graphics_versioned`.
/// The contract claims only that the outcome, with each `f32` carried as its
/// bits and each error as its text, is a function of the bytes
/// (`decoded_union_graphics`); the format itself is `rbx_mesh`'s.
/// The decoder allocates as many elements as a payload announces; where
/// memory cannot hold them the allocation aborts the process, which no
/// contract here rules out.
#[verifier::external_body]
fn read_union_graphics(bytes: &[u8]) -> (r: Result<RawUnionGraphics, String>)
    ensures
        raw_union_result_view(r) == decoded_union_graphics(bytes@),
{
    Ok(match read_union_graphics_versioned(Cursor::new(bytes)).map_err(|e| e.to_string())? {
        UnionGraphics::CSGK(_) => RawUnionGraphics::Csgk,
        UnionGraphics::V2(g) => indexed_graphics(g.mesh),
        UnionGraphics::V4(g) => indexed_graphics(g.mesh),
        UnionGraphics::V5(g) => attribute_graphics(g),
    })
}

/// Part of `read_union_graphics`'s conversion: moves the vertices (each
/// `f32` as its bits) and the triangles of a version-2/4 union mesh over,
/// one for one.
#[verifier::external_body]
fn indexed_graphics(m: rbx_mesh::union_graphics::Mesh2) -> RawUnionGraphics {
    RawUnionGraphics::Indexed {
        vertices: m.vertices.iter().map(|v| UnionVertex { position: v.pos.map(|x| x.to_bits()), normal: v.norm.map(|x| x.to_bits()), tex_coord: v.tex.map(|x| x.to_bits()), color: v.color }).collect(),
        faces: m.faces.into_iter().map(|f| f.map(|i| i.0)).collect(),
    }
}

/// Part of `read_union_graphics`'s conversion: moves the attribute lists
/// (each `f32` as its bits) and the index list of a version-5 union payload
/// over, one for one.
#[verifier::external_body]
fn attribute_graphics(g: rbx_mesh::union_graphics::CSGMDL5) -> RawUnionGraphics {
    RawUnionGraphics::Attributes {
        positions: g.positions.iter().map(|p| p.map(|x| x.to_bits())).collect(),
        normals: g.normals.iter().map(|n| n.0.map(|x| x.to_bits())).collect(),
        tex_coords: g.tex.iter().map(|t| t.map(|x| x.to_bits())).collect(),
        colors: g.colors,
        indices: g.faces.indices,
    }
}

/// What decoding a union payload gives.
pub open spec fn decode_union_graphics_spec(bytes: Seq<u8>) -> Result<UnionMeshView, CsgErrorView> {
    if bytes.len() == 0 {
        Err(CsgErrorView::Empty)
    } else {
        match decoded_union_graphics(bytes) {
            Err(msg) => Err(CsgErrorView::Decode(msg)),
            Ok(g) => union_graphics_outcome(g),
        }
    }
}

/// Decodes a union payload (`CSGK`, `CSGMDL2`, `CSGMDL4`, `CSGMDL5`) into a
/// valid mesh.
pub fn decode_union_graphics(bytes: &[u8]) -> (r: Result<UnionMesh, CsgError>)
    ensures
        csg_result_view(r) == decode_union_graphics_spec(bytes@),
        bytes@.len() == 0 ==> r matches Err(CsgError::Empty),
        r matches Ok(m) ==> valid_mesh(m@),
{
    if bytes.len() == 0 {
        return Err(CsgError::Empty);
    }
    match read_union_graphics(bytes) {
        Err(e) => Err(CsgError::Decode(e)),
        Ok(graphics) => union_mesh_from_graphics(graphics),
    }
}

/// A vertex of a mesh payload as the decoder reads it; versions without
/// vertex colors carry `None`.
#[derive(Clone, Copy, Debug, PartialEq, Eq)]
pub struct RawMeshVertex {
    pub position: [u32; 3],
    pub normal: [u32; 3],
    pub tex_coord: [u32; 2],
    pub color: Option<[u8; 4]>,
}

/// A mesh payload as the decoder reads it.
pub enum RawMesh {
    /// A text (version 1) mesh: its vertices; every three form a triangle.
    V1(Vec<RawMeshVertex>),
    /// A binary mesh: vertices, triangles and, from version 3 on, the face
    /// offsets of its levels of detail.
    Faces(Vec<RawMeshVertex>, Vec<[u32; 3]>, Option<Vec<u32>>),
}

/// The mathematical content of a [`RawMesh`].
pub enum RawMeshView {
    V1 { vertices: Seq<RawMeshVertex> },
    Faces { vertices: Seq<RawMeshVertex>, faces: Seq<[u32; 3]>, lods: Option<Seq<u32>> },
}

impl View for RawMesh {
    type V = RawMeshView;

    open spec fn view(&self) -> RawMeshView {
        match self {
            RawMesh::V1(vertices) => RawMeshView::V1 { vertices: vertices@ },
            RawMesh::Faces(vertices, faces, lods) => RawMeshView::Faces {
                vertices: vertices@,
                faces: faces@,
                lods: match lods {
                    Some(l) => Some(l@),
                    None => None,
                },
            },
        }
    }
}

/// Why a mesh payload was refused.
#[derive(Debug)]
pub enum MeshError {
    Empty,
    Decode(String),
    NoGeometry,
    InvalidIndex { index: u32, vertex_count: usize },
    InvalidLods { face_count: usize },
}

/// The mathematical content of a [`MeshError`].
pub enum MeshErrorView {
    Empty,
    Decode(Seq<char>),
    NoGeometry,
    InvalidIndex { index: u32, vertex_count: nat },
    InvalidLods { face_count: nat },
}

impl View for MeshError {
    type V = MeshErrorView;

    open spec fn view(&self) -> MeshErrorView {
        match self {
            MeshError::Empty => MeshErrorView::Empty,
            MeshError::Decode(s) => MeshErrorView::Decode(s@),
            MeshError::NoGeometry => MeshErrorView::NoGeometry,
            MeshError::InvalidIndex { index, vertex_count } => MeshErrorView::InvalidIndex {
                index: *index,
                vertex_count: *vertex_count as nat,
            },
            MeshError::InvalidLods { face_count } => MeshErrorView::InvalidLods {
                face_count: *face_count as nat,
            },
        }
    }
}

impl MeshErrorView {
    /// The message of the error.
    pub open spec fn message(self) -> Seq<char> {
        match self {
            MeshErrorView::Empty => "mesh payload is empty"@,
            MeshErrorView::Decode(s) => "mesh payload is not a supported version: "@ + s,
            MeshErrorView::NoGeometry => "mesh payload contains no triangle geometry"@,
            MeshErrorView::InvalidIndex { index, vertex_count } =>
                "mesh payload references vertex index "@ + decimal(index as nat) + ", but has "@
                    + decimal(vertex_count) + " vertices"@,
            MeshErrorView::InvalidLods { face_count } =>
                "mesh payload contains invalid LOD ranges for "@ + decimal(face_count) + " faces"@,
        }
    }
}

impl MeshError {
    /// The message of the error.
    pub fn message(&self) -> (r: String)
        ensures
            r@ == self@.message(),
    {
        match self {
            MeshError::Empty => "mesh payload is empty".to_owned(),
            MeshError::Decode(s) => {
                let mut r = "mesh payload is not a supported version: ".to_owned();
                r.append(s.as_str());
                r
            },
            MeshError::NoGeometry => "mesh payload contains no triangle geometry".to_owned(),
            MeshError::InvalidIndex { index, vertex_count } => {
                let mut r = "mesh payload references vertex index ".to_owned();
                append_decimal(&mut r, *index as u64);
                r.append(", but has ");
                append_decimal(&mut r, *vertex_count as u64);
                r.append(" vertices");
                r
            },
            MeshError::InvalidLods { face_count } => {
                let mut r = "mesh payload contains invalid LOD ranges for ".to_owned();
                append_decimal(&mut r, *face_count as u64);
                r.append(" faces");
                r
            },
        }
    }
}

/// A decoding outcome as mathematical values.
pub open spec fn mesh_result_view(r: Result<UnionMesh, MeshError>) -> Result<
    UnionMeshView,
    MeshErrorView,
> {
    match r {
        Ok(m) => Ok(m@),
        Err(e) => Err(e@),
    }
}

/// The vertex a payload vertex becomes: white when it carries no color.
pub open spec fn mesh_vertex(v: RawMeshVertex) -> UnionVertex {
    UnionVertex {
        position: v.position,
        normal: v.normal,
        tex_coord: v.tex_coord,
        color: match v.color {
            Some(c) => c,
            None => default_color(),
        },
    }
}

/// The levels of detail are well formed: no offset exceeds the face count
/// and the offsets never decrease.
pub open spec fn lods_well_formed(lods: Seq<u32>, face_count: nat) -> bool {
    &&& forall|i: int| 0 <= i < lods.len() ==> (#[trigger] lods[i]) <= face_count
    &&& forall|i: int| 0 <= i < lods.len() - 1 ==> (#[trigger] lods[i]) <= lods[i + 1]
}

/// The faces of the most detailed level: from the first offset (or 0) to
/// the second offset (or the face count).
pub open spec fn highest_detail_range(lods: Seq<u32>, face_count: nat) -> (int, int) {
    (
        if lods.len() > 0 { lods[0] as int } else { 0 },
        if lods.len() > 1 { lods[1] as int } else { face_count as int },
    )
}

/// Selects the faces of the most detailed level of detail, refusing level
/// offsets that exceed the face count or decrease.
#[verifier::rlimit(60)]
pub fn highest_detail_face_range(lods: &Vec<u32>, face_count: usize) -> (r: Result<
    core::ops::Range<usize>,
    MeshError,
>)
    ensures
        lods_well_formed(lods@, face_count as nat) ==> (r matches Ok(range) && range.start
            == highest_detail_range(lods@, face_count as nat).0 && range.end == highest_detail_range(
            lods@,
            face_count as nat,
        ).1 && range.start <= range.end <= face_count),
        !lods_well_formed(lods@, face_count as nat) ==> (r matches Err(MeshError::InvalidLods {
            face_count: f,
        }) && f == face_count),
{
    let mut i: usize = 0;
    while i < lods.len()
        invariant
            0 <= i <= lods@.len(),
            forall|k: int| 0 <= k < i ==> (#[trigger] lods@[k]) <= face_count,
            forall|k: int| 0 <= k < i - 1 ==> (#[trigger] lods@[k]) <= lods@[k + 1],
        decreases lods@.len() - i,
    {
        if lods[i] as usize > face_count || (i > 0 && lods[i - 1] > lods[i]) {
            return Err(MeshError::InvalidLods { face_count });
        }
        i = i + 1;
    }
    let start = if lods.len() > 0 { lods[0] as usize } else { 0 };
    let end = if lods.len() > 1 { lods[1] as usize } else { face_count };
    Ok(start..end)
}

/// The mesh a payload describes for a chosen face range.
pub open spec fn faces_mesh(vertices: Seq<RawMeshVertex>, faces: Seq<[u32; 3]>, start: int, end: int) -> UnionMeshView {
    UnionMeshView {
        vertices: vertices.map_values(|v: RawMeshVertex| mesh_vertex(v)),
        indices: flatten_faces(faces.subrange(start, end)),
    }
}

/// The mesh a text mesh describes: every vertex in order.
pub open spec fn v1_mesh(vertices: Seq<RawMeshVertex>) -> UnionMeshView {
    UnionMeshView {
        vertices: vertices.map_values(|v: RawMeshVertex| mesh_vertex(v)),
        indices: Seq::new((vertices.len() as u32) as nat, |i: int| i as u32),
    }
}

/// A mesh checked for faults, as a decoding outcome.
pub open spec fn checked_mesh_outcome(m: UnionMeshView) -> Result<UnionMeshView, MeshErrorView> {
    match mesh_fault(m) {
        None => Ok(m),
        Some(MeshFault::NoGeometry) => Err(MeshErrorView::NoGeometry),
        Some(MeshFault::InvalidIndex(index)) => Err(
            MeshErrorView::InvalidIndex { index, vertex_count: m.vertices.len() },
        ),
    }
}

/// The outcome of turning a decoded mesh payload into a mesh.
pub open spec fn raw_mesh_outcome(m: RawMeshView) -> Result<UnionMeshView, MeshErrorView> {
    match m {
        RawMeshView::V1 { vertices } => checked_mesh_outcome(v1_mesh(vertices)),
        RawMeshView::Faces { vertices, faces, lods } => match lods {
            None => checked_mesh_outcome(faces_mesh(vertices, faces, 0, faces.len() as int)),
            Some(l) => if lods_well_formed(l, faces.len()) {
                checked_mesh_outcome(
                    faces_mesh(
                        vertices,
                        faces,
                        highest_detail_range(l, faces.len()).0,
                        highest_detail_range(l, faces.len()).1,
                    ),
                )
            } else {
                Err(MeshErrorView::InvalidLods { face_count: faces.len() })
            },
        },
    }
}

/// The vertices of a mesh payload, white where they carry no color.
pub fn mesh_vertices(vertices: &Vec<RawMeshVertex>) -> (r: Vec<UnionVertex>)
    ensures
        r@ == vertices@.map_values(|v: RawMeshVertex| mesh_vertex(v)),
{
    let mut r: Vec<UnionVertex> = Vec::with_capacity(vertices.len());
    let mut i: usize = 0;
    while i < vertices.len()
        invariant
            0 <= i <= vertices@.len(),
            r@ =~= vertices@.take(i as int).map_values(|v: RawMeshVertex| mesh_vertex(v)),
        decreases vertices@.len() - i,
    {
        let v = vertices[i];
        let color = match v.color {
            Some(c) => c,
            None => [255u8, 255u8, 255u8, 255u8],
        };
        r.push(UnionVertex { position: v.position, normal: v.normal, tex_coord: v.tex_coord, color });
        assert(vertices@.take(i + 1) =~= vertices@.take(i as int).push(v));
        i = i + 1;
    }
    assert(vertices@.take(vertices@.len() as int) =~= vertices@);
    r
}

/// The corners of the faces in `start..end`, triangle after triangle.
pub fn flatten_face_range(faces: &Vec<[u32; 3]>, start: usize, end: usize) -> (r: Vec<u32>)
    requires
        start <= end <= faces@.len(),
    ensures
        r@ == flatten_faces(faces@.subrange(start as int, end as int)),
{
    let mut r: Vec<u32> = Vec::new();
    let mut i: usize = start;
    while i < end
        invariant
            start <= i <= end <= faces@.len(),
            r@ == flatten_faces(faces@.subrange(start as int, i as int)),
        decreases end - i,
    {
        let f = faces[i];
        r.push(f[0]);
        r.push(f[1]);
        r.push(f[2]);
        assert(faces@.subrange(start as int, i + 1).drop_last() =~= faces@.subrange(start as int, i as int));
        assert(r@ =~= flatten_faces(faces@.subrange(start as int, i + 1)));
        i = i + 1;
    }
    r
}

/// Checks a mesh built from a payload.
fn checked_mesh(mesh: UnionMesh) -> (r: Result<UnionMesh, MeshError>)
    ensures
        mesh_result_view(r) == checked_mesh_outcome(mesh@),
{
    match check_mesh(&mesh) {
        None => Ok(mesh),
        Some(MeshFault::NoGeometry) => Err(MeshError::NoGeometry),
        Some(MeshFault::InvalidIndex(index)) => Err(
            MeshError::InvalidIndex { index, vertex_count: mesh.vertices.len() },
        ),
    }
}

/// Turns a decoded mesh payload into a mesh: a text mesh uses its vertices
/// in order, a binary mesh the faces of its most detailed level; vertices
/// without color become white; the result must be valid.
pub fn mesh_from_raw(raw: RawMesh) -> (r: Result<UnionMesh, MeshError>)
    ensures
        mesh_result_view(r) == raw_mesh_outcome(raw@),
        r matches Ok(m) ==> valid_mesh(m@),
{
    let ghost g = raw@;
    let mesh = match raw {
        RawMesh::V1(vertices) => {
            let n = vertices.len() as u32;
            let mut indices: Vec<u32> = Vec::with_capacity(n as usize);
            let mut i: u32 = 0;
            while i < n
                invariant
                    0 <= i <= n,
                    indices@ =~= Seq::new(i as nat, |k: int| k as u32),
                decreases n - i,
            {
                indices.push(i);
                i = i + 1;
            }
            let vs = mesh_vertices(&vertices);
            UnionMesh { vertices: vs, indices }
        },
        RawMesh::Faces(vertices, faces, lods) => {
            let range = match lods {
                None => 0..faces.len(),
                Some(l) => highest_detail_face_range(&l, faces.len())?,
            };
            let vs = mesh_vertices(&vertices);
            let indices = flatten_face_range(&faces, range.start, range.end);
            UnionMesh { vertices: vs, indices }
        },
    };
    proof { lemma_mesh_fault_valid(mesh@); }
    checked_mesh(mesh)
}

/// `rbx_mesh`'s text mesh, carried opaquely into the conversion.
#[verifier::external_type_specification]
#[verifier::external_body]
pub struct ExMesh1(rbx_mesh::mesh::Mesh1);

/// `rbx_mesh`'s vertex list of mesh versions 2 and 3, carried opaquely into
/// the conversion.
#[verifier::external_type_specification]
#[verifier::external_body]
pub struct ExVertices2(rbx_mesh::mesh::Vertices2);

/// `rbx_mesh`'s full mesh vertex, carried opaquely into the conversion.
#[verifier::external_type_specification]
#[verifier::external_body]
pub struct ExVertex2(rbx_mesh::mesh::Vertex2);

/// `rbx_mesh`'s mesh triangle, carried opaquely into the conversion.
#[verifier::external_type_specification]
#[verifier::external_body]
pub struct ExFace2(rbx_mesh::mesh::Face2);

/// `rbx_mesh`'s level-of-detail offset, carried opaquely into the conversion.
#[verifier::external_type_specification]
#[verifier::external_body]
pub struct ExLod3(rbx_mesh::mesh::Lod3);

/// The little-endian `u16` at `at`, as an integer.
pub open spec fn u16_at(b: Seq<u8>, at: int) -> int {
    b[at] + 256 * b[at + 1]
}

/// The little-endian `u32` at `at`, as an integer.
pub open spec fn u32_at(b: Seq<u8>, at: int) -> int {
    b[at] + 256 * b[at + 1] + 65536 * b[at + 2] + 16777216 * b[at + 3]
}

/// The text tag `version 5.00` and a newline that opens a version 5 mesh.
pub open spec fn mesh_v5_tag() -> Seq<u8> {
    seq![0x76u8, 0x65u8, 0x72u8, 0x73u8, 0x69u8, 0x6fu8, 0x6eu8, 0x20u8, 0x35u8, 0x2eu8, 0x30u8, 0x30u8, 0x0au8]
}

/// The fixed part of a version 5 mesh header as `rbx_mesh` reads it: the
/// tag, a header size of 32, a level-of-detail kind of at most 4, a zero
/// padding byte and FACS format 1.
pub open spec fn mesh_v5_header_ok(b: Seq<u8>) -> bool {
    &&& starts_with(b, mesh_v5_tag())
    &&& b.len() >= 45
    &&& u16_at(b, 13) == 32
    &&& u16_at(b, 15) <= 4
    &&& b[36] == 0u8
    &&& u32_at(b, 37) == 1
}

/// Where the FACS section of a version 5 mesh starts: after the tag, the
/// 32-byte header, the vertices (40 bytes each), their envelopes (8 bytes
/// each, when there are bones), the faces (12 bytes each), the level-of-detail
/// offsets (4 bytes each), the bones (60 bytes each), the bone names and the
/// subsets (72 bytes each).
pub open spec fn mesh_v5_facs_start(b: Seq<u8>) -> int {
    let vertices = u32_at(b, 17);
    let bones = u16_at(b, 27);
    45 + 40 * vertices + (if bones == 0 { 0 } else { 8 * vertices }) + 12 * u32_at(b, 21) + 4
        * u16_at(b, 25) + 60 * bones + u32_at(b, 29) + 72 * u16_at(b, 33)
}

/// Whether, reading the FACS transform matrices from `at` on, `k` of the six
/// already read, one is announced whose row count times column count
/// exceeds `u32::MAX` before the bytes run out or a matrix tag is unknown.
/// A raw matrix (tag 1) holds 4-byte values after its sizes, a quantized one
/// (tag 2) two `f32` bounds and then 2-byte values.
pub open spec fn facs_matrix_overflow(b: Seq<u8>, at: int, k: nat) -> bool
    decreases 6 - k,
{
    if k >= 6 || at < 0 || at + 10 > b.len() {
        false
    } else {
        let tag = u16_at(b, at);
        if tag != 1 && tag != 2 {
            false
        } else if tag == 2 && at + 18 > b.len() {
            false
        } else {
            let count = u32_at(b, at + 2) * u32_at(b, at + 6);
            if count > u32::MAX {
                true
            } else {
                let next = if tag == 1 { at + 10 + 4 * count } else { at + 18 + 2 * count };
                if next > b.len() {
                    false
                } else {
                    facs_matrix_overflow(b, next, k + 1)
                }
            }
        }
    }
}

/// Whether `b` is a version 5 mesh whose FACS section announces a transform
/// matrix whose element count, the product of two `u32` sizes, does not fit
/// in a `u32`: `rbx_mesh` computes that product in `u32` arithmetic, which
/// panics where overflow checks are on.
pub open spec fn mesh_v5_matrix_overflow(b: Seq<u8>) -> bool {
    &&& mesh_v5_header_ok(b)
    &&& mesh_v5_facs_start(b) + 24 <= b.len()
    &&& facs_matrix_overflow(
        b,
        mesh_v5_facs_start(b) + 24 + u32_at(b, mesh_v5_facs_start(b)) + u32_at(
            b,
            mesh_v5_facs_start(b) + 4,
        ),
        0,
    )
}

fn read_u16_at(b: &[u8], at: u128) -> (r: u128)
    requires
        at + 2 <= b@.len(),
    ensures
        r == u16_at(b@, at as int),
{
    let i = at as usize;
    b[i] as u128 + 256 * (b[i + 1] as u128)
}

fn read_u32_at(b: &[u8], at: u128) -> (r: u128)
    requires
        at + 4 <= b@.len(),
    ensures
        r == u32_at(b@, at as int),
        r <= u32::MAX,
{
    let i = at as usize;
    b[i] as u128 + 256 * (b[i + 1] as u128) + 65536 * (b[i + 2] as u128) + 16777216 * (b[i
        + 3] as u128)
}

/// Whether a payload is a version 5 mesh with a FACS matrix too large for
/// `rbx_mesh` to count.
pub fn mesh_matrix_overflows(b: &[u8]) -> (r: bool)
    ensures
        r == mesh_v5_matrix_overflow(b@),
{
    let tag: [u8; 13] = [0x76, 0x65, 0x72, 0x73, 0x69, 0x6f, 0x6e, 0x20, 0x35, 0x2e, 0x30, 0x30, 0x0a];
    assert(tag@ == mesh_v5_tag());
    let len = b.len() as u128;
    if !bytes_start_with(b, &tag) || len < 45 {
        return false;
    }
    if read_u16_at(b, 13) != 32 || read_u16_at(b, 15) > 4 || b[36] != 0 || read_u32_at(b, 37) != 1 {
        return false;
    }
    let vertices = read_u32_at(b, 17);
    let bones = read_u16_at(b, 27);
    let envelopes = if bones == 0 { 0 } else { 8 * vertices };
    let facs = 45 + 40 * vertices + envelopes + 12 * read_u32_at(b, 21) + 4 * read_u16_at(b, 25)
        + 60 * bones + read_u32_at(b, 29) + 72 * read_u16_at(b, 33);
    assert(facs == mesh_v5_facs_start(b@));
    if facs + 24 > len {
        return false;
    }
    let mut at: u128 = facs + 24 + read_u32_at(b, facs) + read_u32_at(b, facs + 4);
    let mut k: u128 = 0;
    while k < 6
        invariant
            len == b@.len(),
            len <= usize::MAX,
            k <= 6,
            at <= len + 0x3_0000_0000,
            mesh_v5_matrix_overflow(b@) == facs_matrix_overflow(b@, at as int, k as nat),
        decreases 6 - k,
    {
        if at + 10 > len {
            return false;
        }
        let tag = read_u16_at(b, at);
        if tag != 1 && tag != 2 {
            return false;
        }
        if tag == 2 && at + 18 > len {
            return false;
        }
        let rows = read_u32_at(b, at + 2);
        let columns = read_u32_at(b, at + 6);
        assert(rows * columns <= 0xffff_ffff * 0xffff_ffff) by (nonlinear_arith)
            requires
                rows <= 0xffff_ffff,
                columns <= 0xffff_ffff,
        ;
        let count = rows * columns;
        if count > 0xffff_ffff {
            return true;
        }
        let next = if tag == 1 { at + 10 + 4 * count } else { at + 18 + 2 * count };
        if next > len {
            return false;
        }
        at = next;
        k = k + 1;
    }
    false
}

/// A byte that may stand around a value on a line of a text mesh and that
/// the reader's trimming could remove: an ASCII control character or space,
/// or a byte of a multi-byte character.
pub open spec fn is_pad_byte(c: u8) -> bool {
    c <= 0x20u8 || c >= 0x80u8
}

/// Where the line that starts at `i` ends: the position of the next newline,
/// or the end of `b`.
pub open spec fn line_end(b: Seq<u8>, i: int) -> int
    decreases b.len() - i,
{
    if i < 0 || i >= b.len() {
        b.len() as int
    } else if b[i] == 0x0au8 {
        i
    } else {
        line_end(b, i + 1)
    }
}

/// The first position in `[i, end)` that holds no pad byte, or `end`.
pub open spec fn skip_pads(b: Seq<u8>, i: int, end: int) -> int
    decreases end - i,
{
    if i < 0 || i >= end || i >= b.len() {
        end
    } else if is_pad_byte(b[i]) {
        skip_pads(b, i + 1, end)
    } else {
        i
    }
}

/// The end of `[start, end)` with trailing pad bytes left off.
pub open spec fn trim_pads_end(b: Seq<u8>, start: int, end: int) -> int
    decreases end - start,
{
    if end <= start || end > b.len() {
        end
    } else if is_pad_byte(b[end - 1]) {
        trim_pads_end(b, start, end - 1)
    } else {
        end
    }
}

/// The text `version 1.0` that opens a text mesh's first line.
pub open spec fn mesh_v1_tag() -> Seq<u8> {
    seq![0x76u8, 0x65u8, 0x72u8, 0x73u8, 0x69u8, 0x6fu8, 0x6eu8, 0x20u8, 0x31u8, 0x2eu8, 0x30u8]
}

/// The decimal value of the digits in `[d, t)`.
pub open spec fn digits_value(b: Seq<u8>, d: int, t: int) -> nat
    decreases t - d,
{
    if t <= d {
        0
    } else {
        digits_value(b, d, t - 1) * 10 + (b[t - 1] - 0x30u8) as nat
    }
}

/// The number on the line `[start, end)` of a text mesh, read as the
/// reader's `u32` parse could read it: pad bytes around it, an optional
/// `+`, then at least one digit; `None` where the line is not of that form.
pub open spec fn line_number(b: Seq<u8>, start: int, end: int) -> Option<nat> {
    let s = skip_pads(b, start, end);
    let t = trim_pads_end(b, s, end);
    let d = if s < t && b[s] == 0x2bu8 { s + 1 } else { s };
    if d < t && forall|i: int| d <= i < t ==> 0x30u8 <= #[trigger] b[i] <= 0x39u8 {
        Some(digits_value(b, d, t))
    } else {
        None
    }
}

/// Whether `b` could be read by `rbx_mesh`'s text mesh reader up to its
/// face count and that count is too large for it: the reader reserves
/// three 36-byte vertices per face (`face_count as usize * 3`) and counts
/// `3 * face_count` in `u32`, so it panics where overflow checks are on once
/// three times the count passes `u32::MAX` (or `usize::MAX`, no larger on a
/// 32-bit target), and the reservation panics with a capacity overflow once
/// its size passes `isize::MAX - 3` bytes (the largest size of a 4-aligned
/// layout). The reader needs a first line that trims to `version 1.0x`, a
/// second line that parses as the count and a third line; this check reads
/// the first line only as far as `version 1.0` after pad bytes.
pub open spec fn mesh_v1_face_overflow(b: Seq<u8>) -> bool {
    let e1 = line_end(b, 0);
    let e2 = line_end(b, e1 + 1);
    let s1 = skip_pads(b, 0, e1);
    &&& e1 < b.len()
    &&& s1 + 11 <= e1
    &&& b.subrange(s1, s1 + 11) == mesh_v1_tag()
    &&& e2 + 1 < b.len()
    &&& line_number(b, e1 + 1, e2) matches Some(v) && (3 * v > u32::MAX || 108 * v > isize::MAX - 3)
}

proof fn lemma_line_end(b: Seq<u8>, i: int)
    requires
        0 <= i <= b.len(),
    ensures
        i <= line_end(b, i) <= b.len(),
    decreases b.len() - i,
{
    if i < b.len() && b[i] != 0x0au8 {
        lemma_line_end(b, i + 1);
    }
}

fn find_line_end(b: &[u8], i: usize) -> (r: usize)
    requires
        i <= b@.len(),
    ensures
        r == line_end(b@, i as int),
        i <= r <= b@.len(),
{
    let mut j = i;
    while j < b.len() && b[j] != 0x0a
        invariant
            i <= j <= b@.len(),
            line_end(b@, i as int) == line_end(b@, j as int),
        decreases b@.len() - j,
    {
        j = j + 1;
    }
    j
}

fn find_non_pad(b: &[u8], i: usize, end: usize) -> (r: usize)
    requires
        i <= end <= b@.len(),
    ensures
        r == skip_pads(b@, i as int, end as int),
        i <= r <= end,
{
    let mut j = i;
    while j < end && (b[j] <= 0x20 || b[j] >= 0x80)
        invariant
            i <= j <= end,
            end <= b@.len(),
            skip_pads(b@, i as int, end as int) == skip_pads(b@, j as int, end as int),
        decreases end - j,
    {
        j = j + 1;
    }
    j
}

fn trim_end(b: &[u8], start: usize, end: usize) -> (r: usize)
    requires
        start <= end <= b@.len(),
    ensures
        r == trim_pads_end(b@, start as int, end as int),
        start <= r <= end,
{
    let mut t = end;
    while t > start && (b[t - 1] <= 0x20 || b[t - 1] >= 0x80)
        invariant
            start <= t <= end,
            end <= b@.len(),
            trim_pads_end(b@, start as int, end as int) == trim_pads_end(b@, start as int, t as int),
        decreases t - start,
    {
        t = t - 1;
    }
    t
}

/// The number `digits_value` gives, capped at `2^33`.
fn capped_digits_value(b: &[u8], d: usize, t: usize) -> (r: u64)
    requires
        d <= t <= b@.len(),
        forall|i: int| d <= i < t ==> 0x30u8 <= #[trigger] b@[i] <= 0x39u8,
    ensures
        r == if digits_value(b@, d as int, t as int) < 0x2_0000_0000 {
            digits_value(b@, d as int, t as int)
        } else {
            0x2_0000_0000
        },
{
    let mut acc: u64 = 0;
    let mut k = d;
    while k < t
        invariant
            d <= k <= t,
            t <= b@.len(),
            forall|i: int| d <= i < t ==> 0x30u8 <= #[trigger] b@[i] <= 0x39u8,
            acc == if digits_value(b@, d as int, k as int) < 0x2_0000_0000 {
                digits_value(b@, d as int, k as int)
            } else {
                0x2_0000_0000
            },
        decreases t - k,
    {
        let digit = (b[k] - 0x30) as u64;
        assert(digits_value(b@, d as int, k + 1) == digits_value(b@, d as int, k as int) * 10 + digit);
        let next = acc * 10 + digit;
        acc = if next < 0x2_0000_0000 { next } else { 0x2_0000_0000 };
        k = k + 1;
    }
    acc
}

/// Whether a payload is a text mesh whose face count is too large for
/// `rbx_mesh`'s text reader.
#[verifier::loop_isolation(false)]
pub fn mesh_face_count_overflows(b: &[u8]) -> (r: bool)
    ensures
        r == mesh_v1_face_overflow(b@),
{
    let tag: [u8; 11] = [0x76, 0x65, 0x72, 0x73, 0x69, 0x6f, 0x6e, 0x20, 0x31, 0x2e, 0x30];
    assert(tag@ == mesh_v1_tag());
    let e1 = find_line_end(b, 0);
    if e1 >= b.len() {
        return false;
    }
    let s1 = find_non_pad(b, 0, e1);
    if e1 - s1 < 11 {
        return false;
    }
    let mut k: usize = 0;
    while k < 11
        invariant
            s1 + 11 <= e1 < b@.len(),
            tag@ == mesh_v1_tag(),
            0 <= k <= 11,
            forall|i: int| 0 <= i < k ==> b@[s1 + i] == tag@[i],
        decreases 11 - k,
    {
        if b[s1 + k] != tag[k] {
            assert(b@.subrange(s1 as int, s1 + 11)[k as int] != mesh_v1_tag()[k as int]);
            return false;
        }
        k = k + 1;
    }
    assert(b@.subrange(s1 as int, s1 + 11) =~= mesh_v1_tag());
    let e2 = find_line_end(b, e1 + 1);
    if b.len() - e2 <= 1 {
        return false;
    }
    let s = find_non_pad(b, e1 + 1, e2);
    let t = trim_end(b, s, e2);
    let d = if s < t && b[s] == 0x2b { s + 1 } else { s };
    if d >= t {
        return false;
    }
    let mut j = d;
    while j < t
        invariant
            d <= j <= t,
            t <= b@.len(),
            forall|i: int| d <= i < j ==> 0x30u8 <= #[trigger] b@[i] <= 0x39u8,
        decreases t - j,
    {
        if b[j] < 0x30 || b[j] > 0x39 {
            assert(!(0x30u8 <= b@[j as int] <= 0x39u8));
            assert(line_number(b@, e1 + 1, e2 as int) is None);
            return false;
        }
        j = j + 1;
    }
    let v = capped_digits_value(b, d, t);
    let isize_max = isize::MAX as u128;
    let over = 3 * (v as u128) > 0xffff_ffff || 108 * (v as u128) > isize_max - 3;
    over
}

/// What `rbx_mesh::read_mesh_versioned` gives for a payload: the decoded
/// mesh, or the text of its error.
pub uninterp spec fn decoded_mesh(bytes: Seq<u8>) -> Result<RawMeshView, Seq<char>>;

/// A decoding outcome of `rbx_mesh` as mathematical values.
pub open spec fn raw_mesh_result_view(r: Result<RawMesh, String>) -> Result<RawMeshView, Seq<char>> {
    match r {
        Ok(m) => Ok(m@),
        Err(e) => Err(e@),
    }
}

/// Decodes a mesh payload with `rbx_mesh::read_mesh_versioned`. The contract
/// claims only that the outcome, with each `f32` carried as its bits and
/// each error as its text, is a function of the bytes (`decoded_mesh`); the
/// formats themselves are `rbx_mesh`'s.
/// It requires that the payload is not a version 5 mesh whose FACS matrix
/// sizes multiply beyond `u32::MAX` (`mesh_v5_matrix_overflow`): `rbx_mesh`
/// multiplies them in `u32` arithmetic (`mesh/v5.rs`, `count = x * y`),
/// which panics where overflow checks are on; nor a text mesh whose face
/// count is too large for its reader (`mesh_v1_face_overflow`, `mesh/v1.rs`,
/// `face_count as usize * 3` and `3 * face_count`).
/// The decoder allocates as many elements as a payload announces; where
/// memory cannot hold them the allocation aborts the process, which no
/// contract here rules out.
#[verifier::external_body]
fn read_mesh(bytes: &[u8]) -> (r: Result<RawMesh, String>)
    requires
        !mesh_v5_matrix_overflow(bytes@),
        !mesh_v1_face_overflow(bytes@),
    ensures
        raw_mesh_result_view(r) == decoded_mesh(bytes@),
{
    Ok(match read_mesh_versioned(Cursor::new(bytes)).map_err(|e| e.to_string())? {
        Mesh::V1(m) => RawMesh::V1(text_vertices(m)),
        Mesh::V2(m) => RawMesh::Faces(vertices2(m.vertices), faces2(m.faces), None),
        Mesh::V3(m) => RawMesh::Faces(vertices2(m.vertices), faces2(m.faces), Some(lods3(m.lods))),
        Mesh::V4(m) => RawMesh::Faces(full_vertices(m.vertices), faces2(m.faces), Some(lods3(m.lods))),
        Mesh::V5(m) => RawMesh::Faces(full_vertices(m.vertices), faces2(m.faces), Some(lods3(m.lods))),
    })
}

/// Part of `read_mesh`'s conversion: the vertices of a text mesh, each `f32`
/// as its bits, keeping the first two texture coordinates, without color.
#[verifier::external_body]
fn text_vertices(m: rbx_mesh::mesh::Mesh1) -> Vec<RawMeshVertex> {
    m.vertices.iter().map(|v| RawMeshVertex { position: v.pos.map(|x| x.to_bits()), normal: v.norm.map(|x| x.to_bits()), tex_coord: [v.tex[0].to_bits(), v.tex[1].to_bits()], color: None }).collect()
}

/// Part of `read_mesh`'s conversion: full vertices keep their color,
/// truncated ones carry none; each `f32` as its bits.
#[verifier::external_body]
fn vertices2(v: rbx_mesh::mesh::Vertices2) -> Vec<RawMeshVertex> {
    match v {
        rbx_mesh::mesh::Vertices2::Full(vs) => full_vertices(vs),
        rbx_mesh::mesh::Vertices2::Truncated(vs) => vs.iter().map(|v| RawMeshVertex { position: v.pos.map(|x| x.to_bits()), normal: v.norm.map(|x| x.to_bits()), tex_coord: v.tex.map(|x| x.to_bits()), color: None }).collect(),
    }
}

/// Part of `read_mesh`'s conversion: full vertices with their color, each
/// `f32` as its bits.
#[verifier::external_body]
fn full_vertices(vs: Vec<rbx_mesh::mesh::Vertex2>) -> Vec<RawMeshVertex> {
    vs.iter().map(|v| RawMeshVertex { position: v.pos.map(|x| x.to_bits()), normal: v.norm.map(|x| x.to_bits()), tex_coord: v.tex.map(|x| x.to_bits()), color: Some(v.color) }).collect()
}

/// Part of `read_mesh`'s conversion: the three vertex ids of each triangle.
#[verifier::external_body]
fn faces2(faces: Vec<rbx_mesh::mesh::Face2>) -> Vec<[u32; 3]> {
    faces.into_iter().map(|f| f.0.map(|i| i.0)).collect()
}

/// Part of `read_mesh`'s conversion: the face offset of each level of detail.
#[verifier::external_body]
fn lods3(lods: Vec<rbx_mesh::mesh::Lod3>) -> Vec<u32> {
    lods.into_iter().map(|l| l.0).collect()
}

/// The decode error of a version 5 mesh whose FACS matrix is too large.
pub open spec fn matrix_overflow_message() -> Seq<char> {
    "version 5.00 FACS matrix size overflows u32"@
}

/// The decode error of a text mesh whose face count is too large.
pub open spec fn face_count_overflow_message() -> Seq<char> {
    "version 1 mesh face count is too large"@
}

/// What decoding a mesh payload gives.
pub open spec fn decode_mesh_spec(bytes: Seq<u8>) -> Result<UnionMeshView, MeshErrorView> {
    if bytes.len() == 0 {
        Err(MeshErrorView::Empty)
    } else if mesh_v5_matrix_overflow(bytes) {
        Err(MeshErrorView::Decode(matrix_overflow_message()))
    } else if mesh_v1_face_overflow(bytes) {
        Err(MeshErrorView::Decode(face_count_overflow_message()))
    } else {
        match decoded_mesh(bytes) {
            Err(msg) => Err(MeshErrorView::Decode(msg)),
            Ok(m) => raw_mesh_outcome(m),
        }
    }
}

/// Decodes a Roblox mesh payload (versions 1 to 5) into a valid mesh.
pub fn decode_mesh(bytes: &[u8]) -> (r: Result<UnionMesh, MeshError>)
    ensures
        mesh_result_view(r) == decode_mesh_spec(bytes@),
        bytes@.len() == 0 ==> r matches Err(MeshError::Empty),
        r matches Ok(m) ==> valid_mesh(m@),
{
    if bytes.len() == 0 {
        return Err(MeshError::Empty);
    }
    if mesh_matrix_overflows(bytes) {
        return Err(MeshError::Decode("version 5.00 FACS matrix size overflows u32".to_owned()));
    }
    if mesh_face_count_overflows(bytes) {
        return Err(MeshError::Decode("version 1 mesh face count is too large".to_owned()));
    }
    match read_mesh(bytes) {
        Err(e) => Err(MeshError::Decode(e)),
        Ok(raw) => mesh_from_raw(raw),
    }
}

/// What decoding a payload of either kind gives: the mesh, or the name of
/// its header, `": "` and the error's message.
pub open spec fn decode_mesh_payload_spec(bytes: Seq<u8>) -> Result<UnionMeshView, Seq<char>> {
    let header = payload_header_spec(bytes);
    if header.spec_is_union() {
        match decode_union_graphics_spec(bytes) {
            Ok(m) => Ok(m),
            Err(e) => Err(header.spec_name() + ": "@ + e.message()),
        }
    } else {
        match decode_mesh_spec(bytes) {
            Ok(m) => Ok(m),
            Err(e) => Err(header.spec_name() + ": "@ + e.message()),
        }
    }
}

/// Decodes a payload as a union when its header names a union format, as a
/// mesh otherwise.
pub fn decode_mesh_payload(bytes: &[u8]) -> (r: Result<UnionMesh, String>)
    ensures
        match r {
            Ok(m) => decode_mesh_payload_spec(bytes@) == Ok::<UnionMeshView, Seq<char>>(m@),
            Err(e) => decode_mesh_payload_spec(bytes@) == Err::<UnionMeshView, Seq<char>>(e@),
        },
        r matches Ok(m) ==> valid_mesh(m@),
{
    let header = payload_header(bytes);
    let version = header.name();
    match header {
        PayloadHeader::Unknown => match decode_mesh(bytes) {
            Ok(m) => Ok(m),
            Err(e) => {
                let mut msg = version;
                msg.append(": ");
                msg.append(e.message().as_str());
                Err(msg)
            },
        },
        _ => match decode_union_graphics(bytes) {
            Ok(m) => Ok(m),
            Err(e) => {
                let mut msg = version;
                msg.append(": ");
                msg.append(e.message().as_str());
                Err(msg)
            },
        },
    }
}

/// A `CSGMDL5` payload of one triangle with corners at (0, 0, 0), (1, 0, 0)
/// and (0, 1, 0): header, three positions, no normals, colors, normal ids,
/// texture coordinates or tangents, then the face section.
pub open spec fn v5_triangle_payload() -> Seq<u8> {
    csgmdl_magic(0x35u8) + le16_bytes(3) + le32_bytes(0) + le32_bytes(0) + le32_bytes(0)
        + le32_bytes(0x3f80_0000) + le32_bytes(0) + le32_bytes(0) + le32_bytes(0) + le32_bytes(
        0x3f80_0000,
    ) + le32_bytes(0) + le16_bytes(0) + le32_bytes(0) + le16_bytes(0) + le16_bytes(0)
        + le16_bytes(0) + le16_bytes(0) + le32_bytes(0) + le32_bytes(3) + le32_bytes(3) + seq![
        0u8,
        1u8,
        1u8,
        2u8,
    ] + le32_bytes(0) + le32_bytes(3)
}

/// Builds the one-triangle `CSGMDL5` payload used to exercise the union
/// decoder.
pub fn test_v5_triangle_payload() -> (r: Vec<u8>)
    ensures
        r@ == v5_triangle_payload(),
{
    let mut b: Vec<u8> = Vec::new();
    let magic = [0x15u8, 0x7du8, 0x29u8, 0x15u8, 0x75u8, 0x6cu8, 0x35u8, 0x04u8, 0x34u8, 0x69u8];
    let mut i: usize = 0;
    while i < 10
        invariant
            0 <= i <= 10,
            magic@ == csgmdl_magic(0x35u8),
            b@ == magic@.take(i as int),
        decreases 10 - i,
    {
        b.push(magic[i]);
        assert(magic@.take(i + 1) =~= magic@.take(i as int).push(magic@[i as int]));
        i = i + 1;
    }
    assert(magic@.take(10) =~= magic@);
    push_le16(&mut b, 3);
    push_le32(&mut b, 0);
    push_le32(&mut b, 0);
    push_le32(&mut b, 0);
    push_le32(&mut b, 0x3f80_0000);
    push_le32(&mut b, 0);
    push_le32(&mut b, 0);
    push_le32(&mut b, 0);
    push_le32(&mut b, 0x3f80_0000);
    push_le32(&mut b, 0);
    push_le16(&mut b, 0);
    push_le32(&mut b, 0);
    push_le16(&mut b, 0);
    push_le16(&mut b, 0);
    push_le16(&mut b, 0);
    push_le16(&mut b, 0);
    push_le32(&mut b, 0);
    push_le32(&mut b, 3);
    push_le32(&mut b, 3);
    b.push(0);
    b.push(1);
    b.push(1);
    b.push(2);
    push_le32(&mut b, 0);
    push_le32(&mut b, 3);
    assert(b@ =~= v5_triangle_payload());
    b
}


/// Every mesh a payload decodes to is valid: triangles whose indices all
/// name vertices.
pub proof fn lemma_decoded_payload_is_valid(bytes: Seq<u8>)
    ensures
        decode_mesh_payload_spec(bytes) matches Ok(m) ==> valid_mesh(m),
{
    match decode_mesh_payload_spec(bytes) {
        Ok(m) => {
            crate::csg::lemma_mesh_fault_valid(m);
            if payload_header_spec(bytes).spec_is_union() {
                match decoded_union_graphics(bytes) {
                    Ok(g) => match union_graphics_mesh(g) {
                        Some(u) => crate::csg::lemma_mesh_fault_valid(u),
                        None => {},
                    },
                    Err(_) => {},
                }
            } else {
                match decoded_mesh(bytes) {
                    Ok(raw) => match raw {
                        RawMeshView::V1 { vertices } => crate::csg::lemma_mesh_fault_valid(v1_mesh(vertices)),
                        RawMeshView::Faces { vertices, faces, lods } => match lods {
                            None => crate::csg::lemma_mesh_fault_valid(faces_mesh(vertices, faces, 0, faces.len() as int)),
                            Some(l) => crate::csg::lemma_mesh_fault_valid(
                                faces_mesh(
                                    vertices,
                                    faces,
                                    highest_detail_range(l, faces.len()).0,
                                    highest_detail_range(l, faces.len()).1,
                                ),
                            ),
                        },
                    },
                    Err(_) => {},
                }
            }
        },
        Err(_) => {},
    }
}

/// A mesh decoded from a payload reads back unchanged from the cache entry
/// written for it, whenever it can be cached at all: the decoded-mesh cache
/// serves exactly what decoding the payload gives.
pub proof fn lemma_decoded_payload_survives_the_cache(bytes: Seq<u8>)
    requires
        decode_mesh_payload_spec(bytes) is Ok,
        crate::csg::cache_encodable(decode_mesh_payload_spec(bytes)->Ok_0),
    ensures
        crate::csg::decode_cached_mesh_spec(crate::csg::cached_mesh_bytes(decode_mesh_payload_spec(bytes)->Ok_0))
            == decode_mesh_payload_spec(bytes),
{
    lemma_decoded_payload_is_valid(bytes);
    crate::csg::lemma_cached_mesh_roundtrip(decode_mesh_payload_spec(bytes)->Ok_0);
}
} // verus!
