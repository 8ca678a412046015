//! The binary side of glTF export: buffer layout, GLB framing, image kinds
//! and relative resource URIs.
use vstd::prelude::*;
use crate::bytes::{le32, le32_bytes, push_le32, le16_bytes, push_le16, lemma_le32_at};
use crate::csg::{UnionMesh, UnionMeshView, UnionVertex, vertex_bytes, vertices_bytes, indices_bytes};
use crate::payload::starts_with;
use crate::text::{push_char, forward_slashes, replace_backslashes, texts};

verus! {

/// The number of padding bytes that bring a length of `n` to a multiple of
/// four.
pub open spec fn padding_len(n: nat) -> nat {
    ((4 - n % 4) % 4) as nat
}

/// `b` followed by `value` repeated until its length is a multiple of four.
pub open spec fn padded(b: Seq<u8>, value: u8) -> Seq<u8> {
    b + Seq::new(padding_len(b.len()), |_i: int| value)
}

/// Appends `value` to `bytes` until its length is a multiple of four.
pub fn pad_to_four(bytes: &mut Vec<u8>, value: u8)
    ensures
        final(bytes)@ == padded(old(bytes)@, value),
        final(bytes)@.len() % 4 == 0,
{
    let ghost start = bytes@;
    while bytes.len() % 4 != 0
        invariant
            start.len() <= bytes@.len() <= start.len() + padding_len(start.len()),
            bytes@ =~= start + Seq::new((bytes@.len() - start.len()) as nat, |_i: int| value),
        decreases start.len() + padding_len(start.len()) - bytes@.len(),
    {
        bytes.push(value);
    }
}

/// The PNG signature.
pub open spec fn png_signature() -> Seq<u8> {
    seq![0x89u8, 0x50u8, 0x4eu8, 0x47u8, 0x0du8, 0x0au8, 0x1au8, 0x0au8]
}

/// The media type of an image, recognised by its signature: PNG, JPEG, or
/// WebP (`RIFF` with `WEBP` at bytes 8 to 11).
pub open spec fn image_mime_spec(b: Seq<u8>) -> Option<Seq<char>> {
    if starts_with(b, png_signature()) {
        Some("image/png"@)
    } else if starts_with(b, seq![0xffu8, 0xd8u8, 0xffu8]) {
        Some("image/jpeg"@)
    } else if starts_with(b, seq![0x52u8, 0x49u8, 0x46u8, 0x46u8]) && b.len() >= 12
        && b.subrange(8, 12) == seq![0x57u8, 0x45u8, 0x42u8, 0x50u8] {
        Some("image/webp"@)
    } else {
        None
    }
}

/// Recognises PNG, JPEG and WebP images by their first bytes.
pub fn image_mime_type(bytes: &[u8]) -> (r: Option<&'static str>)
    ensures
        match r {
            Some(m) => image_mime_spec(bytes@) == Some(m@),
            None => image_mime_spec(bytes@) is None,
        },
{
    let png = [0x89u8, 0x50u8, 0x4eu8, 0x47u8, 0x0du8, 0x0au8, 0x1au8, 0x0au8];
    let jpeg = [0xffu8, 0xd8u8, 0xffu8];
    let riff = [0x52u8, 0x49u8, 0x46u8, 0x46u8];
    assert(png@ =~= png_signature());
    assert(jpeg@ =~= seq![0xffu8, 0xd8u8, 0xffu8]);
    assert(riff@ =~= seq![0x52u8, 0x49u8, 0x46u8, 0x46u8]);
    if crate::payload::bytes_start_with(bytes, &png) {
        Some("image/png")
    } else if crate::payload::bytes_start_with(bytes, &jpeg) {
        Some("image/jpeg")
    } else if crate::payload::bytes_start_with(bytes, &riff) && bytes.len() >= 12 && bytes[8]
        == 0x57u8 && bytes[9] == 0x45u8 && bytes[10] == 0x42u8 && bytes[11] == 0x50u8 {
        assert(bytes@.subrange(8, 12) =~= seq![0x57u8, 0x45u8, 0x42u8, 0x50u8]);
        Some("image/webp")
    } else {
        proof {
            if bytes@.len() >= 12 && bytes@.subrange(8, 12) == seq![0x57u8, 0x45u8, 0x42u8, 0x50u8] {
                assert(bytes@[8] == bytes@.subrange(8, 12)[0]);
                assert(bytes@[9] == bytes@.subrange(8, 12)[1]);
                assert(bytes@[10] == bytes@.subrange(8, 12)[2]);
                assert(bytes@[11] == bytes@.subrange(8, 12)[3]);
            }
        }
        None
    }
}

/// A resource URI that GLB packing can read: neither a `data:` URI nor one
/// with a scheme (`://`).
pub open spec fn is_local_resource_spec(uri: Seq<char>) -> bool {
    &&& !(uri.len() >= 5 && uri.take(5) == "data:"@)
    &&& !(exists|i: int| 0 <= i && i + 3 <= uri.len() && #[trigger] uri.subrange(i, i + 3) == "://"@)
}

/// Whether a resource URI names a local file that GLB packing may read.
pub fn is_local_resource(uri: &str) -> (r: bool)
    ensures
        r == is_local_resource_spec(uri@),
{
    proof {
        reveal_strlit("data:");
        reveal_strlit("://");
    }
    let n = uri.unicode_len();
    if n >= 5 && uri.get_char(0) == 'd' && uri.get_char(1) == 'a' && uri.get_char(2) == 't'
        && uri.get_char(3) == 'a' && uri.get_char(4) == ':' {
        assert(uri@.take(5) =~= "data:"@);
        return false;
    }
    proof {
        if n >= 5 && uri@.take(5) == "data:"@ {
            assert(uri@.take(5)[0] == uri@[0]);
            assert(uri@.take(5)[1] == uri@[1]);
            assert(uri@.take(5)[2] == uri@[2]);
            assert(uri@.take(5)[3] == uri@[3]);
            assert(uri@.take(5)[4] == uri@[4]);
        }
    }
    let mut i: usize = 0;
    while n >= 3 && i <= n - 3
        invariant
            n == uri@.len(),
            i <= n,
            forall|k: int| 0 <= k < i && k + 3 <= n ==> #[trigger] uri@.subrange(k, k + 3) != "://"@,
        decreases n - i,
    {
        let a = uri.get_char(i);
        let b = uri.get_char(i + 1);
        let c = uri.get_char(i + 2);
        if a == ':' && b == '/' && c == '/' {
            proof { reveal_strlit("://"); }
            assert(uri@.subrange(i as int, i + 3) =~= "://"@);
            return false;
        }
        assert(uri@.subrange(i as int, i + 3) != "://"@) by {
            reveal_strlit("://");
            if uri@.subrange(i as int, i + 3) == "://"@ {
                assert(uri@.subrange(i as int, i + 3)[0] == uri@[i as int]);
                assert(uri@.subrange(i as int, i + 3)[1] == uri@[i + 1]);
                assert(uri@.subrange(i as int, i + 3)[2] == uri@[i + 2]);
            }
        }
        i = i + 1;
    }
    true
}

/// The GLB container of a JSON chunk and a binary chunk: the 12-byte header
/// (`glTF`, version 2, total length), the JSON chunk padded with spaces, and
/// the binary chunk padded with zeros, each after its length and type.
pub open spec fn glb_bytes(json: Seq<u8>, bin: Seq<u8>) -> Seq<u8> {
    let j = padded(json, 0x20u8);
    let b = padded(bin, 0u8);
    le32_bytes(0x4654_6c67u32) + le32_bytes(2u32) + le32_bytes((28 + j.len() + b.len()) as u32)
        + le32_bytes(j.len() as u32) + le32_bytes(0x4e4f_534au32) + j + le32_bytes(b.len() as u32)
        + le32_bytes(0x004e_4942u32) + b
}

/// The length of the GLB container of chunks of `j` and `b` bytes.
pub open spec fn glb_length(j: nat, b: nat) -> nat {
    28 + j + padding_len(j) + b + padding_len(b)
}

/// A GLB container reads back as its parts: the header's length field is the
/// container's length, each chunk's length field is that chunk's padded
/// length (a multiple of four), and the chunks hold the JSON text and the
/// binary data at their start.
pub proof fn lemma_glb_layout(json: Seq<u8>, bin: Seq<u8>)
    requires
        glb_length(json.len(), bin.len()) <= u32::MAX,
    ensures
        ({
            let g = glb_bytes(json, bin);
            let jl = (json.len() + padding_len(json.len())) as int;
            let bl = (bin.len() + padding_len(bin.len())) as int;
            &&& g.len() == glb_length(json.len(), bin.len())
            &&& g.len() % 4 == 0
            &&& le32(g, 0) == 0x4654_6c67u32
            &&& le32(g, 4) == 2
            &&& le32(g, 8) == g.len()
            &&& le32(g, 12) == jl
            &&& jl % 4 == 0
            &&& le32(g, 16) == 0x4e4f_534au32
            &&& g.subrange(20, 20 + json.len() as int) == json
            &&& le32(g, 20 + jl) == bl
            &&& bl % 4 == 0
            &&& le32(g, 24 + jl) == 0x004e_4942u32
            &&& g.subrange(28 + jl, 28 + jl + bin.len() as int) == bin
        }),
{
    let g = glb_bytes(json, bin);
    let j = padded(json, 0x20u8);
    let b = padded(bin, 0u8);
    let jl = j.len() as int;
    assert(g.subrange(0, 4) =~= le32_bytes(0x4654_6c67u32));
    assert(g.subrange(4, 8) =~= le32_bytes(2u32));
    assert(g.subrange(8, 12) =~= le32_bytes((28 + j.len() + b.len()) as u32));
    assert(g.subrange(12, 16) =~= le32_bytes(j.len() as u32));
    assert(g.subrange(16, 20) =~= le32_bytes(0x4e4f_534au32));
    assert(g.subrange(20 + jl, 24 + jl) =~= le32_bytes(b.len() as u32));
    assert(g.subrange(24 + jl, 28 + jl) =~= le32_bytes(0x004e_4942u32));
    lemma_le32_at(g, 0, 0x4654_6c67u32);
    lemma_le32_at(g, 4, 2u32);
    lemma_le32_at(g, 8, (28 + j.len() + b.len()) as u32);
    lemma_le32_at(g, 12, j.len() as u32);
    lemma_le32_at(g, 16, 0x4e4f_534au32);
    lemma_le32_at(g, 20 + jl, b.len() as u32);
    lemma_le32_at(g, 24 + jl, 0x004e_4942u32);
    assert(g.subrange(20, 20 + json.len() as int) =~= json);
    assert(g.subrange(28 + jl, 28 + jl + bin.len() as int) =~= bin);
}

/// Frames a JSON chunk and a binary chunk as a GLB container, refusing one
/// whose length does not fit in 32 bits.
pub fn glb_from_chunks(json: Vec<u8>, binary: Vec<u8>) -> (r: Result<Vec<u8>, String>)
    ensures
        r is Ok <==> glb_length(json@.len(), binary@.len()) <= u32::MAX,
        r matches Ok(glb) ==> glb@ == glb_bytes(json@, binary@),
        r matches Err(e) ==> e@ == "GLB is too large"@,
{
    let mut json_chunk = json;
    let mut binary = binary;
    pad_to_four(&mut json_chunk, 0x20u8);
    pad_to_four(&mut binary, 0u8);
    if json_chunk.len() > 0xffff_ffffusize - 28 || binary.len() > 0xffff_ffffusize - 28
        - json_chunk.len() {
        return Err("GLB is too large".to_owned());
    }
    let total = (28 + json_chunk.len() + binary.len()) as u32;
    let mut glb: Vec<u8> = Vec::with_capacity(total as usize);
    push_le32(&mut glb, 0x4654_6c67u32);
    push_le32(&mut glb, 2u32);
    push_le32(&mut glb, total);
    push_le32(&mut glb, json_chunk.len() as u32);
    push_le32(&mut glb, 0x4e4f_534au32);
    let ghost head = glb@;
    let mut i: usize = 0;
    while i < json_chunk.len()
        invariant
            0 <= i <= json_chunk@.len(),
            glb@ =~= head + json_chunk@.take(i as int),
        decreases json_chunk@.len() - i,
    {
        glb.push(json_chunk[i]);
        assert(json_chunk@.take(i + 1) =~= json_chunk@.take(i as int).push(json_chunk@[i as int]));
        i = i + 1;
    }
    assert(json_chunk@.take(json_chunk@.len() as int) =~= json_chunk@);
    push_le32(&mut glb, binary.len() as u32);
    push_le32(&mut glb, 0x004e_4942u32);
    let ghost mid = glb@;
    let mut k: usize = 0;
    while k < binary.len()
        invariant
            0 <= k <= binary@.len(),
            glb@ =~= mid + binary@.take(k as int),
        decreases binary@.len() - k,
    {
        glb.push(binary[k]);
        assert(binary@.take(k + 1) =~= binary@.take(k as int).push(binary@[k as int]));
        k = k + 1;
    }
    assert(binary@.take(binary@.len() as int) =~= binary@);
    assert(glb@ =~= glb_bytes(json@, binary@));
    Ok(glb)
}

/// Appends a resource to a binary buffer at the next four-byte boundary and
/// gives its offset.
pub fn append_aligned(binary: &mut Vec<u8>, resource: &[u8]) -> (offset: usize)
    ensures
        offset == padded(old(binary)@, 0u8).len(),
        final(binary)@ == padded(old(binary)@, 0u8) + resource@,
        offset % 4 == 0,
{
    pad_to_four(binary, 0u8);
    let offset = binary.len();
    let ghost before = binary@;
    let mut i: usize = 0;
    while i < resource.len()
        invariant
            0 <= i <= resource@.len(),
            binary@ =~= before + resource@.take(i as int),
        decreases resource@.len() - i,
    {
        binary.push(resource[i]);
        assert(resource@.take(i + 1) =~= resource@.take(i as int).push(resource@[i as int]));
        i = i + 1;
    }
    assert(resource@.take(resource@.len() as int) =~= resource@);
    offset
}

/// The little-endian 16-bit encodings of `idx`, one after another.
pub open spec fn short_indices_bytes(idx: Seq<u32>) -> Seq<u8>
    decreases idx.len(),
{
    if idx.len() == 0 {
        Seq::empty()
    } else {
        short_indices_bytes(idx.drop_last()) + le16_bytes(idx.last() as u16)
    }
}

/// The encodings of four-component tangents (as `f32` bits), one after
/// another.
pub open spec fn tangents_bytes(t: Seq<[u32; 4]>) -> Seq<u8>
    decreases t.len(),
{
    if t.len() == 0 {
        Seq::empty()
    } else {
        tangents_bytes(t.drop_last()) + le32_bytes(t.last()[0]) + le32_bytes(t.last()[1])
            + le32_bytes(t.last()[2]) + le32_bytes(t.last()[3])
    }
}

/// Every index fits in an unsigned short.
pub open spec fn fits_short_indices(idx: Seq<u32>) -> bool {
    forall|i: int| 0 <= i < idx.len() ==> (#[trigger] idx[i]) <= 0xffff
}

/// Where a primitive's data sits in the binary buffer.
#[derive(Clone, Copy, Debug, PartialEq, Eq)]
pub struct PrimitiveLayout {
    pub vertex_offset: usize,
    pub vertex_length: usize,
    /// The offset and length of the tangents, when they were written.
    pub tangent_view: Option<(usize, usize)>,
    pub index_offset: usize,
    pub index_length: usize,
    /// The indices were written as unsigned shorts (else as unsigned ints).
    pub short_indices: bool,
}

/// The buffer after one primitive: its interleaved vertices (36 bytes
/// each), then, when given, its tangents at the next four-byte boundary,
/// then its indices at the next boundary (as unsigned shorts when they all
/// fit, else as unsigned ints), padded to a boundary.
pub open spec fn primitive_buffer(b: Seq<u8>, m: UnionMeshView, tangents: Option<Seq<[u32; 4]>>) -> Seq<u8> {
    let with_vertices = b + vertices_bytes(m.vertices);
    let with_tangents = match tangents {
        Some(t) => padded(with_vertices, 0u8) + tangents_bytes(t),
        None => with_vertices,
    };
    let index_data = if fits_short_indices(m.indices) {
        short_indices_bytes(m.indices)
    } else {
        indices_bytes(m.indices)
    };
    padded(padded(with_tangents, 0u8) + index_data, 0u8)
}

/// The layout of one primitive appended to a buffer `b`.
pub open spec fn primitive_layout(b: Seq<u8>, m: UnionMeshView, tangents: Option<Seq<[u32; 4]>>) -> PrimitiveLayout {
    let with_vertices = b + vertices_bytes(m.vertices);
    let with_tangents = match tangents {
        Some(t) => padded(with_vertices, 0u8) + tangents_bytes(t),
        None => with_vertices,
    };
    let short = fits_short_indices(m.indices);
    PrimitiveLayout {
        vertex_offset: b.len() as usize,
        vertex_length: (36 * m.vertices.len()) as usize,
        tangent_view: match tangents {
            Some(t) => Some(
                (padded(with_vertices, 0u8).len() as usize, (16 * t.len()) as usize),
            ),
            None => None,
        },
        index_offset: padded(with_tangents, 0u8).len() as usize,
        index_length: (if short { 2 * m.indices.len() } else { 4 * m.indices.len() }) as usize,
        short_indices: short,
    }
}

proof fn lemma_short_indices_bytes_len(idx: Seq<u32>)
    ensures
        short_indices_bytes(idx).len() == 2 * idx.len(),
    decreases idx.len(),
{
    if idx.len() > 0 {
        lemma_short_indices_bytes_len(idx.drop_last());
    }
}

proof fn lemma_tangents_bytes_len(t: Seq<[u32; 4]>)
    ensures
        tangents_bytes(t).len() == 16 * t.len(),
    decreases t.len(),
{
    if t.len() > 0 {
        lemma_tangents_bytes_len(t.drop_last());
    }
}

/// Appends the interleaved encodings of `vertices`.
pub fn append_vertices(binary: &mut Vec<u8>, vertices: &Vec<UnionVertex>)
    ensures
        final(binary)@ == old(binary)@ + vertices_bytes(vertices@),
{
    let ghost b0 = binary@;
    let mut i: usize = 0;
    while i < vertices.len()
        invariant
            0 <= i <= vertices@.len(),
            binary@ == b0 + vertices_bytes(vertices@.take(i as int)),
        decreases vertices@.len() - i,
    {
        let v = vertices[i];
        push_le32(binary, v.position[0]);
        push_le32(binary, v.position[1]);
        push_le32(binary, v.position[2]);
        push_le32(binary, v.normal[0]);
        push_le32(binary, v.normal[1]);
        push_le32(binary, v.normal[2]);
        push_le32(binary, v.tex_coord[0]);
        push_le32(binary, v.tex_coord[1]);
        binary.push(v.color[0]);
        binary.push(v.color[1]);
        binary.push(v.color[2]);
        binary.push(v.color[3]);
        assert(vertices@.take(i + 1).drop_last() =~= vertices@.take(i as int));
        assert(binary@ =~= b0 + vertices_bytes(vertices@.take(i + 1)));
        i = i + 1;
    }
    assert(vertices@.take(vertices@.len() as int) =~= vertices@);
}

/// Appends the encodings of `tangents`.
pub fn append_tangents(binary: &mut Vec<u8>, tangents: &Vec<[u32; 4]>)
    ensures
        final(binary)@ == old(binary)@ + tangents_bytes(tangents@),
{
    let ghost b1 = binary@;
    let mut k: usize = 0;
    while k < tangents.len()
        invariant
            0 <= k <= tangents@.len(),
            binary@ == b1 + tangents_bytes(tangents@.take(k as int)),
        decreases tangents@.len() - k,
    {
        let tangent = tangents[k];
        push_le32(binary, tangent[0]);
        push_le32(binary, tangent[1]);
        push_le32(binary, tangent[2]);
        push_le32(binary, tangent[3]);
        assert(tangents@.take(k + 1).drop_last() =~= tangents@.take(k as int));
        assert(binary@ =~= b1 + tangents_bytes(tangents@.take(k + 1)));
        k = k + 1;
    }
    assert(tangents@.take(tangents@.len() as int) =~= tangents@);
}

/// Whether every index fits in an unsigned short.
pub fn indices_fit_short(indices: &Vec<u32>) -> (r: bool)
    ensures
        r == fits_short_indices(indices@),
{
    let mut j: usize = 0;
    while j < indices.len()
        invariant
            0 <= j <= indices@.len(),
            fits_short_indices(indices@.take(j as int)),
        decreases indices@.len() - j,
    {
        if indices[j] > 0xffff {
            assert(indices@[j as int] > 0xffff);
            return false;
        }
        assert(indices@.take(j + 1) =~= indices@.take(j as int).push(indices@[j as int]));
        j = j + 1;
    }
    assert(indices@.take(indices@.len() as int) =~= indices@);
    true
}

/// Appends the indices as unsigned shorts when `short` (which requires that
/// they all fit), else as unsigned ints.
pub fn append_indices(binary: &mut Vec<u8>, indices: &Vec<u32>, short: bool)
    requires
        short ==> fits_short_indices(indices@),
    ensures
        final(binary)@ == old(binary)@ + (if short {
            short_indices_bytes(indices@)
        } else {
            indices_bytes(indices@)
        }),
{
    let ghost b2 = binary@;
    let mut j: usize = 0;
    while j < indices.len()
        invariant
            0 <= j <= indices@.len(),
            short ==> fits_short_indices(indices@),
            binary@ == b2 + (if short {
                short_indices_bytes(indices@.take(j as int))
            } else {
                indices_bytes(indices@.take(j as int))
            }),
        decreases indices@.len() - j,
    {
        let index = indices[j];
        if short {
            push_le16(binary, index as u16);
        } else {
            push_le32(binary, index);
        }
        assert(indices@.take(j + 1).drop_last() =~= indices@.take(j as int));
        j = j + 1;
    }
    assert(indices@.take(indices@.len() as int) =~= indices@);
}

/// Appends a primitive's vertices, optional tangents and indices to the
/// glTF binary buffer, each at a four-byte boundary, and reports where they
/// went.
pub fn append_primitive(binary: &mut Vec<u8>, mesh: &UnionMesh, tangents: Option<&Vec<[u32; 4]>>) -> (layout: PrimitiveLayout)
    ensures
        final(binary)@ == primitive_buffer(
            old(binary)@,
            mesh@,
            match tangents {
                Some(t) => Some(t@),
                None => None,
            },
        ),
        layout == primitive_layout(
            old(binary)@,
            mesh@,
            match tangents {
                Some(t) => Some(t@),
                None => None,
            },
        ),
{
    proof {
        crate::csg::lemma_vertices_bytes(mesh.vertices@);
        crate::csg::lemma_indices_bytes(mesh.indices@);
        lemma_short_indices_bytes_len(mesh.indices@);
    }
    let vertex_offset = binary.len();
    append_vertices(binary, &mesh.vertices);
    let vertex_length = binary.len() - vertex_offset;
    let tangent_view = match tangents {
        Some(t) => {
            pad_to_four(binary, 0u8);
            let tangent_offset = binary.len();
            proof { lemma_tangents_bytes_len(t@); }
            append_tangents(binary, t);
            Some((tangent_offset, binary.len() - tangent_offset))
        },
        None => None,
    };
    pad_to_four(binary, 0u8);
    let index_offset = binary.len();
    let short = indices_fit_short(&mesh.indices);
    append_indices(binary, &mesh.indices, short);
    let index_length = binary.len() - index_offset;
    pad_to_four(binary, 0u8);
    PrimitiveLayout { vertex_offset, vertex_length, tangent_view, index_offset, index_length, short_indices: short }
}

/// The number of leading components that two paths share.
pub open spec fn common_prefix_len(a: Seq<Seq<char>>, b: Seq<Seq<char>>) -> nat
    decreases a.len(),
{
    if a.len() == 0 || b.len() == 0 || a[0] != b[0] {
        0
    } else {
        1 + common_prefix_len(a.drop_first(), b.drop_first())
    }
}

/// Path components joined with `/`.
pub open spec fn join_path(parts: Seq<Seq<char>>) -> Seq<char>
    decreases parts.len(),
{
    if parts.len() == 0 {
        Seq::empty()
    } else if parts.len() == 1 {
        parts[0]
    } else {
        join_path(parts.drop_last()) + seq!['/'] + parts.last()
    }
}

/// The components of the path from directory `from` to `to`: one `..` for
/// each component of `from` past the shared prefix, then the rest of `to`.
pub open spec fn relative_parts(from: Seq<Seq<char>>, to: Seq<Seq<char>>) -> Seq<Seq<char>> {
    let c = common_prefix_len(from, to);
    Seq::new((from.len() - c) as nat, |_i: int| ".."@) + to.subrange(c as int, to.len() as int)
}

/// The URI of `to` relative to the directory `from`, both given by their
/// components: `None` when they share no leading component, else the
/// relative components joined with `/`, with backslashes turned into `/`.
pub open spec fn relative_uri_spec(from: Seq<Seq<char>>, to: Seq<Seq<char>>) -> Option<Seq<char>> {
    if common_prefix_len(from, to) == 0 {
        None
    } else {
        Some(forward_slashes(join_path(relative_parts(from, to))))
    }
}

proof fn lemma_common_prefix_len(a: Seq<Seq<char>>, b: Seq<Seq<char>>, c: int)
    requires
        0 <= c <= a.len(),
        c <= b.len(),
        forall|k: int| 0 <= k < c ==> a[k] == b[k],
        c == a.len() || c == b.len() || a[c] != b[c],
    ensures
        common_prefix_len(a, b) == c,
    decreases c,
{
    if c > 0 {
        assert(a[0] == b[0]);
        lemma_common_prefix_len(a.drop_first(), b.drop_first(), c - 1);
    }
}

/// Joins components with `/`.
pub fn join_components(parts: &Vec<String>) -> (r: String)
    ensures
        r@ == join_path(texts(parts@)),
{
    let mut r = String::new();
    let mut i: usize = 0;
    while i < parts.len()
        invariant
            0 <= i <= parts@.len(),
            r@ == join_path(texts(parts@.take(i as int))),
        decreases parts@.len() - i,
    {
        let ghost before = texts(parts@.take(i as int));
        if i > 0 {
            push_char(&mut r, '/');
        }
        r.append(parts[i].as_str());
        assert(texts(parts@.take(i + 1)) =~= before.push(parts@[i as int]@));
        assert(texts(parts@.take(i + 1)).drop_last() =~= before);
        i = i + 1;
    }
    assert(parts@.take(parts@.len() as int) =~= parts@);
    r
}

/// The URI of `to` relative to the directory `from_dir`, both given by
/// their path components; `None` when they share no leading component.
pub fn relative_uri(from_dir: &Vec<String>, to: &Vec<String>) -> (r: Option<String>)
    ensures
        match r {
            Some(u) => relative_uri_spec(texts(from_dir@), texts(to@)) == Some(u@),
            None => relative_uri_spec(texts(from_dir@), texts(to@)) is None,
        },
{
    let ghost a = texts(from_dir@);
    let ghost b = texts(to@);
    let mut c: usize = 0;
    while c < from_dir.len() && c < to.len() && from_dir[c] == to[c]
        invariant
            a == texts(from_dir@),
            b == texts(to@),
            0 <= c <= from_dir@.len(),
            c <= to@.len(),
            forall|k: int| 0 <= k < c ==> a[k] == b[k],
        decreases from_dir@.len() - c,
    {
        c = c + 1;
    }
    proof { lemma_common_prefix_len(a, b, c as int); }
    if c == 0 {
        return None;
    }
    let mut parts: Vec<String> = Vec::new();
    let mut i: usize = c;
    while i < from_dir.len()
        invariant
            c <= i <= from_dir@.len(),
            texts(parts@) =~= Seq::new((i - c) as nat, |_k: int| ".."@),
        decreases from_dir@.len() - i,
    {
        let ghost before = parts@;
        let up = "..".to_owned();
        parts.push(up);
        assert(texts(parts@) =~= texts(before).push(".."@));
        i = i + 1;
    }
    let mut j: usize = c;
    while j < to.len()
        invariant
            b == texts(to@),
            c <= j <= to@.len(),
            c <= from_dir@.len(),
            texts(parts@) =~= Seq::new((from_dir@.len() - c) as nat, |_k: int| ".."@)
                + b.subrange(c as int, j as int),
        decreases to@.len() - j,
    {
        let ghost before = parts@;
        let part = to[j].clone();
        parts.push(part);
        assert(texts(parts@) =~= texts(before).push(b[j as int]));
        assert(b.subrange(c as int, j + 1) =~= b.subrange(c as int, j as int).push(b[j as int]));
        j = j + 1;
    }
    let joined = join_components(&parts);
    Some(replace_backslashes(joined.as_str()))
}


/// Why a glTF resource cannot go into a GLB: it is not a local file.
pub open spec fn local_resource_check(uri: Seq<char>) -> Result<(), Seq<char>> {
    if is_local_resource_spec(uri) {
        Ok(())
    } else {
        Err("GLB conversion only supports local external resources, got "@ + uri)
    }
}

/// Refuses a resource URI that GLB packing cannot read.
pub fn check_local_resource(uri: &str) -> (r: Result<(), String>)
    ensures
        match r {
            Ok(()) => local_resource_check(uri@) == Ok::<(), Seq<char>>(()),
            Err(e) => local_resource_check(uri@) == Err::<(), Seq<char>>(e@),
        },
{
    if is_local_resource(uri) {
        Ok(())
    } else {
        let mut e = "GLB conversion only supports local external resources, got ".to_owned();
        e.append(uri);
        Err(e)
    }
}

/// Where an image was packed into the binary buffer.
#[derive(Clone, Copy, Debug, PartialEq, Eq)]
pub struct PackedImage {
    /// The index of the buffer view added for it.
    pub buffer_view: usize,
    pub byte_offset: usize,
    pub byte_length: usize,
}

/// The contents of the images to pack; `None` for one without a URI.
pub open spec fn image_contents(images: Seq<Option<Vec<u8>>>) -> Seq<Option<Seq<u8>>> {
    images.map_values(|i: Option<Vec<u8>>| match i {
        Some(b) => Some(b@),
        None => None,
    })
}

/// The buffer after packing the images: each one with contents at the next
/// four-byte boundary, in order.
pub open spec fn packed_buffer(b: Seq<u8>, images: Seq<Option<Seq<u8>>>) -> Seq<u8>
    decreases images.len(),
{
    if images.len() == 0 {
        b
    } else {
        let before = packed_buffer(b, images.drop_last());
        match images.last() {
            Some(x) => padded(before, 0u8) + x,
            None => before,
        }
    }
}

/// The number of images that have contents.
pub open spec fn packed_count(images: Seq<Option<Seq<u8>>>) -> nat
    decreases images.len(),
{
    if images.len() == 0 {
        0
    } else {
        packed_count(images.drop_last()) + if images.last() is Some { 1nat } else { 0nat }
    }
}

/// Where image `i` lands when the images are packed after `b`, whose
/// document already has `view_count` buffer views.
pub open spec fn packed_image(b: Seq<u8>, images: Seq<Option<Seq<u8>>>, view_count: nat, i: int) -> Option<PackedImage> {
    match images[i] {
        Some(x) => Some(
            PackedImage {
                buffer_view: (view_count + packed_count(images.take(i))) as usize,
                byte_offset: padded(packed_buffer(b, images.take(i)), 0u8).len() as usize,
                byte_length: x.len() as usize,
            },
        ),
        None => None,
    }
}

/// Appends the contents of each image that has them to the binary buffer,
/// each at a four-byte boundary, and says where each went: the buffer view
/// added for it (numbered from `view_count`, in order), its offset and its
/// length.
pub fn pack_images(binary: &mut Vec<u8>, images: &Vec<Option<Vec<u8>>>, view_count: usize) -> (r: Vec<Option<PackedImage>>)
    requires
        view_count + images@.len() <= usize::MAX,
    ensures
        final(binary)@ == packed_buffer(old(binary)@, image_contents(images@)),
        r@.len() == images@.len(),
        forall|i: int| 0 <= i < images@.len() ==> #[trigger] r@[i] == packed_image(
            old(binary)@,
            image_contents(images@),
            view_count as nat,
            i,
        ),
{
    let ghost start = binary@;
    let ghost all = image_contents(images@);
    let mut placed: Vec<Option<PackedImage>> = Vec::new();
    let mut count: usize = 0;
    let mut i: usize = 0;
    assert(all.take(0) =~= Seq::<Option<Seq<u8>>>::empty());
    while i < images.len()
        invariant
            all == image_contents(images@),
            start == old(binary)@,
            view_count + images@.len() <= usize::MAX,
            0 <= i <= images@.len(),
            binary@ == packed_buffer(start, all.take(i as int)),
            count == packed_count(all.take(i as int)),
            count <= i,
            placed@.len() == i,
            forall|k: int| 0 <= k < i ==> #[trigger] placed@[k] == packed_image(start, all, view_count as nat, k),
        decreases images@.len() - i,
    {
        assert(all.take(i + 1).drop_last() =~= all.take(i as int));
        assert(all.take(i + 1).last() == all[i as int]);
        match &images[i] {
            Some(contents) => {
                let offset = append_aligned(binary, contents.as_slice());
                placed.push(Some(PackedImage { buffer_view: view_count + count, byte_offset: offset, byte_length: contents.len() }));
                count = count + 1;
            },
            None => {
                placed.push(None);
            },
        }
        i = i + 1;
    }
    assert(all.take(images@.len() as int) =~= all);
    placed
}

/// A buffer view of the document's single binary buffer.
#[derive(Clone, Copy, Debug, PartialEq, Eq)]
pub struct BufferViewRecord {
    pub byte_offset: usize,
    pub byte_length: usize,
    pub byte_stride: Option<usize>,
    /// `34962` for vertex attributes, `34963` for indices.
    pub target: Option<u32>,
}

/// The shape of an accessor's elements.
#[derive(Clone, Copy, Debug, PartialEq, Eq)]
pub enum AccessorType {
    Scalar,
    Vec2,
    Vec3,
    Vec4,
}

/// An accessor into a buffer view. The position accessor also carries the
/// bounds of the positions, which are floating-point and added by the
/// caller.
#[derive(Clone, Copy, Debug, PartialEq, Eq)]
pub struct AccessorRecord {
    pub buffer_view: usize,
    pub byte_offset: Option<usize>,
    /// `5126` for floats, `5121` for unsigned bytes, `5123` and `5125` for
    /// unsigned shorts and ints.
    pub component_type: u32,
    pub normalized: bool,
    pub count: usize,
    pub accessor_type: AccessorType,
}

/// The accessors of one mesh primitive.
#[derive(Clone, Copy, Debug, PartialEq, Eq)]
pub struct PrimitiveAccessors {
    pub position: usize,
    pub normal: usize,
    pub tex_coord: usize,
    pub color: usize,
    pub tangent: Option<usize>,
    pub indices: usize,
}

/// The buffer views of a primitive laid out as `l`: the interleaved
/// vertices (stride 36), the tangents when there are any, the indices.
pub open spec fn primitive_views(l: PrimitiveLayout) -> Seq<BufferViewRecord> {
    let vertices = BufferViewRecord {
        byte_offset: l.vertex_offset,
        byte_length: l.vertex_length,
        byte_stride: Some(36usize),
        target: Some(34962u32),
    };
    let indices = BufferViewRecord {
        byte_offset: l.index_offset,
        byte_length: l.index_length,
        byte_stride: None,
        target: Some(34963u32),
    };
    match l.tangent_view {
        Some((offset, length)) => seq![
            vertices,
            BufferViewRecord { byte_offset: offset, byte_length: length, byte_stride: None, target: Some(34962u32) },
            indices,
        ],
        None => seq![vertices, indices],
    }
}

/// The accessors of a primitive with `vertex_count` vertices and
/// `index_count` indices laid out as `l`, whose first buffer view is view
/// `first_view`: position, normal, texture coordinate and color within the
/// vertex view (at byte offsets 0, 12, 24 and 32), the tangents, the indices.
pub open spec fn primitive_accessor_records(
    first_view: nat,
    l: PrimitiveLayout,
    vertex_count: usize,
    index_count: usize,
) -> Seq<AccessorRecord> {
    let v = first_view as usize;
    let attributes = seq![
        AccessorRecord { buffer_view: v, byte_offset: Some(0usize), component_type: 5126u32, normalized: false, count: vertex_count, accessor_type: AccessorType::Vec3 },
        AccessorRecord { buffer_view: v, byte_offset: Some(12usize), component_type: 5126u32, normalized: false, count: vertex_count, accessor_type: AccessorType::Vec3 },
        AccessorRecord { buffer_view: v, byte_offset: Some(24usize), component_type: 5126u32, normalized: false, count: vertex_count, accessor_type: AccessorType::Vec2 },
        AccessorRecord { buffer_view: v, byte_offset: Some(32usize), component_type: 5121u32, normalized: true, count: vertex_count, accessor_type: AccessorType::Vec4 },
    ];
    let index_type = if l.short_indices { 5123u32 } else { 5125u32 };
    match l.tangent_view {
        Some(_) => attributes + seq![
            AccessorRecord { buffer_view: (first_view + 1) as usize, byte_offset: None, component_type: 5126u32, normalized: false, count: vertex_count, accessor_type: AccessorType::Vec4 },
            AccessorRecord { buffer_view: (first_view + 2) as usize, byte_offset: None, component_type: index_type, normalized: false, count: index_count, accessor_type: AccessorType::Scalar },
        ],
        None => attributes + seq![
            AccessorRecord { buffer_view: (first_view + 1) as usize, byte_offset: None, component_type: index_type, normalized: false, count: index_count, accessor_type: AccessorType::Scalar },
        ],
    }
}

/// The little-endian words of three `f32` bit patterns.
pub open spec fn words3(w: [u32; 3]) -> Seq<u8> {
    le32_bytes(w[0]) + le32_bytes(w[1]) + le32_bytes(w[2])
}

/// The little-endian words of two `f32` bit patterns.
pub open spec fn words2(w: [u32; 2]) -> Seq<u8> {
    le32_bytes(w[0]) + le32_bytes(w[1])
}

/// The bytes that an accessor with byte offset `o` reads for element `i` of
/// a buffer view that starts at `view_offset` with a stride of 36 bytes.
pub open spec fn strided_element(f: Seq<u8>, view_offset: int, o: int, i: int, size: int) -> Seq<u8> {
    f.subrange(view_offset + 36 * i + o, view_offset + 36 * i + o + size)
}

proof fn lemma_vertex_fields(v: UnionVertex)
    ensures
        vertex_bytes(v).subrange(0, 12) == words3(v.position),
        vertex_bytes(v).subrange(12, 24) == words3(v.normal),
        vertex_bytes(v).subrange(24, 32) == words2(v.tex_coord),
        vertex_bytes(v).subrange(32, 36) == seq![v.color[0], v.color[1], v.color[2], v.color[3]],
{
    assert(vertex_bytes(v).subrange(0, 12) =~= words3(v.position));
    assert(vertex_bytes(v).subrange(12, 24) =~= words3(v.normal));
    assert(vertex_bytes(v).subrange(24, 32) =~= words2(v.tex_coord));
    assert(vertex_bytes(v).subrange(32, 36) =~= seq![v.color[0], v.color[1], v.color[2], v.color[3]]);
}

/// The attribute accessors of a primitive read the mesh's attributes back:
/// all four name the primitive's first buffer view, which holds the
/// vertices with a stride of 36 bytes, and for every vertex `i` the bytes
/// the position accessor reads at its byte offset are the vertex's
/// position, those the normal accessor reads its normal, those the
/// texture-coordinate accessor reads its texture coordinate, and those the
/// color accessor reads its color.
#[verifier::rlimit(40)]
pub proof fn lemma_accessors_read_attributes(
    b: Seq<u8>,
    m: UnionMeshView,
    tangents: Option<Seq<[u32; 4]>>,
    first_view: nat,
    i: int,
)
    requires
        primitive_buffer(b, m, tangents).len() <= usize::MAX,
        first_view < usize::MAX,
        0 <= i < m.vertices.len(),
    ensures
        ({
            let f = primitive_buffer(b, m, tangents);
            let l = primitive_layout(b, m, tangents);
            let acc = primitive_accessor_records(first_view, l, m.vertices.len() as usize, m.indices.len() as usize);
            let view = primitive_views(l)[0];
            let v = m.vertices[i];
            &&& view.byte_offset == l.vertex_offset && view.byte_stride == Some(36usize)
            &&& acc[0].buffer_view == first_view && acc[1].buffer_view == first_view
            &&& acc[2].buffer_view == first_view && acc[3].buffer_view == first_view
            &&& acc[0].byte_offset is Some && acc[1].byte_offset is Some
            &&& acc[2].byte_offset is Some && acc[3].byte_offset is Some
            &&& strided_element(f, view.byte_offset as int, acc[0].byte_offset->Some_0 as int, i, 12) == words3(v.position)
            &&& strided_element(f, view.byte_offset as int, acc[1].byte_offset->Some_0 as int, i, 12) == words3(v.normal)
            &&& strided_element(f, view.byte_offset as int, acc[2].byte_offset->Some_0 as int, i, 8) == words2(v.tex_coord)
            &&& strided_element(f, view.byte_offset as int, acc[3].byte_offset->Some_0 as int, i, 4)
                == seq![v.color[0], v.color[1], v.color[2], v.color[3]]
        }),
{
    let f = primitive_buffer(b, m, tangents);
    let l = primitive_layout(b, m, tangents);
    lemma_primitive_reads_back(b, m, tangents);
    crate::csg::lemma_vertices_bytes(m.vertices);
    let v = m.vertices[i];
    lemma_vertex_fields(v);
    let vb = vertices_bytes(m.vertices);
    let vo = l.vertex_offset as int;
    assert(f.subrange(vo, vo + l.vertex_length) == vb);
    assert(vb.subrange(36 * i, 36 * i + 36) == vertex_bytes(v));
    assert(strided_element(f, vo, 0, i, 12) =~= vertex_bytes(v).subrange(0, 12));
    assert(strided_element(f, vo, 12, i, 12) =~= vertex_bytes(v).subrange(12, 24));
    assert(strided_element(f, vo, 24, i, 8) =~= vertex_bytes(v).subrange(24, 32));
    assert(strided_element(f, vo, 32, i, 4) =~= vertex_bytes(v).subrange(32, 36));
}

/// The buffer views all lie within the buffer and every accessor names a
/// buffer view.
pub open spec fn references_valid(binary: Seq<u8>, views: Seq<BufferViewRecord>, accessors: Seq<AccessorRecord>) -> bool {
    &&& forall|i: int| 0 <= i < views.len() ==> #[trigger] views[i].byte_offset + views[i].byte_length <= binary.len()
    &&& forall|i: int| 0 <= i < accessors.len() ==> #[trigger] accessors[i].buffer_view < views.len()
}

/// Appends a primitive to the binary buffer (see [`append_primitive`]) and
/// records its buffer views and accessors, saying which accessors are its
/// attributes and indices. Every buffer view stays within the buffer and
/// every accessor names a buffer view.
pub fn add_primitive(
    binary: &mut Vec<u8>,
    views: &mut Vec<BufferViewRecord>,
    accessors: &mut Vec<AccessorRecord>,
    mesh: &UnionMesh,
    tangents: Option<&Vec<[u32; 4]>>,
) -> (r: PrimitiveAccessors)
    requires
        old(views)@.len() + 3 <= usize::MAX,
        old(accessors)@.len() + 6 <= usize::MAX,
    ensures
        ({
            let t = match tangents {
                Some(t) => Some(t@),
                None => None,
            };
            let l = primitive_layout(old(binary)@, mesh@, t);
            let a = old(accessors)@.len();
            &&& final(binary)@ == primitive_buffer(old(binary)@, mesh@, t)
            &&& final(views)@ == old(views)@ + primitive_views(l)
            &&& final(accessors)@ == old(accessors)@ + primitive_accessor_records(
                old(views)@.len(),
                l,
                mesh.vertices@.len() as usize,
                mesh.indices@.len() as usize,
            )
            &&& r == (PrimitiveAccessors {
                position: a as usize,
                normal: (a + 1) as usize,
                tex_coord: (a + 2) as usize,
                color: (a + 3) as usize,
                tangent: if tangents is Some { Some((a + 4) as usize) } else { None },
                indices: (if tangents is Some { a + 5 } else { a + 4 }) as usize,
            })
        }),
        references_valid(old(binary)@, old(views)@, old(accessors)@) ==> references_valid(
            final(binary)@,
            final(views)@,
            final(accessors)@,
        ),
        forall|i: int| 0 <= i < mesh.vertices@.len() ==> {
            let f = final(binary)@;
            let p = final(accessors)@[r.position as int];
            let n = final(accessors)@[r.normal as int];
            let t = final(accessors)@[r.tex_coord as int];
            let c = final(accessors)@[r.color as int];
            let view = final(views)@[p.buffer_view as int];
            let v = #[trigger] mesh.vertices@[i];
            &&& n.buffer_view == p.buffer_view && t.buffer_view == p.buffer_view && c.buffer_view == p.buffer_view
            &&& view.byte_stride == Some(36usize)
            &&& p.byte_offset is Some && n.byte_offset is Some && t.byte_offset is Some && c.byte_offset is Some
            &&& strided_element(f, view.byte_offset as int, p.byte_offset->Some_0 as int, i, 12) == words3(v.position)
            &&& strided_element(f, view.byte_offset as int, n.byte_offset->Some_0 as int, i, 12) == words3(v.normal)
            &&& strided_element(f, view.byte_offset as int, t.byte_offset->Some_0 as int, i, 8) == words2(v.tex_coord)
            &&& strided_element(f, view.byte_offset as int, c.byte_offset->Some_0 as int, i, 4)
                == seq![v.color[0], v.color[1], v.color[2], v.color[3]]
        },
{
    let ghost b0 = binary@;
    let ghost v0 = views@;
    let ghost a0 = accessors@;
    let layout = append_primitive(binary, mesh, tangents);
    proof { lemma_primitive_buffer_bounds(b0, mesh@, match tangents { Some(t) => Some(t@), None => None }); }
    let first_view = views.len();
    let vertex_count = mesh.vertices.len();
    let index_count = mesh.indices.len();
    views.push(BufferViewRecord { byte_offset: layout.vertex_offset, byte_length: layout.vertex_length, byte_stride: Some(36), target: Some(34962) });
    let tangent_view = match layout.tangent_view {
        Some((offset, length)) => {
            views.push(BufferViewRecord { byte_offset: offset, byte_length: length, byte_stride: None, target: Some(34962) });
            Some(first_view + 1)
        },
        None => None,
    };
    let index_view = views.len();
    views.push(BufferViewRecord { byte_offset: layout.index_offset, byte_length: layout.index_length, byte_stride: None, target: Some(34963) });
    let first = accessors.len();
    accessors.push(AccessorRecord { buffer_view: first_view, byte_offset: Some(0), component_type: 5126, normalized: false, count: vertex_count, accessor_type: AccessorType::Vec3 });
    accessors.push(AccessorRecord { buffer_view: first_view, byte_offset: Some(12), component_type: 5126, normalized: false, count: vertex_count, accessor_type: AccessorType::Vec3 });
    accessors.push(AccessorRecord { buffer_view: first_view, byte_offset: Some(24), component_type: 5126, normalized: false, count: vertex_count, accessor_type: AccessorType::Vec2 });
    accessors.push(AccessorRecord { buffer_view: first_view, byte_offset: Some(32), component_type: 5121, normalized: true, count: vertex_count, accessor_type: AccessorType::Vec4 });
    let tangent = match tangent_view {
        Some(view) => {
            accessors.push(AccessorRecord { buffer_view: view, byte_offset: None, component_type: 5126, normalized: false, count: vertex_count, accessor_type: AccessorType::Vec4 });
            Some(first + 4)
        },
        None => None,
    };
    let indices = accessors.len();
    let index_type: u32 = if layout.short_indices { 5123 } else { 5125 };
    accessors.push(AccessorRecord { buffer_view: index_view, byte_offset: None, component_type: index_type, normalized: false, count: index_count, accessor_type: AccessorType::Scalar });
    let ghost t = match tangents {
        Some(t) => Some(t@),
        None => None,
    };
    assert(views@ =~= v0 + primitive_views(layout));
    assert(accessors@ =~= a0 + primitive_accessor_records(v0.len(), layout, vertex_count, index_count));
    assert(binary@ == primitive_buffer(b0, mesh@, t));
    let total = binary.len();
    assert(binary@.len() == total as nat);
    assert forall|i: int| 0 <= i < mesh.vertices@.len() implies {
        let f = binary@;
        let p = accessors@[first as int];
        let n = accessors@[first + 1];
        let tc = accessors@[first + 2];
        let c = accessors@[first + 3];
        let view = views@[p.buffer_view as int];
        let v = #[trigger] mesh.vertices@[i];
        &&& n.buffer_view == p.buffer_view && tc.buffer_view == p.buffer_view && c.buffer_view == p.buffer_view
        &&& view.byte_stride == Some(36usize)
        &&& p.byte_offset is Some && n.byte_offset is Some && tc.byte_offset is Some && c.byte_offset is Some
        &&& strided_element(f, view.byte_offset as int, p.byte_offset->Some_0 as int, i, 12) == words3(v.position)
        &&& strided_element(f, view.byte_offset as int, n.byte_offset->Some_0 as int, i, 12) == words3(v.normal)
        &&& strided_element(f, view.byte_offset as int, tc.byte_offset->Some_0 as int, i, 8) == words2(v.tex_coord)
        &&& strided_element(f, view.byte_offset as int, c.byte_offset->Some_0 as int, i, 4)
            == seq![v.color[0], v.color[1], v.color[2], v.color[3]]
    } by {
        lemma_accessors_read_attributes(b0, mesh@, t, v0.len(), i);
        assert(views@[v0.len() as int] == primitive_views(layout)[0]);
        assert(accessors@[first as int] == primitive_accessor_records(v0.len(), layout, vertex_count, index_count)[0]);
        assert(accessors@[first + 1] == primitive_accessor_records(v0.len(), layout, vertex_count, index_count)[1]);
        assert(accessors@[first + 2] == primitive_accessor_records(v0.len(), layout, vertex_count, index_count)[2]);
        assert(accessors@[first + 3] == primitive_accessor_records(v0.len(), layout, vertex_count, index_count)[3]);
    }
    PrimitiveAccessors { position: first, normal: first + 1, tex_coord: first + 2, color: first + 3, tangent, indices }
}

/// The views of a primitive lie within the buffer it was written to, which
/// only grew.
proof fn lemma_primitive_buffer_bounds(b: Seq<u8>, m: UnionMeshView, tangents: Option<Seq<[u32; 4]>>)
    ensures
        ({
            let l = primitive_layout(b, m, tangents);
            let f = primitive_buffer(b, m, tangents);
            &&& b.len() <= f.len()
            &&& l.vertex_offset + l.vertex_length <= f.len()
            &&& l.index_offset + l.index_length <= f.len()
            &&& (l.tangent_view matches Some((o, n)) ==> o + n <= f.len())
        }),
{
    crate::csg::lemma_vertices_bytes(m.vertices);
    crate::csg::lemma_indices_bytes(m.indices);
    lemma_short_indices_bytes_len(m.indices);
    match tangents {
        Some(t) => lemma_tangents_bytes_len(t),
        None => {},
    }
}

/// Packing more images only appends to the buffer.
proof fn lemma_packed_buffer_prefix(b: Seq<u8>, images: Seq<Option<Seq<u8>>>, k: int)
    requires
        0 <= k <= images.len(),
    ensures
        packed_buffer(b, images.take(k)).len() <= packed_buffer(b, images).len(),
        packed_buffer(b, images).subrange(0, packed_buffer(b, images.take(k)).len() as int)
            == packed_buffer(b, images.take(k)),
    decreases images.len() - k,
{
    if k == images.len() {
        assert(images.take(k) =~= images);
        assert(packed_buffer(b, images).subrange(0, packed_buffer(b, images).len() as int) =~= packed_buffer(b, images));
    } else {
        lemma_packed_buffer_prefix(b, images, k + 1);
        let shorter = packed_buffer(b, images.take(k));
        let longer = packed_buffer(b, images.take(k + 1));
        let whole = packed_buffer(b, images);
        assert(images.take(k + 1).drop_last() =~= images.take(k));
        assert(longer.subrange(0, shorter.len() as int) =~= shorter);
        assert(whole.subrange(0, shorter.len() as int) =~= whole.subrange(0, longer.len() as int).subrange(0, shorter.len() as int));
    }
}

/// Packed images read back: the bytes of the final buffer at each packed
/// image's offset and length are that image's contents, and the buffer
/// before packing stays at its start.
pub proof fn lemma_packed_images_read_back(b: Seq<u8>, images: Seq<Option<Seq<u8>>>, view_count: nat, i: int)
    requires
        0 <= i < images.len(),
        images[i] is Some,
        packed_buffer(b, images).len() <= usize::MAX,
    ensures
        ({
            let f = packed_buffer(b, images);
            let p = packed_image(b, images, view_count, i)->Some_0;
            &&& p.byte_offset + p.byte_length <= f.len()
            &&& f.subrange(p.byte_offset as int, p.byte_offset + p.byte_length) == images[i]->Some_0
            &&& f.subrange(0, b.len() as int) == b
        }),
{
    let x = images[i]->Some_0;
    let before = packed_buffer(b, images.take(i));
    let after = packed_buffer(b, images.take(i + 1));
    let f = packed_buffer(b, images);
    assert(images.take(i + 1).drop_last() =~= images.take(i));
    assert(images.take(i + 1).last() == images[i]);
    assert(after == padded(before, 0u8) + x);
    lemma_packed_buffer_prefix(b, images, i + 1);
    lemma_packed_buffer_prefix(b, images, 0);
    assert(images.take(0) =~= Seq::<Option<Seq<u8>>>::empty());
    let start = padded(before, 0u8).len() as int;
    assert(packed_image(b, images, view_count, i)->Some_0.byte_offset == start);
    assert(packed_image(b, images, view_count, i)->Some_0.byte_length == x.len());
    assert(after.subrange(start, start + x.len()) =~= x);
    assert(f.subrange(start, start + x.len()) =~= f.subrange(0, after.len() as int).subrange(start, start + x.len()));
}

/// A primitive reads back from the buffer it was appended to: the buffer
/// before it stays at the start, and at each offset and length its layout
/// reports lie its interleaved vertices, its tangents when given, and its
/// indices in the width the layout names.
#[verifier::spinoff_prover]
#[verifier::rlimit(40)]
pub proof fn lemma_primitive_reads_back(b: Seq<u8>, m: UnionMeshView, tangents: Option<Seq<[u32; 4]>>)
    requires
        primitive_buffer(b, m, tangents).len() <= usize::MAX,
    ensures
        ({
            let f = primitive_buffer(b, m, tangents);
            let l = primitive_layout(b, m, tangents);
            &&& f.subrange(0, b.len() as int) == b
            &&& l.vertex_offset + l.vertex_length <= f.len()
            &&& f.subrange(l.vertex_offset as int, l.vertex_offset + l.vertex_length) == vertices_bytes(m.vertices)
            &&& (tangents matches Some(t) ==> (l.tangent_view matches Some((o, n)) && o + n <= f.len()
                && f.subrange(o as int, o + n) == tangents_bytes(t)))
            &&& l.index_offset + l.index_length <= f.len()
            &&& f.subrange(l.index_offset as int, l.index_offset + l.index_length) == if l.short_indices {
                short_indices_bytes(m.indices)
            } else {
                indices_bytes(m.indices)
            }
        }),
{
    crate::csg::lemma_vertices_bytes(m.vertices);
    crate::csg::lemma_indices_bytes(m.indices);
    lemma_short_indices_bytes_len(m.indices);
    let f = primitive_buffer(b, m, tangents);
    let with_vertices = b + vertices_bytes(m.vertices);
    let with_tangents = match tangents {
        Some(t) => padded(with_vertices, 0u8) + tangents_bytes(t),
        None => with_vertices,
    };
    let index_data = if fits_short_indices(m.indices) {
        short_indices_bytes(m.indices)
    } else {
        indices_bytes(m.indices)
    };
    let before_pad = padded(with_tangents, 0u8) + index_data;
    assert(f == padded(before_pad, 0u8));
    assert(f.subrange(0, before_pad.len() as int) =~= before_pad);
    assert(before_pad.subrange(0, padded(with_tangents, 0u8).len() as int) =~= padded(with_tangents, 0u8));
    assert(padded(with_tangents, 0u8).subrange(0, with_tangents.len() as int) =~= with_tangents);
    let it = padded(with_tangents, 0u8).len() as int;
    assert(before_pad.subrange(it, it + index_data.len()) =~= index_data);
    assert(f.subrange(it, it + index_data.len()) =~= before_pad.subrange(it, it + index_data.len()));
    match tangents {
        Some(t) => {
            lemma_tangents_bytes_len(t);
            let pv = padded(with_vertices, 0u8);
            assert(with_tangents.subrange(0, pv.len() as int) =~= pv);
            assert(pv.subrange(0, with_vertices.len() as int) =~= with_vertices);
            let tl = tangents_bytes(t).len() as int;
            assert(with_tangents.subrange(pv.len() as int, pv.len() + tl) =~= tangents_bytes(t));
            assert(f.subrange(pv.len() as int, pv.len() + tl) =~= with_tangents.subrange(pv.len() as int, pv.len() + tl));
            assert(f.subrange(0, with_vertices.len() as int) =~= with_vertices);
        },
        None => {
            assert(f.subrange(0, with_vertices.len() as int) =~= with_vertices);
        },
    }
    assert(with_vertices.subrange(0, b.len() as int) =~= b);
    assert(with_vertices.subrange(b.len() as int, with_vertices.len() as int) =~= vertices_bytes(m.vertices));
    assert(f.subrange(0, b.len() as int) =~= b);
    assert(f.subrange(b.len() as int, with_vertices.len() as int) =~= vertices_bytes(m.vertices));
}

/// The directory reached from `base` by following `parts` one after
/// another: `..` leaves the last component, any other part enters it.
pub open spec fn resolve_parts(base: Seq<Seq<char>>, parts: Seq<Seq<char>>) -> Seq<Seq<char>>
    decreases parts.len(),
{
    if parts.len() == 0 {
        base
    } else {
        let reached = resolve_parts(base, parts.drop_last());
        if parts.last() == ".."@ {
            reached.drop_last()
        } else {
            reached.push(parts.last())
        }
    }
}

proof fn lemma_resolve_concat(base: Seq<Seq<char>>, a: Seq<Seq<char>>, b: Seq<Seq<char>>)
    ensures
        resolve_parts(base, a + b) == resolve_parts(resolve_parts(base, a), b),
    decreases b.len(),
{
    if b.len() == 0 {
        assert(a + b =~= a);
    } else {
        assert((a + b).drop_last() =~= a + b.drop_last());
        assert((a + b).last() == b.last());
        lemma_resolve_concat(base, a, b.drop_last());
    }
}

proof fn lemma_resolve_ups(base: Seq<Seq<char>>, n: nat)
    requires
        n <= base.len(),
    ensures
        resolve_parts(base, Seq::new(n, |_i: int| ".."@)) == base.take(base.len() - n),
    decreases n,
{
    if n == 0 {
        assert(Seq::new(0, |_i: int| ".."@) =~= Seq::<Seq<char>>::empty());
        assert(base.take(base.len() as int) =~= base);
    } else {
        let ups = Seq::new(n, |_i: int| ".."@);
        assert(ups.drop_last() =~= Seq::new((n - 1) as nat, |_i: int| ".."@));
        lemma_resolve_ups(base, (n - 1) as nat);
        assert(base.take(base.len() - (n - 1)).drop_last() =~= base.take(base.len() - n));
    }
}

proof fn lemma_resolve_plain(base: Seq<Seq<char>>, parts: Seq<Seq<char>>)
    requires
        forall|k: int| 0 <= k < parts.len() ==> parts[k] != ".."@,
    ensures
        resolve_parts(base, parts) == base + parts,
    decreases parts.len(),
{
    if parts.len() == 0 {
        assert(base + parts =~= base);
    } else {
        lemma_resolve_plain(base, parts.drop_last());
        assert(parts.last() == parts[parts.len() - 1]);
        assert((base + parts.drop_last()).push(parts.last()) =~= base + parts);
    }
}

proof fn lemma_common_prefix_equal(a: Seq<Seq<char>>, b: Seq<Seq<char>>)
    ensures
        common_prefix_len(a, b) <= a.len(),
        common_prefix_len(a, b) <= b.len(),
        forall|k: int| 0 <= k < common_prefix_len(a, b) ==> a[k] == b[k],
    decreases a.len(),
{
    if !(a.len() == 0 || b.len() == 0 || a[0] != b[0]) {
        lemma_common_prefix_equal(a.drop_first(), b.drop_first());
        assert forall|k: int| 0 <= k < common_prefix_len(a, b) implies a[k] == b[k] by {
            if k > 0 {
                assert(a[k] == a.drop_first()[k - 1]);
                assert(b[k] == b.drop_first()[k - 1]);
            }
        }
    }
}

/// The relative URI leads from the directory to the file: following its
/// parts from `from` reaches `to`, whenever the part of `to` past the shared
/// prefix holds no `..`.
pub proof fn lemma_relative_parts_reach_target(from: Seq<Seq<char>>, to: Seq<Seq<char>>)
    requires
        forall|k: int| common_prefix_len(from, to) <= k < to.len() ==> to[k] != ".."@,
    ensures
        resolve_parts(from, relative_parts(from, to)) == to,
{
    let c = common_prefix_len(from, to);
    lemma_common_prefix_equal(from, to);
    let ups = Seq::new((from.len() - c) as nat, |_i: int| ".."@);
    let rest = to.subrange(c as int, to.len() as int);
    lemma_resolve_concat(from, ups, rest);
    lemma_resolve_ups(from, (from.len() - c) as nat);
    lemma_resolve_plain(from.take(c as int), rest);
    assert(from.take(c as int) + rest =~= to);
}

proof fn lemma_join_path_has_no_backslash(parts: Seq<Seq<char>>)
    requires
        forall|k: int, i: int| 0 <= k < parts.len() && 0 <= i < parts[k].len() ==> parts[k][i] != '\\',
    ensures
        forall|i: int| 0 <= i < join_path(parts).len() ==> join_path(parts)[i] != '\\',
    decreases parts.len(),
{
    if parts.len() == 1 {
        assert forall|i: int| 0 <= i < join_path(parts).len() implies join_path(parts)[i] != '\\' by {
            assert(parts[0][i] != '\\');
        }
    } else if parts.len() > 1 {
        let init = parts.drop_last();
        assert forall|k: int, i: int| 0 <= k < init.len() && 0 <= i < init[k].len() implies init[k][i] != '\\' by {
            assert(init[k] == parts[k]);
        }
        lemma_join_path_has_no_backslash(init);
        let head = join_path(init) + seq!['/'];
        assert forall|i: int| 0 <= i < join_path(parts).len() implies join_path(parts)[i] != '\\' by {
            if i < join_path(init).len() {
                assert(join_path(parts)[i] == join_path(init)[i]);
            } else if i == join_path(init).len() {
                assert(join_path(parts)[i] == '/');
            } else {
                assert(join_path(parts)[i] == parts.last()[i - head.len()]);
                assert(parts.last() == parts[parts.len() - 1]);
            }
        }
    }
}

/// Relative URIs undo joining: the URI of a path below a directory that has
/// at least one component, relative to that directory, is the path's own
/// components joined with `/`, whenever none of them holds a backslash.
pub proof fn lemma_relative_uri_of_joined_path(dir: Seq<Seq<char>>, rel: Seq<Seq<char>>)
    requires
        dir.len() >= 1,
        forall|k: int, i: int| 0 <= k < rel.len() && 0 <= i < rel[k].len() ==> rel[k][i] != '\\',
    ensures
        relative_uri_spec(dir, dir + rel) == Some(join_path(rel)),
{
    let to = dir + rel;
    assert forall|k: int| 0 <= k < dir.len() implies dir[k] == to[k] by {}
    lemma_common_prefix_len(dir, to, dir.len() as int);
    assert(relative_parts(dir, to) =~= rel);
    lemma_join_path_has_no_backslash(rel);
    assert(forward_slashes(join_path(rel)) =~= join_path(rel));
}
} // verus!
