//! Reading Roblox model sources: which files are sources and how they are
//! encoded, which instances are model roots and which carry geometry, where
//! each primitive's mesh and textures come from, which shape a part has,
//! and the meshes packaged in binary models.
use vstd::prelude::*;
use crate::metadata::str_equal;
use crate::text::texts;
use crate::paths::{
    file_extension, file_extension_spec, insert_sorted, path_views, paths_sorted,
};

pub use crate::metadata::{material_name, parse_asset_id};

verus! {

/// `c` with ASCII upper-case letters made lower-case.
pub open spec fn ascii_lower(c: char) -> char {
    if 'A' <= c <= 'Z' {
        ((c as u32) + 32) as char
    } else {
        c
    }
}

/// `s` with ASCII upper-case letters made lower-case
/// (`str::to_ascii_lowercase`).
pub open spec fn ascii_lowercase_spec(s: Seq<char>) -> Seq<char> {
    s.map_values(|c: char| ascii_lower(c))
}

/// Makes ASCII upper-case letters lower-case.
pub fn ascii_lowercase(s: &str) -> (r: String)
    ensures
        r@ == ascii_lowercase_spec(s@),
{
    let n = s.unicode_len();
    let mut r = String::new();
    let mut i: usize = 0;
    while i < n
        invariant
            n == s@.len(),
            0 <= i <= n,
            r@ =~= ascii_lowercase_spec(s@.take(i as int)),
        decreases n - i,
    {
        let c = s.get_char(i);
        let lower = if 'A' <= c && c <= 'Z' {
            let code: u8 = (c as u8) + 32;
            code as char
        } else {
            c
        };
        assert(lower == ascii_lower(c));
        crate::text::push_char(&mut r, lower);
        assert(s@.take(i + 1) =~= s@.take(i as int).push(c));
        i = i + 1;
    }
    assert(s@.take(n as int) =~= s@);
    r
}

/// How a Roblox source file is encoded.
#[derive(Clone, Copy, Debug, PartialEq, Eq)]
pub enum SourceFormat {
    /// `.rbxm` and `.rbxl`
    Binary,
    /// `.rbxmx` and `.rbxlx`
    Xml,
}

/// The encoding that a file extension announces, compared without regard
/// to ASCII case.
pub open spec fn source_format_spec(extension: Seq<char>) -> Option<SourceFormat> {
    let e = ascii_lowercase_spec(extension);
    if e == "rbxm"@ || e == "rbxl"@ {
        Some(SourceFormat::Binary)
    } else if e == "rbxmx"@ || e == "rbxlx"@ {
        Some(SourceFormat::Xml)
    } else {
        None
    }
}

/// The encoding of a source file with the given extension, or `None` when
/// the extension is not one of a Roblox model or place.
pub fn source_format(extension: &str) -> (r: Option<SourceFormat>)
    ensures
        r == source_format_spec(extension@),
{
    let e = ascii_lowercase(extension);
    if str_equal(e.as_str(), "rbxm") || str_equal(e.as_str(), "rbxl") {
        Some(SourceFormat::Binary)
    } else if str_equal(e.as_str(), "rbxmx") || str_equal(e.as_str(), "rbxlx") {
        Some(SourceFormat::Xml)
    } else {
        None
    }
}

/// Whether a file with the given extension is a Roblox model or place
/// source.
pub fn is_source_extension(extension: &str) -> (r: bool)
    ensures
        r == (source_format_spec(extension@) is Some),
{
    source_format(extension).is_some()
}

/// The classes whose instances the model export turns into primitives:
/// parts, mesh parts and unions.
pub open spec fn is_geometry_spec(class: Seq<char>) -> bool {
    ||| class == "Part"@
    ||| class == "MeshPart"@
    ||| class == "UnionOperation"@
}

/// Whether the model export turns an instance of the given class into a
/// primitive.
pub fn is_geometry(class: &str) -> (r: bool)
    ensures
        r == is_geometry_spec(class@),
{
    str_equal(class, "Part") || str_equal(class, "MeshPart") || str_equal(class, "UnionOperation")
}

/// The shape of a part (the `PartType` enum).
#[derive(Clone, Copy, Debug, PartialEq, Eq)]
pub enum PrimitiveShape {
    Ball,
    Block,
    Cylinder,
    Wedge,
    CornerWedge,
}

/// The shape a part's `Shape` value gives; a part without one is a block,
/// and so is one with an unknown value.
pub open spec fn primitive_shape_spec(shape: Option<u32>) -> PrimitiveShape {
    match shape {
        Some(0) => PrimitiveShape::Ball,
        Some(2) => PrimitiveShape::Cylinder,
        Some(3) => PrimitiveShape::Wedge,
        Some(4) => PrimitiveShape::CornerWedge,
        _ => PrimitiveShape::Block,
    }
}

/// The shape a part's `Shape` value gives.
pub fn primitive_shape(shape: Option<u32>) -> (r: PrimitiveShape)
    ensures
        r == primitive_shape_spec(shape),
{
    match shape {
        Some(0) => PrimitiveShape::Ball,
        Some(2) => PrimitiveShape::Cylinder,
        Some(3) => PrimitiveShape::Wedge,
        Some(4) => PrimitiveShape::CornerWedge,
        _ => PrimitiveShape::Block,
    }
}


/// The name of the file in which a decoded mesh is cached: the BLAKE3 hex
/// digest of the bytes it was decoded from, and `.bin`.
pub fn decoded_mesh_file_name(bytes: &[u8]) -> (r: String)
    ensures
        r@ == crate::pipeline::blake3_hex(bytes@) + ".bin"@,
{
    let mut name = crate::pipeline::hash_hex(bytes);
    name.append(".bin");
    name
}

/// Whether a file name ends in the extension of a Roblox model or place.
pub open spec fn is_source_name(name: Seq<char>) -> bool {
    match file_extension_spec(name) {
        Some(e) => source_format_spec(e) is Some,
        None => false,
    }
}

/// Whether a path names a Roblox model or place source.
pub open spec fn is_source_path(p: Seq<Seq<char>>) -> bool {
    p.len() > 0 && is_source_name(p.last())
}

/// The paths that name Roblox sources, in their order.
pub open spec fn source_paths(paths: Seq<Seq<Seq<char>>>) -> Seq<Seq<Seq<char>>>
    decreases paths.len(),
{
    if paths.len() == 0 {
        Seq::empty()
    } else if is_source_path(paths.last()) {
        source_paths(paths.drop_last()).push(paths.last())
    } else {
        source_paths(paths.drop_last())
    }
}

/// The Roblox model and place sources among the files found under an
/// input: those whose extension, in any ASCII case, is `rbxm`, `rbxmx`,
/// `rbxl` or `rbxlx`, sorted as paths. Each path is given by its
/// components.
pub fn source_files(found: Vec<Vec<String>>) -> (r: Vec<Vec<String>>)
    ensures
        paths_sorted(path_views(r@)),
        path_views(r@).to_multiset() == source_paths(path_views(found@)).to_multiset(),
{
    let ghost views = path_views(found@);
    let mut sorted: Vec<Vec<String>> = Vec::new();
    let mut i: usize = 0;
    assert(path_views(sorted@) =~= Seq::<Seq<Seq<char>>>::empty());
    assert(views.take(0) =~= Seq::<Seq<Seq<char>>>::empty());
    while i < found.len()
        invariant
            views == path_views(found@),
            i <= found.len(),
            paths_sorted(path_views(sorted@)),
            path_views(sorted@).to_multiset() == source_paths(views.take(i as int)).to_multiset(),
        decreases found.len() - i,
    {
        assert(views.take(i + 1).drop_last() =~= views.take(i as int));
        assert(views.take(i + 1).last() == views[i as int]);
        if names_source(&found[i]) {
            let copy = crate::pipeline::duplicate_paths(&found[i]);
            insert_sorted(&mut sorted, copy);
            proof {
                vstd::seq_lib::to_multiset_build(source_paths(views.take(i as int)), views[i as int]);
            }
        }
        i = i + 1;
    }
    assert(views.take(found.len() as int) =~= views);
    sorted
}

/// Whether a path's last component names a Roblox source.
fn names_source(path: &Vec<String>) -> (r: bool)
    ensures
        r == is_source_path(texts(path@)),
{
    if path.len() == 0 {
        return false;
    }
    let last = path.len() - 1;
    assert(texts(path@).last() == path@[last as int]@);
    match file_extension(path[last].as_str()) {
        Some(e) => is_source_extension(e.as_str()),
        None => false,
    }
}


/// What the choice of model roots reads of one instance of a DOM: its
/// class, and the classes along its line of ancestry as the DOM walks it,
/// from the instance itself (which `WeakDom::ancestors_of` yields first)
/// up to the root.
pub struct DomInstance {
    pub class: String,
    pub lineage: Vec<String>,
}

/// The class and the lineage of classes of an instance.
pub struct DomInstanceView {
    pub class: Seq<char>,
    pub lineage: Seq<Seq<char>>,
}

impl View for DomInstance {
    type V = DomInstanceView;

    open spec fn view(&self) -> DomInstanceView {
        DomInstanceView { class: self.class@, lineage: texts(self.lineage@) }
    }
}

/// The views of the instances of a walk.
pub open spec fn instance_views(walk: Seq<DomInstance>) -> Seq<DomInstanceView> {
    walk.map_values(|d: DomInstance| d@)
}

/// A `Model` with no `Model` along its lineage.
pub open spec fn is_top_model(d: DomInstanceView) -> bool {
    d.class == "Model"@ && !d.lineage.contains("Model"@)
}

/// The positions among the first `n` instances of the walk that are top
/// models, in walk order.
pub open spec fn top_model_positions(walk: Seq<DomInstanceView>, n: nat) -> Seq<usize>
    decreases n,
{
    if n == 0 {
        Seq::empty()
    } else {
        let before = top_model_positions(walk, (n - 1) as nat);
        if is_top_model(walk[n - 1]) {
            before.push((n - 1) as usize)
        } else {
            before
        }
    }
}

/// The roots of the models in a DOM, as positions in the walk of its
/// instances that starts at the root (position 0): the root when it is a
/// `Model`, then each `Model` with no `Model` along its lineage; the root
/// alone when that finds none.
pub open spec fn model_roots_spec(walk: Seq<DomInstanceView>) -> Seq<usize> {
    let first = if walk.len() > 0 && walk[0].class == "Model"@ {
        seq![0usize]
    } else {
        Seq::empty()
    };
    let found = first + top_model_positions(walk, walk.len());
    if found.len() == 0 {
        seq![0usize]
    } else {
        found
    }
}

/// The roots of the models in a DOM, as positions in `walk`, the DOM's
/// instances in the order `WeakDom::descendants` gives them (the root
/// first).
pub fn model_roots(walk: &Vec<DomInstance>) -> (r: Vec<usize>)
    ensures
        r@ == model_roots_spec(instance_views(walk@)),
{
    let ghost views = instance_views(walk@);
    let mut roots: Vec<usize> = Vec::new();
    if walk.len() > 0 && str_equal(walk[0].class.as_str(), "Model") {
        roots.push(0);
    }
    let ghost first = roots@;
    let mut i: usize = 0;
    while i < walk.len()
        invariant
            views == instance_views(walk@),
            i <= walk.len(),
            roots@ == first + top_model_positions(views, i as nat),
        decreases walk.len() - i,
    {
        if str_equal(walk[i].class.as_str(), "Model") && !lineage_has_model(&walk[i].lineage) {
            roots.push(i);
        }
        i = i + 1;
    }
    if roots.len() == 0 {
        roots.push(0);
    }
    roots
}

fn lineage_has_model(lineage: &Vec<String>) -> (r: bool)
    ensures
        r == texts(lineage@).contains("Model"@),
{
    let mut i: usize = 0;
    while i < lineage.len()
        invariant
            i <= lineage.len(),
            forall|k: int| 0 <= k < i ==> lineage@[k]@ != "Model"@,
        decreases lineage.len() - i,
    {
        if str_equal(lineage[i].as_str(), "Model") {
            assert(texts(lineage@)[i as int] == "Model"@);
            return true;
        }
        i = i + 1;
    }
    assert forall|k: int| 0 <= k < texts(lineage@).len() implies texts(lineage@)[k] != "Model"@ by {
        assert(texts(lineage@)[k] == lineage@[k]@);
    }
    false
}

/// Where every lineage starts with the instance's own class, as the DOM's
/// walk of ancestors does, no `Model` is free of a `Model` in its lineage,
/// and the model roots are the root alone.
pub proof fn lemma_model_roots_are_the_root(walk: Seq<DomInstanceView>)
    requires
        forall|i: int| 0 <= i < walk.len() ==> (#[trigger] walk[i]).lineage.len() > 0 && walk[i].lineage[0] == walk[i].class,
    ensures
        model_roots_spec(walk) == seq![0usize],
{
    lemma_no_top_models(walk, walk.len());
    let first = if walk.len() > 0 && walk[0].class == "Model"@ {
        seq![0usize]
    } else {
        Seq::<usize>::empty()
    };
    assert(first + Seq::<usize>::empty() =~= first);
}

proof fn lemma_no_top_models(walk: Seq<DomInstanceView>, n: nat)
    requires
        n <= walk.len(),
        forall|i: int| 0 <= i < walk.len() ==> (#[trigger] walk[i]).lineage.len() > 0 && walk[i].lineage[0] == walk[i].class,
    ensures
        top_model_positions(walk, n) == Seq::<usize>::empty(),
    decreases n,
{
    if n > 0 {
        lemma_no_top_models(walk, (n - 1) as nat);
        let d = walk[n - 1];
        if d.class == "Model"@ {
            assert(d.lineage[0] == "Model"@);
            assert(d.lineage.contains("Model"@));
        }
    }
}


/// The positions, in a walk of a model's instances that starts at its root
/// (as `WeakDom::descendants_of` gives it), of the instances that become
/// primitives: the root when it is geometry, then every geometry instance of
/// the walk, the root included.
pub open spec fn geometry_positions_spec(classes: Seq<Seq<char>>) -> Seq<usize> {
    let first = if classes.len() > 0 && is_geometry_spec(classes[0]) {
        seq![0usize]
    } else {
        Seq::empty()
    };
    first + geometry_positions_in(classes, classes.len())
}

/// The positions among the first `n` classes that are geometry.
pub open spec fn geometry_positions_in(classes: Seq<Seq<char>>, n: nat) -> Seq<usize>
    decreases n,
{
    if n == 0 {
        Seq::empty()
    } else {
        let before = geometry_positions_in(classes, (n - 1) as nat);
        if is_geometry_spec(classes[n - 1]) {
            before.push((n - 1) as usize)
        } else {
            before
        }
    }
}

/// The positions of the instances of a model that become primitives.
pub fn geometry_positions(classes: &Vec<String>) -> (r: Vec<usize>)
    ensures
        r@ == geometry_positions_spec(texts(classes@)),
{
    let ghost views = texts(classes@);
    let mut r: Vec<usize> = Vec::new();
    if classes.len() > 0 && is_geometry(classes[0].as_str()) {
        r.push(0);
    }
    let ghost first = r@;
    let mut i: usize = 0;
    while i < classes.len()
        invariant
            views == texts(classes@),
            i <= classes.len(),
            r@ == first + geometry_positions_in(views, i as nat),
        decreases classes.len() - i,
    {
        if is_geometry(classes[i].as_str()) {
            r.push(i);
        }
        i = i + 1;
    }
    r
}

/// The asset ids of a part's `SpecialMesh` child.
pub struct SpecialMeshAssets {
    pub mesh_id: Option<String>,
    pub texture_id: Option<String>,
    /// The `TextureID` spelling of the texture property.
    pub texture_id_upper: Option<String>,
}

/// The asset ids of a `SurfaceAppearance` child.
pub struct SurfaceAssets {
    pub color_map: Option<String>,
    pub normal_map: Option<String>,
}

/// What the model export reads of a geometry instance: its name, class and
/// the asset ids of its content properties (`None` where the property is
/// missing or names no asset), with those of its first `SpecialMesh` and
/// `SurfaceAppearance` children.
pub struct GeometryInstance {
    pub name: String,
    pub class: String,
    pub special_mesh: Option<SpecialMeshAssets>,
    /// A mesh part's `TextureID`.
    pub texture_id: Option<String>,
    /// A mesh part's `MeshId`.
    pub mesh_id: Option<String>,
    /// A mesh part's `MeshContent`.
    pub mesh_content: Option<String>,
    /// A union's `AssetId`.
    pub asset_id: Option<String>,
    pub surface_appearance: Option<SurfaceAssets>,
}

/// How a loaded mesh asset is fitted to its instance.
#[derive(Clone, Copy, Debug, PartialEq, Eq)]
pub enum MeshFit {
    /// By the `SpecialMesh`'s scale and offset.
    SpecialMesh,
    /// To the instance's size.
    InstanceSize,
}

/// Where a primitive's mesh comes from.
#[derive(Debug, PartialEq, Eq)]
pub enum MeshSource {
    /// The part's own shape.
    Shape,
    /// A mesh asset, fitted to the instance once loaded.
    Asset { asset_id: String, fit: MeshFit },
    /// No mesh: the instance yields a warning and no primitive.
    Missing { warning: String },
    /// No mesh and no warning.
    Skip,
}

/// The mesh source and the textures of a geometry instance.
#[derive(Debug, PartialEq, Eq)]
pub struct GeometryPlan {
    pub source: MeshSource,
    pub base_color_asset: Option<String>,
    pub normal_asset: Option<String>,
}

/// The text of an optional string.
pub open spec fn opt_text(o: Option<String>) -> Option<Seq<char>> {
    match o {
        Some(s) => Some(s@),
        None => None,
    }
}

/// `a`, or `b` when `a` is `None`.
pub open spec fn or_text(a: Option<Seq<char>>, b: Option<Seq<char>>) -> Option<Seq<char>> {
    match a {
        Some(x) => Some(x),
        None => b,
    }
}

/// The part's `SpecialMesh` names a mesh asset.
pub open spec fn special_mesh_asset(g: GeometryInstance) -> Option<Seq<char>> {
    if g.class@ == "Part"@ {
        match g.special_mesh {
            Some(m) => opt_text(m.mesh_id),
            None => None,
        }
    } else {
        None
    }
}

/// The mesh source of a geometry instance: a part takes its `SpecialMesh`'s
/// mesh asset when it has one, else its shape; a mesh part its `MeshId` or
/// else its `MeshContent`; a union its `AssetId`; a mesh part or union
/// without one gives a warning; other classes give nothing.
pub open spec fn source_matches(r: MeshSource, g: GeometryInstance) -> bool {
    if g.class@ == "Part"@ {
        match special_mesh_asset(g) {
            Some(id) => r matches MeshSource::Asset { asset_id, fit } && asset_id@ == id && fit == MeshFit::SpecialMesh,
            None => r == MeshSource::Shape,
        }
    } else if g.class@ == "MeshPart"@ {
        match or_text(opt_text(g.mesh_id), opt_text(g.mesh_content)) {
            Some(id) => r matches MeshSource::Asset { asset_id, fit } && asset_id@ == id && fit == MeshFit::InstanceSize,
            None => r matches MeshSource::Missing { warning } && warning@ == g.name@ + ": MeshPart has no MeshId"@,
        }
    } else if g.class@ == "UnionOperation"@ {
        match opt_text(g.asset_id) {
            Some(id) => r matches MeshSource::Asset { asset_id, fit } && asset_id@ == id && fit == MeshFit::InstanceSize,
            None => r matches MeshSource::Missing { warning } && warning@ == g.name@ + ": UnionOperation has no AssetId"@,
        }
    } else {
        r == MeshSource::Skip
    }
}

/// The base color texture of a geometry instance: the `SurfaceAppearance`'s
/// `ColorMap`, else the texture of the mesh it takes (a part's
/// `SpecialMesh` `TextureId` or `TextureID`, a mesh part's `TextureID`).
pub open spec fn base_color_spec(g: GeometryInstance) -> Option<Seq<char>> {
    let surface_color = match g.surface_appearance {
        Some(s) => opt_text(s.color_map),
        None => None,
    };
    let from_mesh = if g.class@ == "Part"@ {
        match (special_mesh_asset(g), g.special_mesh) {
            (Some(_), Some(m)) => or_text(opt_text(m.texture_id), opt_text(m.texture_id_upper)),
            _ => surface_color,
        }
    } else if g.class@ == "MeshPart"@ {
        opt_text(g.texture_id)
    } else {
        surface_color
    };
    match g.surface_appearance {
        Some(s) => or_text(opt_text(s.color_map), from_mesh),
        None => from_mesh,
    }
}

/// The normal texture of a geometry instance: its `SurfaceAppearance`'s
/// `NormalMap`.
pub open spec fn normal_spec(g: GeometryInstance) -> Option<Seq<char>> {
    match g.surface_appearance {
        Some(s) => opt_text(s.normal_map),
        None => None,
    }
}

fn copy_text(o: &Option<String>) -> (r: Option<String>)
    ensures
        opt_text(r) == opt_text(*o),
{
    match o {
        Some(s) => Some(s.clone()),
        None => None,
    }
}

fn first_text(a: &Option<String>, b: &Option<String>) -> (r: Option<String>)
    ensures
        opt_text(r) == or_text(opt_text(*a), opt_text(*b)),
{
    match a {
        Some(s) => Some(s.clone()),
        None => copy_text(b),
    }
}

/// Decides where a geometry instance's mesh comes from and which textures
/// its material uses.
pub fn geometry_plan(g: &GeometryInstance) -> (r: GeometryPlan)
    ensures
        source_matches(r.source, *g),
        opt_text(r.base_color_asset) == base_color_spec(*g),
        opt_text(r.normal_asset) == normal_spec(*g),
{
    let surface_color = match &g.surface_appearance {
        Some(s) => copy_text(&s.color_map),
        None => None,
    };
    let is_part = str_equal(g.class.as_str(), "Part");
    let is_mesh_part = str_equal(g.class.as_str(), "MeshPart");
    let is_union = str_equal(g.class.as_str(), "UnionOperation");
    let (source, from_mesh) = if is_part {
        match &g.special_mesh {
            Some(m) => match &m.mesh_id {
                Some(id) => (
                    MeshSource::Asset { asset_id: id.clone(), fit: MeshFit::SpecialMesh },
                    first_text(&m.texture_id, &m.texture_id_upper),
                ),
                None => (MeshSource::Shape, surface_color),
            },
            None => (MeshSource::Shape, surface_color),
        }
    } else if is_mesh_part {
        let source = match first_text(&g.mesh_id, &g.mesh_content) {
            Some(id) => MeshSource::Asset { asset_id: id, fit: MeshFit::InstanceSize },
            None => {
                let mut warning = g.name.clone();
                warning.append(": MeshPart has no MeshId");
                MeshSource::Missing { warning }
            },
        };
        (source, copy_text(&g.texture_id))
    } else if is_union {
        let source = match copy_text(&g.asset_id) {
            Some(id) => MeshSource::Asset { asset_id: id, fit: MeshFit::InstanceSize },
            None => {
                let mut warning = g.name.clone();
                warning.append(": UnionOperation has no AssetId");
                MeshSource::Missing { warning }
            },
        };
        (source, surface_color)
    } else {
        (MeshSource::Skip, surface_color)
    };
    let (base_color_asset, normal_asset) = match &g.surface_appearance {
        Some(s) => {
            let base = match &s.color_map {
                Some(c) => Some(c.clone()),
                None => from_mesh,
            };
            (base, copy_text(&s.normal_map))
        },
        None => (from_mesh, None),
    };
    GeometryPlan { source, base_color_asset, normal_asset }
}

/// The warning for a mesh asset that could not be loaded: the instance's
/// name, the asset id in parentheses, and the error.
pub fn mesh_load_warning(name: &str, asset_id: &str, error: &str) -> (r: String)
    ensures
        r@ == name@ + " ("@ + asset_id@ + "): "@ + error@,
{
    let mut r = name.to_owned();
    r.append(" (");
    r.append(asset_id);
    r.append("): ");
    r.append(error);
    r
}

/// What the packaged-mesh lookup reads of an instance of a binary model:
/// its class, and its `MeshData` property when that holds a binary string.
#[derive(Clone, Debug)]
pub struct PackagedInstance {
    pub class: String,
    pub mesh_data: Option<Vec<u8>>,
}

/// The class and mesh data of a packaged instance.
pub open spec fn packaged_view(i: PackagedInstance) -> (Seq<char>, Option<Seq<u8>>) {
    (i.class@, match i.mesh_data {
        Some(d) => Some(d@),
        None => None,
    })
}

/// The views of packaged instances.
pub open spec fn packaged_views(v: Seq<PackagedInstance>) -> Seq<(Seq<char>, Option<Seq<u8>>)> {
    v.map_values(|i: PackagedInstance| packaged_view(i))
}

/// The mesh data of the first `PartOperationAsset` that has some.
pub open spec fn first_mesh_data(instances: Seq<(Seq<char>, Option<Seq<u8>>)>) -> Option<Seq<u8>>
    decreases instances.len(),
{
    if instances.len() == 0 {
        None
    } else if instances[0].0 == "PartOperationAsset"@ && instances[0].1 is Some {
        instances[0].1
    } else {
        first_mesh_data(instances.drop_first())
    }
}

/// The mesh packaged in a model's instances: the payload in the first
/// `PartOperationAsset`'s `MeshData`, decoded as a union or mesh; `path`
/// names the package in errors.
pub open spec fn packaged_mesh_spec(instances: Seq<(Seq<char>, Option<Seq<u8>>)>, path: Seq<char>) -> Result<crate::csg::UnionMeshView, Seq<char>> {
    match first_mesh_data(instances) {
        None => Err(path + " contains no PartOperationAsset MeshData"@),
        Some(data) => match crate::payload::decode_mesh_payload_spec(data) {
            Ok(m) => Ok(m),
            Err(e) => Err("failed to decode "@ + path + ": "@ + e),
        },
    }
}

/// The instances of a decoded model as mathematical values, or the text of
/// the decode error.
pub open spec fn decoded_instances_view(decoded: Result<Vec<PackagedInstance>, String>) -> Result<Seq<(Seq<char>, Option<Seq<u8>>)>, Seq<char>> {
    match decoded {
        Ok(v) => Ok(packaged_views(v@)),
        Err(e) => Err(e@),
    }
}

/// What loading a packaged mesh asset gives, from what decoding it as a
/// binary model gave: the model's packaged mesh, or the decode error after
/// `failed to decode <path>: `.
pub open spec fn load_packaged_mesh_spec(decoded: Result<Seq<(Seq<char>, Option<Seq<u8>>)>, Seq<char>>, path: Seq<char>) -> Result<crate::csg::UnionMeshView, Seq<char>> {
    match decoded {
        Ok(instances) => packaged_mesh_spec(instances, path),
        Err(e) => Err("failed to decode "@ + path + ": "@ + e),
    }
}

/// Finds and decodes the mesh packaged in a model's instances.
pub fn packaged_mesh(instances: &Vec<PackagedInstance>, path: &str) -> (r: Result<crate::csg::UnionMesh, String>)
    ensures
        match r {
            Ok(m) => packaged_mesh_spec(packaged_views(instances@), path@) == Ok::<crate::csg::UnionMeshView, Seq<char>>(m@),
            Err(e) => packaged_mesh_spec(packaged_views(instances@), path@) == Err::<crate::csg::UnionMeshView, Seq<char>>(e@),
        },
{
    let ghost views = packaged_views(instances@);
    let mut i: usize = 0;
    assert(views.skip(0) =~= views);
    while i < instances.len()
        invariant
            views == packaged_views(instances@),
            i <= instances.len(),
            first_mesh_data(views) == first_mesh_data(views.skip(i as int)),
        decreases instances.len() - i,
    {
        let candidate = &instances[i];
        if str_equal(candidate.class.as_str(), "PartOperationAsset") {
            if let Some(data) = &candidate.mesh_data {
                assert(views.skip(i as int)[0] == views[i as int]);
                return match crate::payload::decode_mesh_payload(data.as_slice()) {
                    Ok(m) => Ok(m),
                    Err(e) => {
                        let mut msg = "failed to decode ".to_owned();
                        msg.append(path);
                        msg.append(": ");
                        msg.append(e.as_str());
                        Err(msg)
                    },
                };
            }
        }
        assert(views.skip(i as int)[0] == views[i as int]);
        assert(views.skip(i as int).drop_first() =~= views.skip(i + 1));
        i = i + 1;
    }
    assert(views.skip(i as int) =~= Seq::<(Seq<char>, Option<Seq<u8>>)>::empty());
    let mut msg = path.to_owned();
    msg.append(" contains no PartOperationAsset MeshData");
    Err(msg)
}

/// Loads a packaged mesh asset from the outcome of decoding it as a binary
/// model: the instances in `WeakDom::descendants` order, or the decode
/// error's text. `path` names the package in errors.
pub fn load_packaged_mesh(decoded: Result<Vec<PackagedInstance>, String>, path: &str) -> (r: Result<crate::csg::UnionMesh, String>)
    ensures
        match r {
            Ok(m) => load_packaged_mesh_spec(decoded_instances_view(decoded), path@) == Ok::<crate::csg::UnionMeshView, Seq<char>>(m@),
            Err(e) => load_packaged_mesh_spec(decoded_instances_view(decoded), path@) == Err::<crate::csg::UnionMeshView, Seq<char>>(e@),
        },
{
    match decoded {
        Ok(instances) => packaged_mesh(&instances, path),
        Err(e) => {
            let mut msg = "failed to decode ".to_owned();
            msg.append(path);
            msg.append(": ");
            msg.append(e.as_str());
            Err(msg)
        },
    }
}
} // verus!
