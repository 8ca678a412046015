//! The material and texture tables of a glTF document: which primitives
//! share a material, which materials share an image, where a material's
//! textures come from, and which materials blend or are unlit.
use vstd::prelude::*;
use crate::metadata::str_equal;
use crate::model::opt_text;
use crate::pipeline::f32_is_nan;

verus! {

/// What tells two materials of a model apart: the material's name, its
/// RGBA colour as `f32` bits, and the asset ids of its colour and normal
/// images.
#[derive(Debug)]
pub struct MaterialKey {
    pub name: String,
    pub color_bits: [u32; 4],
    pub base_color_asset: Option<String>,
    pub normal_asset: Option<String>,
}

/// Two `f32` components print alike: the same bits, or both NaN.
pub open spec fn same_component(a: u32, b: u32) -> bool {
    a == b || (f32_is_nan(a) && f32_is_nan(b))
}

/// Two material keys denote the same material.
pub open spec fn same_material(a: MaterialKey, b: MaterialKey) -> bool {
    &&& a.name@ == b.name@
    &&& forall|i: int| 0 <= i < 4 ==> same_component(#[trigger] a.color_bits[i], b.color_bits[i])
    &&& opt_text(a.base_color_asset) == opt_text(b.base_color_asset)
    &&& opt_text(a.normal_asset) == opt_text(b.normal_asset)
}

fn component_matches(a: u32, b: u32) -> (r: bool)
    ensures
        r == same_component(a, b),
{
    let a_nan = (a & 0x7f80_0000u32) == 0x7f80_0000u32 && (a & 0x007f_ffffu32) != 0;
    let b_nan = (b & 0x7f80_0000u32) == 0x7f80_0000u32 && (b & 0x007f_ffffu32) != 0;
    a == b || (a_nan && b_nan)
}

fn text_matches(a: &Option<String>, b: &Option<String>) -> (r: bool)
    ensures
        r == (opt_text(*a) == opt_text(*b)),
{
    match (a, b) {
        (Some(x), Some(y)) => str_equal(x.as_str(), y.as_str()),
        (None, None) => true,
        _ => false,
    }
}

/// Whether two keys denote the same material.
pub fn material_matches(a: &MaterialKey, b: &MaterialKey) -> (r: bool)
    ensures
        r == same_material(*a, *b),
        r ==> a.name@ == b.name@,
        r ==> forall|i: int| 0 <= i < 4 ==> (#[trigger] a.color_bits[i] == b.color_bits[i]) || (f32_is_nan(
            a.color_bits[i],
        ) && f32_is_nan(b.color_bits[i])),
{
    let colors = component_matches(a.color_bits[0], b.color_bits[0])
        && component_matches(a.color_bits[1], b.color_bits[1])
        && component_matches(a.color_bits[2], b.color_bits[2])
        && component_matches(a.color_bits[3], b.color_bits[3]);
    proof {
        if colors {
            assert forall|i: int| 0 <= i < 4 implies same_component(#[trigger] a.color_bits[i], b.color_bits[i]) by {
                assert(i == 0 || i == 1 || i == 2 || i == 3);
            }
        }
    }
    str_equal(a.name.as_str(), b.name.as_str()) && colors && text_matches(&a.base_color_asset, &b.base_color_asset)
        && text_matches(&a.normal_asset, &b.normal_asset)
}

/// The position of the first key of `keys` that denotes the same material
/// as `key`.
pub open spec fn first_material(keys: Seq<MaterialKey>, key: MaterialKey, i: int) -> Option<int>
    decreases keys.len() - i,
{
    if i < 0 || i >= keys.len() {
        None
    } else if same_material(keys[i], key) {
        Some(i)
    } else {
        first_material(keys, key, i + 1)
    }
}

/// The index of the material that a primitive with material `key` uses,
/// among the materials made so far (in order of their keys): the existing
/// one where a key denotes the same material, else `None` for a new one.
pub fn material_position(keys: &Vec<MaterialKey>, key: &MaterialKey) -> (r: Option<usize>)
    ensures
        match r {
            Some(i) => first_material(keys@, *key, 0) == Some(i as int),
            None => first_material(keys@, *key, 0) is None,
        },
        r matches Some(i) ==> i < keys@.len() && keys@[i as int].name@ == key.name@ && forall|c: int|
            0 <= c < 4 ==> (#[trigger] keys@[i as int].color_bits[c] == key.color_bits[c]) || (f32_is_nan(
                keys@[i as int].color_bits[c],
            ) && f32_is_nan(key.color_bits[c])),
{
    let mut i: usize = 0;
    while i < keys.len()
        invariant
            0 <= i <= keys@.len(),
            first_material(keys@, *key, 0) == first_material(keys@, *key, i as int),
        decreases keys@.len() - i,
    {
        if material_matches(&keys[i], key) {
            proof { lemma_found_material_matches(keys@, *key, i as int); }
            return Some(i);
        }
        i = i + 1;
    }
    None
}

/// Materials are shared only between equal keys: two keys denote the same
/// material exactly when they have the same name, the same asset ids, and
/// in each of the four color channels the same bits or two NaNs. A part
/// whose color differs in any channel gets a material of its own.
pub proof fn lemma_same_material_is_key_equality(a: MaterialKey, b: MaterialKey)
    ensures
        same_material(a, b) <==> {
            &&& a.name@ == b.name@
            &&& opt_text(a.base_color_asset) == opt_text(b.base_color_asset)
            &&& opt_text(a.normal_asset) == opt_text(b.normal_asset)
            &&& a.color_bits[0] == b.color_bits[0] || (f32_is_nan(a.color_bits[0]) && f32_is_nan(b.color_bits[0]))
            &&& a.color_bits[1] == b.color_bits[1] || (f32_is_nan(a.color_bits[1]) && f32_is_nan(b.color_bits[1]))
            &&& a.color_bits[2] == b.color_bits[2] || (f32_is_nan(a.color_bits[2]) && f32_is_nan(b.color_bits[2]))
            &&& a.color_bits[3] == b.color_bits[3] || (f32_is_nan(a.color_bits[3]) && f32_is_nan(b.color_bits[3]))
        },
{
    if !same_material(a, b) && a.name@ == b.name@ && opt_text(a.base_color_asset) == opt_text(b.base_color_asset)
        && opt_text(a.normal_asset) == opt_text(b.normal_asset) {
        assert(!(forall|i: int| 0 <= i < 4 ==> same_component(#[trigger] a.color_bits[i], b.color_bits[i])));
        let k = choose|i: int| !(0 <= i < 4 ==> same_component(#[trigger] a.color_bits[i], b.color_bits[i]));
        assert(k == 0 || k == 1 || k == 2 || k == 3);
    }
    if same_material(a, b) {
        assert(same_component(a.color_bits[0], b.color_bits[0]));
        assert(same_component(a.color_bits[1], b.color_bits[1]));
        assert(same_component(a.color_bits[2], b.color_bits[2]));
        assert(same_component(a.color_bits[3], b.color_bits[3]));
    }
}

/// The material a primitive is given has its key: where `material_position`
/// finds a material for a key, that material's name, asset ids and every
/// color channel match the key (the same bits, or two NaNs), and no earlier
/// material does.
pub proof fn lemma_found_material_matches(keys: Seq<MaterialKey>, key: MaterialKey, i: int)
    requires
        first_material(keys, key, 0) == Some(i),
    ensures
        0 <= i < keys.len(),
        keys[i].name@ == key.name@,
        opt_text(keys[i].base_color_asset) == opt_text(key.base_color_asset),
        opt_text(keys[i].normal_asset) == opt_text(key.normal_asset),
        forall|c: int| 0 <= c < 4 ==> (#[trigger] keys[i].color_bits[c] == key.color_bits[c]) || (f32_is_nan(
            keys[i].color_bits[c],
        ) && f32_is_nan(key.color_bits[c])),
        forall|j: int| 0 <= j < i ==> !same_material(#[trigger] keys[j], key),
{
    lemma_first_material(keys, key, 0);
    lemma_same_material_is_key_equality(keys[i], key);
    assert forall|c: int| 0 <= c < 4 implies (#[trigger] keys[i].color_bits[c] == key.color_bits[c]) || (f32_is_nan(
        keys[i].color_bits[c],
    ) && f32_is_nan(key.color_bits[c])) by {
        assert(c == 0 || c == 1 || c == 2 || c == 3);
    }
}

proof fn lemma_first_material(keys: Seq<MaterialKey>, key: MaterialKey, i: int)
    requires
        0 <= i,
    ensures
        first_material(keys, key, i) matches Some(p) ==> i <= p < keys.len() && same_material(keys[p], key)
            && forall|j: int| i <= j < p ==> !same_material(#[trigger] keys[j], key),
    decreases keys.len() - i,
{
    if i < keys.len() && !same_material(keys[i], key) {
        lemma_first_material(keys, key, i + 1);
    }
}

/// The position of the first path of `paths` equal to `path`.
pub open spec fn first_path(paths: Seq<Seq<Seq<char>>>, path: Seq<Seq<char>>, i: int) -> Option<int>
    decreases paths.len() - i,
{
    if i < 0 || i >= paths.len() {
        None
    } else if paths[i] == path {
        Some(i)
    } else {
        first_path(paths, path, i + 1)
    }
}

/// Whether two paths, given by their components, are equal.
fn same_path(a: &Vec<String>, b: &Vec<String>) -> (r: bool)
    ensures
        r == (crate::text::texts(a@) == crate::text::texts(b@)),
{
    if a.len() != b.len() {
        assert(crate::text::texts(a@).len() != crate::text::texts(b@).len());
        return false;
    }
    let mut i: usize = 0;
    while i < a.len()
        invariant
            a@.len() == b@.len(),
            0 <= i <= a@.len(),
            forall|k: int| 0 <= k < i ==> a@[k]@ == b@[k]@,
        decreases a@.len() - i,
    {
        if !str_equal(a[i].as_str(), b[i].as_str()) {
            assert(crate::text::texts(a@)[i as int] != crate::text::texts(b@)[i as int]);
            return false;
        }
        i = i + 1;
    }
    assert(crate::text::texts(a@) =~= crate::text::texts(b@));
    true
}

/// The paths, as components, of a list of paths.
pub open spec fn path_list(paths: Seq<Vec<String>>) -> Seq<Seq<Seq<char>>> {
    paths.map_values(|p: Vec<String>| crate::text::texts(p@))
}

/// The index of the texture already made for an image file, given the image
/// files of the textures made so far in order; `None` for a new image.
pub fn image_position(images: &Vec<Vec<String>>, path: &Vec<String>) -> (r: Option<usize>)
    ensures
        match r {
            Some(i) => first_path(path_list(images@), crate::text::texts(path@), 0) == Some(i as int),
            None => first_path(path_list(images@), crate::text::texts(path@), 0) is None,
        },
{
    let ghost list = path_list(images@);
    let mut i: usize = 0;
    while i < images.len()
        invariant
            list == path_list(images@),
            0 <= i <= images@.len(),
            first_path(list, crate::text::texts(path@), 0) == first_path(list, crate::text::texts(path@), i as int),
        decreases images@.len() - i,
    {
        if same_path(&images[i], path) {
            return Some(i);
        }
        i = i + 1;
    }
    None
}

/// The file names of a material's fallback textures in the materials
/// directory: `<name>_color.png` and `<name>_normal.png`.
pub fn fallback_texture_names(material: &str) -> (r: (String, String))
    ensures
        r.0@ == material@ + "_color.png"@,
        r.1@ == material@ + "_normal.png"@,
{
    let mut color = material.to_owned();
    color.append("_color.png");
    let mut normal = material.to_owned();
    normal.append("_normal.png");
    (color, normal)
}

/// Where a material's texture comes from.
#[derive(Debug, PartialEq, Eq, Structural, Clone, Copy)]
pub enum TextureSource {
    /// The image downloaded for the material's asset id.
    Downloaded,
    /// The fallback image in the materials directory.
    Fallback,
    /// No texture.
    Absent,
}

/// The source of a texture: the downloaded image where one was found for
/// the asset id, else the fallback file where it exists.
pub fn texture_source(downloaded_found: bool, fallback_exists: bool) -> (r: TextureSource)
    ensures
        r == (if downloaded_found {
            TextureSource::Downloaded
        } else if fallback_exists {
            TextureSource::Fallback
        } else {
            TextureSource::Absent
        }),
{
    if downloaded_found {
        TextureSource::Downloaded
    } else if fallback_exists {
        TextureSource::Fallback
    } else {
        TextureSource::Absent
    }
}

/// An `f32`, given by its bits, is less than 1.0: a negative value or zero
/// (any bits with the sign set but a NaN), or a positive value whose bits
/// are below those of 1.0.
pub open spec fn f32_below_one(bits: u32) -> bool {
    if bits >= 0x8000_0000u32 {
        !f32_is_nan(bits)
    } else {
        bits < 0x3f80_0000u32
    }
}

/// A material blends when its alpha is below 1.
pub fn material_blends(alpha_bits: u32) -> (r: bool)
    ensures
        r == f32_below_one(alpha_bits),
{
    if alpha_bits >= 0x8000_0000u32 {
        !((alpha_bits & 0x7f80_0000u32) == 0x7f80_0000u32 && (alpha_bits & 0x007f_ffffu32) != 0)
    } else {
        alpha_bits < 0x3f80_0000u32
    }
}

/// The name of the material that is rendered unlit.
pub open spec fn is_unlit_material(name: Seq<char>) -> bool {
    name == "neon"@
}

/// Whether a material is rendered unlit (`KHR_materials_unlit`).
pub fn material_unlit(name: &str) -> (r: bool)
    ensures
        r == is_unlit_material(name@),
{
    str_equal(name, "neon")
}

/// Whether a document whose materials have the given names uses
/// `KHR_materials_unlit`: whether any of them is unlit.
pub fn uses_unlit_extension(names: &Vec<String>) -> (r: bool)
    ensures
        r == exists|i: int| 0 <= i < names@.len() && is_unlit_material(#[trigger] names@[i]@),
{
    let mut i: usize = 0;
    while i < names.len()
        invariant
            0 <= i <= names@.len(),
            forall|k: int| 0 <= k < i ==> !is_unlit_material(#[trigger] names@[k]@),
        decreases names@.len() - i,
    {
        if material_unlit(names[i].as_str()) {
            return true;
        }
        i = i + 1;
    }
    false
}

} // verus!
