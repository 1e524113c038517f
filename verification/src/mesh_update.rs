//! Decisions behind the normal/tangent update of a loaded mod mesh: which
//! vectors get recomputed (from the game profile, the registry settings and
//! the mod's own wish), and which elements of the vertex layout are read and
//! written.  The float work itself (decoding, DirectXMesh, encoding) is done
//! by the caller on the elements chosen here.
use vstd::prelude::*;
use crate::dx11rs::{
    ascii_lower, InputElement, VertexFormat, DXGI_FORMAT_R16G16B16A16_SINT,
    DXGI_FORMAT_R16G16B16A16_SNORM, DXGI_FORMAT_R16G16_FLOAT, DXGI_FORMAT_R16G16_SINT,
    DXGI_FORMAT_R32G32B32A32_FLOAT, DXGI_FORMAT_R32G32B32_FLOAT, DXGI_FORMAT_R32G32_FLOAT,
    DXGI_FORMAT_R8G8B8A8_UNORM,
};
use crate::strings::{lowercase, to_lowercase, trim, trimmed};

verus! {

/// The vector settings of the game profile a mod was snapped with.
pub struct MeshProfile {
    pub valid: bool,
    pub flip_tangent: bool,
    /// The profile's vector encoding name ("packed" or "octa").
    pub vec_encoding: String,
}

/// The profile's registry values; `None` where a value could not be read.
pub struct MeshRegistry {
    pub update_normals: Option<u32>,
    pub update_tangents: Option<u32>,
    pub reverse_normals: Option<u32>,
    pub normal_flags: Option<u32>,
}

/// What the update does.  Nothing is done unless one of the two update flags
/// is set.
#[derive(Clone, Copy, Debug, PartialEq, Eq, Structural)]
pub struct MeshUpdateSettings {
    pub update_normals: bool,
    pub update_tangents: bool,
    /// RGBA8 normals are stored with x and z swapped.
    pub reverse: bool,
    /// DirectXMesh normal computation flags.
    pub normal_flags: u32,
    /// Packed 16-bit vectors use the octahedral encoding.
    pub enc_vec_octa: bool,
    /// Computed tangents are negated before they are written.
    pub flip_tangent: bool,
}

/// A registry value read as a flag: set when it is above zero, `default`
/// when it could not be read.
pub open spec fn reg_flag(v: Option<u32>, default: bool) -> bool {
    match v {
        Some(x) => x > 0,
        None => default,
    }
}

/// The tangent wish of a mod: 0 = never, 1 = always, anything else = no wish.
pub open spec fn mod_tangent_wish(mod_ts_update: i32) -> Option<bool> {
    if mod_ts_update == 0 {
        Some(false)
    } else if mod_ts_update == 1 {
        Some(true)
    } else {
        None
    }
}

/// The profile asks for the octahedral encoding: it is valid and its encoding
/// name, lowercased and trimmed, is "octa" (any other name means packed).
pub open spec fn profile_wants_octa(valid: bool, encoding: Seq<char>) -> bool {
    valid && trimmed(lowercase(encoding)) == seq!['o', 'c', 't', 'a']
}

/// The settings for a mod.  Normal updates are off unless the registry turns
/// them on; tangent updates are on unless it turns them off, and a mod wish
/// of 0 or 1 overrides that.  The normal flags are read only when normals
/// are updated.
pub open spec fn spec_mesh_update_settings(
    profile_valid: bool,
    profile_flip: bool,
    encoding: Seq<char>,
    reg: (Option<u32>, Option<u32>, Option<u32>, Option<u32>),
    mod_ts_update: i32,
) -> MeshUpdateSettings {
    let reg_normals = reg_flag(reg.0, false);
    let reg_tangents = reg_flag(reg.1, true);
    MeshUpdateSettings {
        update_normals: reg_normals,
        update_tangents: match mod_tangent_wish(mod_ts_update) {
            Some(w) => w,
            None => reg_tangents,
        },
        reverse: reg_flag(reg.2, false),
        normal_flags: if reg_normals {
            match reg.3 {
                Some(f) => f,
                None => 0,
            }
        } else {
            0
        },
        enc_vec_octa: profile_wants_octa(profile_valid, encoding),
        flip_tangent: profile_valid && profile_flip,
    }
}

/// What the update settings mean: normals are recomputed only when the
/// registry value is read and positive; normals are reversed only when the
/// registry's reverse value is read and positive (0 means do not reverse);
/// tangents follow a mod's wish of 0 (never) or 1 (always), otherwise the
/// registry value, which defaults to on; the normal flags are the registry's
/// when normals are recomputed and it gives them, otherwise 0; tangents are
/// flipped only by a valid profile asking for it.
pub proof fn lemma_mesh_update_settings_meaning(
    profile_valid: bool,
    profile_flip: bool,
    encoding: Seq<char>,
    reg: (Option<u32>, Option<u32>, Option<u32>, Option<u32>),
    mod_ts_update: i32,
)
    ensures
        ({
            let r = spec_mesh_update_settings(profile_valid, profile_flip, encoding, reg, mod_ts_update);
            &&& r.update_normals <==> (reg.0 matches Some(x) && x > 0)
            &&& r.reverse <==> (reg.2 matches Some(x) && x > 0)
            &&& r.update_tangents <==> if mod_ts_update == 0 {
                false
            } else if mod_ts_update == 1 {
                true
            } else {
                reg.1 is None || reg.1->0 > 0
            }
            &&& r.normal_flags == if r.update_normals && reg.3 is Some {
                reg.3->0
            } else {
                0u32
            }
            &&& r.flip_tangent <==> (profile_valid && profile_flip)
        }),
{
}

/// Whether a vector encoding name, already lowercased and trimmed, names the
/// octahedral encoding.
pub fn encoding_is_octa(name: &str) -> (r: bool)
    ensures
        r == (name@ == seq!['o', 'c', 't', 'a']),
{
    let name = String::from_str(name);
    let octa = String::from_str("octa");
    proof {
        reveal_strlit("octa");
        assert(octa@ =~= seq!['o', 'c', 't', 'a']);
    }
    name == octa
}

/// Decides what the normal/tangent update of a mod does.
pub fn mesh_update_settings(profile: &MeshProfile, reg: &MeshRegistry, mod_ts_update: i32) -> (r:
    MeshUpdateSettings)
    ensures
        r == spec_mesh_update_settings(
            profile.valid,
            profile.flip_tangent,
            profile.vec_encoding@,
            (reg.update_normals, reg.update_tangents, reg.reverse_normals, reg.normal_flags),
            mod_ts_update,
        ),
        r.update_normals <==> (reg.update_normals matches Some(x) && x > 0),
        r.reverse <==> (reg.reverse_normals matches Some(x) && x > 0),
        r.update_tangents <==> if mod_ts_update == 0 {
            false
        } else if mod_ts_update == 1 {
            true
        } else {
            reg.update_tangents is None || reg.update_tangents->0 > 0
        },
        r.normal_flags == if r.update_normals && reg.normal_flags is Some {
            reg.normal_flags->0
        } else {
            0u32
        },
        r.flip_tangent <==> (profile.valid && profile.flip_tangent),
        r.enc_vec_octa <==> (profile.valid && trimmed(lowercase(profile.vec_encoding@)) == seq!['o', 'c', 't', 'a']),
{
    let enc_vec_octa = if profile.valid {
        let lower = to_lowercase(profile.vec_encoding.as_str());
        encoding_is_octa(trim(lower.as_str()))
    } else {
        false
    };
    let update_normals = match reg.update_normals {
        Some(x) => x > 0,
        None => false,
    };
    let reg_tangents = match reg.update_tangents {
        Some(x) => x > 0,
        None => true,
    };
    let reverse = match reg.reverse_normals {
        Some(x) => x > 0,
        None => false,
    };
    let normal_flags = if update_normals {
        match reg.normal_flags {
            Some(f) => f,
            None => 0,
        }
    } else {
        0
    };
    let update_tangents = if mod_ts_update == 0 {
        false
    } else if mod_ts_update == 1 {
        true
    } else {
        reg_tangents
    };
    MeshUpdateSettings {
        update_normals,
        update_tangents,
        reverse,
        normal_flags,
        enc_vec_octa,
        flip_tangent: profile.valid && profile.flip_tangent,
    }
}

/// Why the layout of a mod cannot take the update.
#[derive(Clone, Copy, Debug, PartialEq, Eq, Structural)]
pub enum MeshLayoutError {
    MissingPosition,
    UnsupportedPositionFormat,
    MissingNormal,
    MissingTexcoord,
    /// The normals to keep are stored in a format that cannot be read.
    UnsupportedNormalFormat(u32),
    UnsupportedTexcoordFormat,
    MissingTangent,
    MissingBitangent,
    /// A computed vector cannot be written in the element's format.
    UnsupportedVectorFormat(u32),
}

/// ASCII "position".
pub open spec fn position_name() -> Seq<u8> {
    seq![112u8, 111u8, 115u8, 105u8, 116u8, 105u8, 111u8, 110u8]
}

/// ASCII "normal".
pub open spec fn normal_name() -> Seq<u8> {
    seq![110u8, 111u8, 114u8, 109u8, 97u8, 108u8]
}

/// ASCII "texcoord".
pub open spec fn texcoord_name() -> Seq<u8> {
    seq![116u8, 101u8, 120u8, 99u8, 111u8, 111u8, 114u8, 100u8]
}

/// ASCII "tangent".
pub open spec fn tangent_name() -> Seq<u8> {
    seq![116u8, 97u8, 110u8, 103u8, 101u8, 110u8, 116u8]
}

/// ASCII "bitangent".
pub open spec fn bitangent_name() -> Seq<u8> {
    seq![98u8, 105u8, 116u8, 97u8, 110u8, 103u8, 101u8, 110u8, 116u8]
}

/// ASCII "binormal".
pub open spec fn binormal_name() -> Seq<u8> {
    seq![98u8, 105u8, 110u8, 111u8, 114u8, 109u8, 97u8, 108u8]
}

/// `name`, ASCII-lowercased, starts with the lowercase `prefix`.
pub open spec fn lower_starts_with(name: Seq<u8>, prefix: Seq<u8>) -> bool {
    name.len() >= prefix.len() && forall|i: int| 0 <= i < prefix.len() ==> #[trigger] ascii_lower(name[i]) == prefix[i]
}

/// The element's semantic name starts with `prefix` (ignoring ASCII case),
/// and, with `index0`, its semantic index is 0.
pub open spec fn element_matches(e: InputElement, prefix: Seq<u8>, index0: bool) -> bool {
    &&& e.semantic_name matches Some(n) && lower_starts_with(n@, prefix)
    &&& index0 ==> e.semantic_index == 0
}

/// Some element of the layout matches.
pub open spec fn has_match(layout: Seq<InputElement>, prefix: Seq<u8>, index0: bool) -> bool {
    exists|i: int| 0 <= i < layout.len() && #[trigger] element_matches(layout[i], prefix, index0)
}

/// `i` is the first matching element of the layout.
pub open spec fn is_first_match(layout: Seq<InputElement>, prefix: Seq<u8>, index0: bool, i: int) -> bool {
    &&& 0 <= i < layout.len()
    &&& element_matches(layout[i], prefix, index0)
    &&& forall|j: int| 0 <= j < i ==> !#[trigger] element_matches(layout[j], prefix, index0)
}

/// The first matching element (meaningful where there is one).
pub open spec fn first_match(layout: Seq<InputElement>, prefix: Seq<u8>, index0: bool) -> int {
    choose|i: int| is_first_match(layout, prefix, index0, i)
}

/// The first match is unique, so `first_match` names it.
proof fn lemma_first_match_unique(layout: Seq<InputElement>, prefix: Seq<u8>, index0: bool, i: int)
    requires
        is_first_match(layout, prefix, index0, i),
    ensures
        first_match(layout, prefix, index0) == i,
{
    let k = first_match(layout, prefix, index0);
    assert(is_first_match(layout, prefix, index0, k));
    if k < i {
        assert(!element_matches(layout[k], prefix, index0));
    } else if i < k {
        assert(!element_matches(layout[i], prefix, index0));
    }
}

fn lower_byte(b: u8) -> (r: u8)
    ensures
        r == ascii_lower(b),
{
    if 65 <= b && b <= 90 {
        b + 32
    } else {
        b
    }
}

/// Whether `name`, ASCII-lowercased, starts with `prefix`.
fn starts_with_lower(name: &[u8], prefix: &[u8]) -> (r: bool)
    ensures
        r == lower_starts_with(name@, prefix@),
{
    if name.len() < prefix.len() {
        return false;
    }
    let mut i: usize = 0;
    while i < prefix.len()
        invariant
            name@.len() >= prefix@.len(),
            i <= prefix@.len(),
            forall|j: int| 0 <= j < i ==> #[trigger] ascii_lower(name@[j]) == prefix@[j],
        decreases prefix@.len() - i,
    {
        if lower_byte(name[i]) != prefix[i] {
            return false;
        }
        i = i + 1;
    }
    true
}

/// The index of the first element whose semantic name starts with `prefix`
/// (ignoring ASCII case), and whose semantic index is 0 if `index0`.
pub fn find_element(layout: &Vec<InputElement>, prefix: &[u8], index0: bool) -> (r: Option<usize>)
    ensures
        match r {
            Some(i) => is_first_match(layout@, prefix@, index0, i as int),
            None => !has_match(layout@, prefix@, index0),
        },
{
    let mut i: usize = 0;
    while i < layout.len()
        invariant
            i <= layout@.len(),
            forall|j: int| 0 <= j < i ==> !#[trigger] element_matches(layout@[j], prefix@, index0),
        decreases layout@.len() - i,
    {
        let e = &layout[i];
        let hit = match &e.semantic_name {
            Some(n) => starts_with_lower(n.as_slice(), prefix) && (!index0 || e.semantic_index == 0),
            None => false,
        };
        if hit {
            return Some(i);
        }
        i = i + 1;
    }
    None
}

/// Positions can be read as three or four 32-bit floats.
pub open spec fn position_format_ok(f: u32) -> bool {
    f == DXGI_FORMAT_R32G32B32_FLOAT || f == DXGI_FORMAT_R32G32B32A32_FLOAT
}

/// Normals that are kept can be read from packed 16-bit or RGBA8 storage.
pub open spec fn normal_read_format_ok(f: u32) -> bool {
    f == DXGI_FORMAT_R16G16B16A16_SINT || f == DXGI_FORMAT_R8G8B8A8_UNORM
}

/// Texture coordinates can be read from these formats.
pub open spec fn texcoord_format_ok(f: u32) -> bool {
    f == DXGI_FORMAT_R16G16B16A16_SNORM || f == DXGI_FORMAT_R32G32_FLOAT || f == DXGI_FORMAT_R16G16_FLOAT
}

/// The elements read from each vertex.
#[derive(Clone, Copy, Debug, PartialEq, Eq, Structural)]
pub struct ReadElements {
    pub position: usize,
    pub normal: usize,
    /// The texture coordinates (index 0), needed for tangents.
    pub texcoord: Option<usize>,
}

/// What reading the vertices needs, and the first obstacle found: the
/// position (in a float format), the normal, the texture coordinates of
/// index 0 when tangents are updated, then, when there is a vertex, the
/// formats of the normals kept and of the texture coordinates.
pub open spec fn spec_read_elements(layout: Seq<InputElement>, s: MeshUpdateSettings, vert_count: u32) -> Result<
    ReadElements,
    MeshLayoutError,
> {
    let pos = first_match(layout, position_name(), false);
    let norm = first_match(layout, normal_name(), false);
    let tex = first_match(layout, texcoord_name(), true);
    if !has_match(layout, position_name(), false) {
        Err(MeshLayoutError::MissingPosition)
    } else if !position_format_ok(layout[pos].format) {
        Err(MeshLayoutError::UnsupportedPositionFormat)
    } else if !has_match(layout, normal_name(), false) {
        Err(MeshLayoutError::MissingNormal)
    } else if s.update_tangents && !has_match(layout, texcoord_name(), true) {
        Err(MeshLayoutError::MissingTexcoord)
    } else if vert_count > 0 && !s.update_normals && !normal_read_format_ok(layout[norm].format) {
        Err(MeshLayoutError::UnsupportedNormalFormat(layout[norm].format))
    } else if vert_count > 0 && s.update_tangents && !texcoord_format_ok(layout[tex].format) {
        Err(MeshLayoutError::UnsupportedTexcoordFormat)
    } else {
        Ok(
            ReadElements {
                position: pos as usize,
                normal: norm as usize,
                texcoord: if s.update_tangents {
                    Some(tex as usize)
                } else {
                    None
                },
            },
        )
    }
}

fn position_prefix() -> (r: Vec<u8>)
    ensures
        r@ == position_name(),
{
    let r = vec![112u8, 111u8, 115u8, 105u8, 116u8, 105u8, 111u8, 110u8];
    assert(r@ =~= position_name());
    r
}

fn normal_prefix() -> (r: Vec<u8>)
    ensures
        r@ == normal_name(),
{
    let r = vec![110u8, 111u8, 114u8, 109u8, 97u8, 108u8];
    assert(r@ =~= normal_name());
    r
}

fn texcoord_prefix() -> (r: Vec<u8>)
    ensures
        r@ == texcoord_name(),
{
    let r = vec![116u8, 101u8, 120u8, 99u8, 111u8, 111u8, 114u8, 100u8];
    assert(r@ =~= texcoord_name());
    r
}

fn tangent_prefix() -> (r: Vec<u8>)
    ensures
        r@ == tangent_name(),
{
    let r = vec![116u8, 97u8, 110u8, 103u8, 101u8, 110u8, 116u8];
    assert(r@ =~= tangent_name());
    r
}

fn bitangent_prefix() -> (r: Vec<u8>)
    ensures
        r@ == bitangent_name(),
{
    let r = vec![98u8, 105u8, 116u8, 97u8, 110u8, 103u8, 101u8, 110u8, 116u8];
    assert(r@ =~= bitangent_name());
    r
}

fn binormal_prefix() -> (r: Vec<u8>)
    ensures
        r@ == binormal_name(),
{
    let r = vec![98u8, 105u8, 110u8, 111u8, 114u8, 109u8, 97u8, 108u8];
    assert(r@ =~= binormal_name());
    r
}

/// Finds the elements read from each vertex, or the first reason the layout
/// cannot be read.
pub fn read_elements(layout: &VertexFormat, s: &MeshUpdateSettings, vert_count: u32) -> (r: Result<
    ReadElements,
    MeshLayoutError,
>)
    ensures
        r == spec_read_elements(layout.layout@, *s, vert_count),
{
    let ghost l = layout.layout@;
    let pos = match find_element(&layout.layout, position_prefix().as_slice(), false) {
        Some(i) => i,
        None => {
            return Err(MeshLayoutError::MissingPosition);
        },
    };
    proof {
        lemma_first_match_unique(l, position_name(), false, pos as int);
    }
    let pf = layout.layout[pos].format;
    if pf != DXGI_FORMAT_R32G32B32_FLOAT && pf != DXGI_FORMAT_R32G32B32A32_FLOAT {
        return Err(MeshLayoutError::UnsupportedPositionFormat);
    }
    let norm = match find_element(&layout.layout, normal_prefix().as_slice(), false) {
        Some(i) => i,
        None => {
            return Err(MeshLayoutError::MissingNormal);
        },
    };
    proof {
        lemma_first_match_unique(l, normal_name(), false, norm as int);
    }
    let tex = if s.update_tangents {
        match find_element(&layout.layout, texcoord_prefix().as_slice(), true) {
            Some(i) => {
                proof {
                    lemma_first_match_unique(l, texcoord_name(), true, i as int);
                }
                Some(i)
            },
            None => {
                return Err(MeshLayoutError::MissingTexcoord);
            },
        }
    } else {
        None
    };
    if vert_count > 0 && !s.update_normals {
        let nf = layout.layout[norm].format;
        if nf != DXGI_FORMAT_R16G16B16A16_SINT && nf != DXGI_FORMAT_R8G8B8A8_UNORM {
            return Err(MeshLayoutError::UnsupportedNormalFormat(nf));
        }
    }
    if vert_count > 0 {
        if let Some(t) = tex {
            let tf = layout.layout[t].format;
            if tf != DXGI_FORMAT_R16G16B16A16_SNORM && tf != DXGI_FORMAT_R32G32_FLOAT && tf
                != DXGI_FORMAT_R16G16_FLOAT {
                return Err(MeshLayoutError::UnsupportedTexcoordFormat);
            }
        }
    }
    Ok(ReadElements { position: pos, normal: norm, texcoord: tex })
}

/// The elements the tangents and bitangents are written to: the first
/// "tangent" element, or else the normal element when it packs 16-bit
/// vectors (the tangent then takes its second half); the first "bitangent"
/// element, or else the first "binormal" one.
pub open spec fn spec_tangent_elements(layout: Seq<InputElement>, normal: int) -> Result<
    (usize, usize),
    MeshLayoutError,
> {
    let tan = if has_match(layout, tangent_name(), false) {
        Some(first_match(layout, tangent_name(), false))
    } else if layout[normal].format == DXGI_FORMAT_R16G16B16A16_SINT {
        Some(normal)
    } else {
        None
    };
    let bitan = if has_match(layout, bitangent_name(), false) {
        Some(first_match(layout, bitangent_name(), false))
    } else if has_match(layout, binormal_name(), false) {
        Some(first_match(layout, binormal_name(), false))
    } else {
        None
    };
    match tan {
        None => Err(MeshLayoutError::MissingTangent),
        Some(t) => match bitan {
            None => Err(MeshLayoutError::MissingBitangent),
            Some(b) => Ok((t as usize, b as usize)),
        },
    }
}

/// Finds the tangent and bitangent elements, given the normal element.
pub fn tangent_elements(layout: &VertexFormat, normal: usize) -> (r: Result<(usize, usize), MeshLayoutError>)
    requires
        normal < layout.layout@.len(),
    ensures
        r == spec_tangent_elements(layout.layout@, normal as int),
{
    let ghost l = layout.layout@;
    let tan = match find_element(&layout.layout, tangent_prefix().as_slice(), false) {
        Some(i) => {
            proof {
                lemma_first_match_unique(l, tangent_name(), false, i as int);
            }
            i
        },
        None => {
            if layout.layout[normal].format == DXGI_FORMAT_R16G16B16A16_SINT {
                normal
            } else {
                return Err(MeshLayoutError::MissingTangent);
            }
        },
    };
    let bitan = match find_element(&layout.layout, bitangent_prefix().as_slice(), false) {
        Some(i) => {
            proof {
                lemma_first_match_unique(l, bitangent_name(), false, i as int);
            }
            i
        },
        None => match find_element(&layout.layout, binormal_prefix().as_slice(), false) {
            Some(i) => {
                proof {
                    lemma_first_match_unique(l, binormal_name(), false, i as int);
                }
                i
            },
            None => {
                return Err(MeshLayoutError::MissingBitangent);
            },
        },
    };
    Ok((tan, bitan))
}

/// The vector written to an element.
#[derive(Clone, Copy, Debug, PartialEq, Eq, Structural)]
pub enum VectorKind {
    Normal,
    Tangent,
    Bitangent,
}

/// A vector can be written in the format: packed 16-bit normals and
/// tangents share a four-short element, a packed bitangent takes a two-short
/// element, and any of them can go to RGBA8.
pub open spec fn spec_vector_write_ok(kind: VectorKind, format: u32) -> bool {
    format == DXGI_FORMAT_R8G8B8A8_UNORM || match kind {
        VectorKind::Normal => format == DXGI_FORMAT_R16G16B16A16_SINT,
        VectorKind::Tangent => format == DXGI_FORMAT_R16G16B16A16_SINT,
        VectorKind::Bitangent => format == DXGI_FORMAT_R16G16_SINT,
    }
}

/// Whether the vector can be written in the format; the error names the
/// format otherwise.
pub fn check_vector_write(kind: VectorKind, format: u32) -> (r: Result<(), MeshLayoutError>)
    ensures
        r == (if spec_vector_write_ok(kind, format) {
            Ok(())
        } else {
            Err(MeshLayoutError::UnsupportedVectorFormat(format))
        }),
{
    let ok = format == DXGI_FORMAT_R8G8B8A8_UNORM || match kind {
        VectorKind::Normal => format == DXGI_FORMAT_R16G16B16A16_SINT,
        VectorKind::Tangent => format == DXGI_FORMAT_R16G16B16A16_SINT,
        VectorKind::Bitangent => format == DXGI_FORMAT_R16G16_SINT,
    };
    if ok {
        Ok(())
    } else {
        Err(MeshLayoutError::UnsupportedVectorFormat(format))
    }
}

} // verus!
