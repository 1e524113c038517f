//! Mod records as the renderer keeps them: the numbers that describe a mod's
//! geometry, its texture-checksum constraint, its parents and when it was last
//! drawn.
use vstd::prelude::*;

verus! {

/// Number of texture stages a mod can constrain by checksum (one bit each in
/// `ModData::tex_checksum_mask`).
pub const MAX_CHECKSUM_STAGES: usize = 8;

/// A parent mod counts as "recently rendered" if it was drawn at most this many
/// frames ago.
pub const MAX_RECENT_RENDER_PARENT_THRESH: u64 = 10;

/// The kind of a mod, in the order the managed side numbers them.
#[derive(Clone, Copy, Debug, PartialEq, Eq, Structural)]
pub enum ModType {
    NoType,
    CPUAdditive,
    CPUReplacement,
    GPUReplacement,
    GPUPertubation,
    Deletion,
}

impl ModType {
    pub open spec fn spec_code(self) -> i32 {
        match self {
            ModType::NoType => 0,
            ModType::CPUAdditive => 1,
            ModType::CPUReplacement => 2,
            ModType::GPUReplacement => 3,
            ModType::GPUPertubation => 4,
            ModType::Deletion => 5,
        }
    }

    /// The integer code the managed side uses for this mod type.
    pub fn code(self) -> (c: i32)
        ensures
            c == self.spec_code(),
    {
        match self {
            ModType::NoType => 0,
            ModType::CPUAdditive => 1,
            ModType::CPUReplacement => 2,
            ModType::GPUReplacement => 3,
            ModType::GPUPertubation => 4,
            ModType::Deletion => 5,
        }
    }

    /// The mod type with the given code, if there is one.
    pub fn from_code(c: i32) -> (t: Option<ModType>)
        ensures
            match t {
                Some(t) => t.spec_code() == c,
                None => c < 0 || c > 5,
            },
    {
        match c {
            0 => Some(ModType::NoType),
            1 => Some(ModType::CPUAdditive),
            2 => Some(ModType::CPUReplacement),
            3 => Some(ModType::GPUReplacement),
            4 => Some(ModType::GPUPertubation),
            5 => Some(ModType::Deletion),
            _ => None,
        }
    }
}

/// The counts that describe a mod's geometry and the reference geometry it replaces.
#[derive(Clone, Copy, Debug)]
pub struct ModNumbers {
    pub mod_type: i32,
    pub prim_type: i32,
    pub vert_count: i32,
    pub prim_count: i32,
    pub index_count: i32,
    pub ref_vert_count: i32,
    pub ref_prim_count: i32,
    pub decl_size_bytes: i32,
    pub vert_size_bytes: i32,
    pub index_elem_size_bytes: i32,
}

impl ModNumbers {
    /// All counts zero.
    pub fn zeroed() -> (n: ModNumbers)
        ensures
            n.mod_type == 0 && n.prim_type == 0 && n.vert_count == 0 && n.prim_count == 0
                && n.index_count == 0 && n.ref_vert_count == 0 && n.ref_prim_count == 0
                && n.decl_size_bytes == 0 && n.vert_size_bytes == 0 && n.index_elem_size_bytes
                == 0,
    {
        ModNumbers {
            mod_type: 0,
            prim_type: 0,
            vert_count: 0,
            prim_count: 0,
            index_count: 0,
            ref_vert_count: 0,
            ref_prim_count: 0,
            decl_size_bytes: 0,
            vert_size_bytes: 0,
            index_elem_size_bytes: 0,
        }
    }
}

/// Per-mod data from the managed side that the selection logic reads.
#[derive(Clone, Copy, Debug)]
pub struct ModData {
    pub numbers: ModNumbers,
    /// Bit `i` set means the texture bound on stage `i` must have checksum `tex_checksums[i]`.
    pub tex_checksum_mask: u8,
    pub tex_checksums: [u32; 8],
}

/// How far a mod's D3D resources (buffers, textures) have been created.
#[derive(Clone, Copy, Debug, PartialEq, Eq, Structural)]
pub enum ModD3DState {
    Unloaded,
    /// Some resources were created, but not all of them.
    Partial,
    Loaded,
}

/// A loaded mod.
pub struct NativeModData {
    pub midx: i32,
    pub mod_data: ModData,
    pub d3d_data: ModD3DState,
    pub is_parent: bool,
    /// Lowercased names of the mods this one may be drawn under ("or" list).
    pub parent_mod_names: Vec<String>,
    /// Frame in which the mod was last drawn (0 for a new mod).
    pub last_frame_render: u64,
    /// Lowercased name of the mod.
    pub name: String,
}

/// Cantor pairing of the two counts.
pub open spec fn cantor(vert_count: int, prim_count: int) -> int {
    ((vert_count + prim_count) * (vert_count + prim_count + 1)) / 2 + prim_count
}

/// True when computing the mod key of these counts stays within `u32`.
pub open spec fn mod_key_fits(vert_count: u32, prim_count: u32) -> bool {
    (vert_count + prim_count) * (vert_count + prim_count + 1) <= u32::MAX
}

impl NativeModData {
    /// A mod with no name, no parents, zero counts and no checksum constraint.
    pub fn new() -> (m: NativeModData)
        ensures
            m.midx == 0,
            m.d3d_data == ModD3DState::Unloaded,
            !m.is_parent,
            m.parent_mod_names@.len() == 0,
            m.last_frame_render == 0,
            m.name@.len() == 0,
            m.mod_data.tex_checksum_mask == 0,
            m.mod_data.numbers == ModNumbers::zeroed_spec(),
            forall|i: int| 0 <= i < 8 ==> m.mod_data.tex_checksums[i] == 0,
    {
        NativeModData {
            midx: 0,
            mod_data: ModData {
                numbers: ModNumbers::zeroed(),
                tex_checksum_mask: 0,
                tex_checksums: [0u32; 8],
            },
            d3d_data: ModD3DState::Unloaded,
            is_parent: false,
            parent_mod_names: Vec::new(),
            last_frame_render: 0,
            name: String::new(),
        }
    }

    /// Key under which mods for the given reference geometry are stored: the
    /// Cantor pairing of the vertex and primitive counts.
    pub fn mod_key(vert_count: u32, prim_count: u32) -> (k: u32)
        requires
            mod_key_fits(vert_count, prim_count),
        ensures
            k == cantor(vert_count as int, prim_count as int),
    {
        let s: u64 = vert_count as u64 + prim_count as u64;
        proof {
            let si = s as int;
            assert(si * (si + 1) <= u32::MAX);
            assert(si <= si * (si + 1)) by (nonlinear_arith)
                requires
                    si >= 0,
            ;
            assert(si * (si + 1) / 2 + prim_count <= u32::MAX) by (nonlinear_arith)
                requires
                    si * (si + 1) <= u32::MAX,
                    0 <= prim_count <= si,
            ;
        }
        let prod: u64 = s * (s + 1);
        (prod / 2 + prim_count as u64) as u32
    }

    /// True if the mod's D3D resources are all created.
    pub fn is_loaded(&self) -> (r: bool)
        ensures
            r == (self.d3d_data == ModD3DState::Loaded),
    {
        match self.d3d_data {
            ModD3DState::Loaded => true,
            _ => false,
        }
    }

    pub open spec fn spec_recently_rendered(&self, curr_frame_num: u64) -> bool {
        self.last_frame_render > curr_frame_num || curr_frame_num - self.last_frame_render
            <= MAX_RECENT_RENDER_PARENT_THRESH
    }

    /// True if the mod was drawn within the last few frames (or, oddly, in the future).
    pub fn recently_rendered(&self, curr_frame_num: u64) -> (r: bool)
        ensures
            r == self.spec_recently_rendered(curr_frame_num),
    {
        if self.last_frame_render > curr_frame_num {
            return true;
        }
        curr_frame_num - self.last_frame_render <= MAX_RECENT_RENDER_PARENT_THRESH
    }
}

impl ModNumbers {
    pub open spec fn zeroed_spec() -> ModNumbers {
        ModNumbers {
            mod_type: 0,
            prim_type: 0,
            vert_count: 0,
            prim_count: 0,
            index_count: 0,
            ref_vert_count: 0,
            ref_prim_count: 0,
            decl_size_bytes: 0,
            vert_size_bytes: 0,
            index_elem_size_bytes: 0,
        }
    }
}

proof fn lemma_half_step(s: int)
    requires
        s >= 0,
    ensures
        ((s + 1) * (s + 2)) / 2 == (s * (s + 1)) / 2 + s + 1,
{
    assert((s + 1) * (s + 2) == s * (s + 1) + 2 * (s + 1)) by (nonlinear_arith);
    assert(s * (s + 1) >= 0) by (nonlinear_arith)
        requires
            s >= 0,
    ;
}

proof fn lemma_half_mono(a: int, b: int)
    requires
        0 <= a <= b,
    ensures
        (a * (a + 1)) / 2 <= (b * (b + 1)) / 2,
    decreases b - a,
{
    if a < b {
        lemma_half_mono(a, b - 1);
        lemma_half_step(b - 1);
    }
}

/// Distinct reference geometries get distinct keys: the Cantor pairing is
/// injective on the counts whose key can be computed.
pub proof fn lemma_mod_key_injective(v1: u32, p1: u32, v2: u32, p2: u32)
    requires
        mod_key_fits(v1, p1),
        mod_key_fits(v2, p2),
        cantor(v1 as int, p1 as int) == cantor(v2 as int, p2 as int),
    ensures
        v1 == v2,
        p1 == p2,
{
    let s1 = v1 + p1;
    let s2 = v2 + p2;
    if s1 < s2 {
        lemma_half_mono(s1 + 1, s2);
        lemma_half_step(s1);
        assert(false);
    } else if s2 < s1 {
        lemma_half_mono(s2 + 1, s1);
        lemma_half_step(s2);
        assert(false);
    }
}

} // verus!
