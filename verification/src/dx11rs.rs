//! DX11 render-state bookkeeping: vertex input layouts, the semantics a layout
//! declares, vertex sizes, and the primitive/vertex counts of a draw.
use vstd::prelude::*;
use fnv::FnvHashMap;
use crate::fnv_maps::{fnv_map_get, fnv_map_new};
use crate::text::{decimal, u64_to_decimal};

verus! {

/// Packed bitmask of (semantic, semantic index) pairs declared by a vertex
/// layout, restricted to the semantics ModelMod fills.
pub type SemanticMask = u128;

/// The D3D semantic names ModelMod fills.
#[derive(Debug, Clone, Copy, PartialEq, Eq, Hash, Structural)]
pub enum Semantic {
    Position,
    Normal,
    TexCoord,
    Binormal,
    Bitangent,
    Color,
    Tangent,
    BlendIndices,
    BlendWeight,
}

/// Number of semantic indices per semantic that fit in the mask; higher
/// indices are clamped to the top slot.
pub const SEM_INDEX_SLOTS: u32 = 14;

/// ASCII lowercase of a byte.
pub open spec fn ascii_lower(b: u8) -> u8 {
    if 65 <= b <= 90 {
        (b + 32) as u8
    } else {
        b
    }
}

/// The two byte strings are equal ignoring ASCII case.
pub open spec fn eq_ignore_case(a: Seq<u8>, b: Seq<u8>) -> bool {
    a.len() == b.len() && forall|i: int| 0 <= i < a.len() ==> #[trigger] ascii_lower(a[i]) == ascii_lower(b[i])
}

/// `[u8]::eq_ignore_ascii_case`.
pub fn bytes_eq_ignore_ascii_case(a: &[u8], b: &[u8]) -> (r: bool)
    ensures
        r == eq_ignore_case(a@, b@),
{
    if a.len() != b.len() {
        return false;
    }
    let mut i: usize = 0;
    while i < a.len()
        invariant
            a@.len() == b@.len(),
            i <= a@.len(),
            forall|j: int| 0 <= j < i ==> #[trigger] ascii_lower(a@[j]) == ascii_lower(b@[j]),
        decreases a@.len() - i,
    {
        let x = a[i];
        let y = b[i];
        let lx: u8 = if 65 <= x && x <= 90 {
            x + 32
        } else {
            x
        };
        let ly: u8 = if 65 <= y && y <= 90 {
            y + 32
        } else {
            y
        };
        if lx != ly {
            assert(ascii_lower(a@[i as int]) != ascii_lower(b@[i as int]));
            return false;
        }
        i = i + 1;
    }
    true
}

impl Semantic {
    /// The semantic's slot number (0 for `Position` up to 8 for `BlendWeight`).
    pub open spec fn spec_index(self) -> u32 {
        match self {
            Semantic::Position => 0,
            Semantic::Normal => 1,
            Semantic::TexCoord => 2,
            Semantic::Binormal => 3,
            Semantic::Bitangent => 4,
            Semantic::Color => 5,
            Semantic::Tangent => 6,
            Semantic::BlendIndices => 7,
            Semantic::BlendWeight => 8,
        }
    }

    pub fn index(self) -> (r: u32)
        ensures
            r == self.spec_index(),
    {
        match self {
            Semantic::Position => 0,
            Semantic::Normal => 1,
            Semantic::TexCoord => 2,
            Semantic::Binormal => 3,
            Semantic::Bitangent => 4,
            Semantic::Color => 5,
            Semantic::Tangent => 6,
            Semantic::BlendIndices => 7,
            Semantic::BlendWeight => 8,
        }
    }

    /// The semantic a D3D semantic name denotes (case-insensitive), if ModelMod fills it.
    pub open spec fn spec_from_name(name: Seq<u8>) -> Option<Semantic> {
        if eq_ignore_case(name, seq![80u8, 79, 83, 73, 84, 73, 79, 78]) {
            Some(Semantic::Position)
        } else if eq_ignore_case(name, seq![78u8, 79, 82, 77, 65, 76]) {
            Some(Semantic::Normal)
        } else if eq_ignore_case(name, seq![84u8, 69, 88, 67, 79, 79, 82, 68]) {
            Some(Semantic::TexCoord)
        } else if eq_ignore_case(name, seq![66u8, 73, 78, 79, 82, 77, 65, 76]) {
            Some(Semantic::Binormal)
        } else if eq_ignore_case(name, seq![66u8, 73, 84, 65, 78, 71, 69, 78, 84]) {
            Some(Semantic::Bitangent)
        } else if eq_ignore_case(name, seq![67u8, 79, 76, 79, 82]) {
            Some(Semantic::Color)
        } else if eq_ignore_case(name, seq![84u8, 65, 78, 71, 69, 78, 84]) {
            Some(Semantic::Tangent)
        } else if eq_ignore_case(name, seq![66u8, 76, 69, 78, 68, 73, 78, 68, 73, 67, 69, 83]) {
            Some(Semantic::BlendIndices)
        } else if eq_ignore_case(name, seq![66u8, 76, 69, 78, 68, 87, 69, 73, 71, 72, 84]) {
            Some(Semantic::BlendWeight)
        } else {
            None
        }
    }

    /// D3D treats semantic names as case-insensitive; so does this.
    pub fn from_name_bytes(name: &[u8]) -> (r: Option<Semantic>)
        ensures
            r == Semantic::spec_from_name(name@),
    {
        let w_position: [u8; 8] = [80, 79, 83, 73, 84, 73, 79, 78];
        proof { assert(w_position@ =~= seq![80u8, 79, 83, 73, 84, 73, 79, 78]); }
        let w_normal: [u8; 6] = [78, 79, 82, 77, 65, 76];
        proof { assert(w_normal@ =~= seq![78u8, 79, 82, 77, 65, 76]); }
        let w_texcoord: [u8; 8] = [84, 69, 88, 67, 79, 79, 82, 68];
        proof { assert(w_texcoord@ =~= seq![84u8, 69, 88, 67, 79, 79, 82, 68]); }
        let w_binormal: [u8; 8] = [66, 73, 78, 79, 82, 77, 65, 76];
        proof { assert(w_binormal@ =~= seq![66u8, 73, 78, 79, 82, 77, 65, 76]); }
        let w_bitangent: [u8; 9] = [66, 73, 84, 65, 78, 71, 69, 78, 84];
        proof { assert(w_bitangent@ =~= seq![66u8, 73, 84, 65, 78, 71, 69, 78, 84]); }
        let w_color: [u8; 5] = [67, 79, 76, 79, 82];
        proof { assert(w_color@ =~= seq![67u8, 79, 76, 79, 82]); }
        let w_tangent: [u8; 7] = [84, 65, 78, 71, 69, 78, 84];
        proof { assert(w_tangent@ =~= seq![84u8, 65, 78, 71, 69, 78, 84]); }
        let w_blendindices: [u8; 12] = [66, 76, 69, 78, 68, 73, 78, 68, 73, 67, 69, 83];
        proof { assert(w_blendindices@ =~= seq![66u8, 76, 69, 78, 68, 73, 78, 68, 73, 67, 69, 83]); }
        let w_blendweight: [u8; 11] = [66, 76, 69, 78, 68, 87, 69, 73, 71, 72, 84];
        proof { assert(w_blendweight@ =~= seq![66u8, 76, 69, 78, 68, 87, 69, 73, 71, 72, 84]); }
        if bytes_eq_ignore_ascii_case(name, &w_position) {
            Some(Semantic::Position)
        } else if bytes_eq_ignore_ascii_case(name, &w_normal) {
            Some(Semantic::Normal)
        } else if bytes_eq_ignore_ascii_case(name, &w_texcoord) {
            Some(Semantic::TexCoord)
        } else if bytes_eq_ignore_ascii_case(name, &w_binormal) {
            Some(Semantic::Binormal)
        } else if bytes_eq_ignore_ascii_case(name, &w_bitangent) {
            Some(Semantic::Bitangent)
        } else if bytes_eq_ignore_ascii_case(name, &w_color) {
            Some(Semantic::Color)
        } else if bytes_eq_ignore_ascii_case(name, &w_tangent) {
            Some(Semantic::Tangent)
        } else if bytes_eq_ignore_ascii_case(name, &w_blendindices) {
            Some(Semantic::BlendIndices)
        } else if bytes_eq_ignore_ascii_case(name, &w_blendweight) {
            Some(Semantic::BlendWeight)
        } else {
            None
        }
    }

    /// The bit position of (semantic, index) in a mask.
    pub open spec fn bit_pos(self, index: u32) -> u32 {
        (self.spec_index() * 14 + if index < 13 {
            index as int
        } else {
            13
        }) as u32
    }

    /// The single mask bit for (semantic, index); indices past the last slot
    /// share the last slot.
    pub fn mask_bit(self, index: u32) -> (r: SemanticMask)
        ensures
            r == 1u128 << self.bit_pos(index),
            self.bit_pos(index) < 126,
    {
        let idx = if index < SEM_INDEX_SLOTS - 1 {
            index
        } else {
            SEM_INDEX_SLOTS - 1
        };
        let pos = self.index() * SEM_INDEX_SLOTS + idx;
        1u128 << pos
    }
}

/// One element of a vertex input layout (`D3D11_INPUT_ELEMENT_DESC`, with the
/// semantic name copied out; `None` where the name pointer was null).
#[derive(Clone, Debug)]
pub struct InputElement {
    pub semantic_name: Option<Vec<u8>>,
    pub semantic_index: u32,
    pub format: u32,
    pub input_slot: u32,
    pub aligned_byte_offset: u32,
    pub input_slot_class: u32,
    pub instance_data_step_rate: u32,
}

/// Two elements agree: same name bytes (or both unnamed) and same fields.
pub open spec fn same_element(a: InputElement, b: InputElement) -> bool {
    &&& match (a.semantic_name, b.semantic_name) {
        (Some(x), Some(y)) => x@ == y@,
        (None, None) => true,
        _ => false,
    }
    &&& a.semantic_index == b.semantic_index
    &&& a.format == b.format
    &&& a.input_slot == b.input_slot
    &&& a.aligned_byte_offset == b.aligned_byte_offset
    &&& a.input_slot_class == b.input_slot_class
    &&& a.instance_data_step_rate == b.instance_data_step_rate
}

/// A vertex format: its layout and its size in bytes (0 if it could not be computed).
pub struct VertexFormat {
    pub layout: Vec<InputElement>,
    pub size: u32,
}

/// The mask bit an element contributes (0 if its semantic is not one ModelMod fills).
pub open spec fn element_bit(e: InputElement) -> SemanticMask {
    match e.semantic_name {
        Some(n) => match Semantic::spec_from_name(n@) {
            Some(s) => 1u128 << s.bit_pos(e.semantic_index),
            None => 0,
        },
        None => 0,
    }
}

/// The mask of the first `i` elements.
pub open spec fn mask_upto(layout: Seq<InputElement>, i: int) -> SemanticMask
    decreases i,
{
    if i <= 0 {
        0
    } else {
        mask_upto(layout, i - 1) | element_bit(layout[i - 1])
    }
}

impl VertexFormat {
    /// A copy of the format.
    pub fn shallow_copy(&self) -> (r: VertexFormat)
        ensures
            r.layout@.len() == self.layout@.len(),
            r.size == self.size,
            forall|i: int| 0 <= i < self.layout@.len() ==> same_element(#[trigger] r.layout@[i], self.layout@[i]),
    {
        let mut layout: Vec<InputElement> = Vec::new();
        let mut i: usize = 0;
        while i < self.layout.len()
            invariant
                i <= self.layout@.len(),
                layout@.len() == i,
                forall|j: int| 0 <= j < i ==> same_element(#[trigger] layout@[j], self.layout@[j]),
            decreases self.layout@.len() - i,
        {
            let e = &self.layout[i];
            let name: Option<Vec<u8>> = match &e.semantic_name {
                Some(n) => Some(copy_bytes(n)),
                None => None,
            };
            let c = InputElement {
                semantic_name: name,
                semantic_index: e.semantic_index,
                format: e.format,
                input_slot: e.input_slot,
                aligned_byte_offset: e.aligned_byte_offset,
                input_slot_class: e.input_slot_class,
                instance_data_step_rate: e.instance_data_step_rate,
            };
            layout.push(c);
            i = i + 1;
        }
        VertexFormat { layout, size: self.size }
    }

    /// The (semantic, index) pairs this layout declares, restricted to the
    /// semantics ModelMod fills, as a mask.
    pub fn semantic_mask(&self) -> (r: SemanticMask)
        ensures
            r == mask_upto(self.layout@, self.layout@.len() as int),
    {
        let mut mask: SemanticMask = 0;
        let mut i: usize = 0;
        while i < self.layout.len()
            invariant
                i <= self.layout@.len(),
                mask == mask_upto(self.layout@, i as int),
            decreases self.layout@.len() - i,
        {
            let elem = &self.layout[i];
            match &elem.semantic_name {
                Some(n) => match Semantic::from_name_bytes(n.as_slice()) {
                    Some(sem) => {
                        mask = mask | sem.mask_bit(elem.semantic_index);
                    },
                    None => {
                        assert(mask | 0u128 == mask) by (bit_vector);
                    },
                },
                None => {
                    assert(mask | 0u128 == mask) by (bit_vector);
                },
            }
            i = i + 1;
        }
        mask
    }

    /// True if `new` declares any (semantic, index) pair not present in `old`.
    pub fn has_extra_semantics(old: SemanticMask, new: SemanticMask) -> (r: bool)
        ensures
            r == ((new & !old) != 0),
    {
        (new & !old) != 0
    }
}

fn copy_bytes(v: &Vec<u8>) -> (r: Vec<u8>)
    ensures
        r@ == v@,
{
    let mut out: Vec<u8> = Vec::new();
    let mut i: usize = 0;
    while i < v.len()
        invariant
            i <= v@.len(),
            out@ == v@.take(i as int),
        decreases v@.len() - i,
    {
        out.push(v[i]);
        i = i + 1;
        assert(out@ =~= v@.take(i as int));
    }
    assert(v@.take(v@.len() as int) =~= v@);
    out
}

// DXGI_FORMAT values (as defined by dxgiformat.h).
pub const DXGI_FORMAT_UNKNOWN: u32 = 0;
pub const DXGI_FORMAT_R32G32B32A32_FLOAT: u32 = 2;
pub const DXGI_FORMAT_R32G32B32A32_UINT: u32 = 3;
pub const DXGI_FORMAT_R32G32B32A32_SINT: u32 = 4;
pub const DXGI_FORMAT_R32G32B32_FLOAT: u32 = 6;
pub const DXGI_FORMAT_R32G32B32_UINT: u32 = 7;
pub const DXGI_FORMAT_R32G32B32_SINT: u32 = 8;
pub const DXGI_FORMAT_R16G16B16A16_FLOAT: u32 = 10;
pub const DXGI_FORMAT_R16G16B16A16_UNORM: u32 = 11;
pub const DXGI_FORMAT_R16G16B16A16_UINT: u32 = 12;
pub const DXGI_FORMAT_R16G16B16A16_SNORM: u32 = 13;
pub const DXGI_FORMAT_R16G16B16A16_SINT: u32 = 14;
pub const DXGI_FORMAT_R32G32_FLOAT: u32 = 16;
pub const DXGI_FORMAT_R32G32_UINT: u32 = 17;
pub const DXGI_FORMAT_R32G32_SINT: u32 = 18;
pub const DXGI_FORMAT_R8G8B8A8_TYPELESS: u32 = 27;
pub const DXGI_FORMAT_R8G8B8A8_UNORM: u32 = 28;
pub const DXGI_FORMAT_R8G8B8A8_UNORM_SRGB: u32 = 29;
pub const DXGI_FORMAT_R8G8B8A8_UINT: u32 = 30;
pub const DXGI_FORMAT_R8G8B8A8_SNORM: u32 = 31;
pub const DXGI_FORMAT_R8G8B8A8_SINT: u32 = 32;
pub const DXGI_FORMAT_R16G16_FLOAT: u32 = 34;
pub const DXGI_FORMAT_R16G16_UNORM: u32 = 35;
pub const DXGI_FORMAT_R16G16_UINT: u32 = 36;
pub const DXGI_FORMAT_R16G16_SNORM: u32 = 37;
pub const DXGI_FORMAT_R16G16_SINT: u32 = 38;

/// `D3D11_APPEND_ALIGNED_ELEMENT`: the element follows the previous one.
pub const D3D11_APPEND_ALIGNED_ELEMENT: u32 = 0xffffffff;
/// `D3D11_INPUT_PER_VERTEX_DATA`.
pub const D3D11_INPUT_PER_VERTEX_DATA: u32 = 0;

/// Size in bytes of the formats ModelMod has seen in vertex layouts.
pub open spec fn spec_format_size(format: u32) -> Option<u32> {
    if format == 28 || format == 29 || format == 30 || format == 31 || format == 32 || format == 27 {
        Some(4)
    } else if format == 16 || format == 17 || format == 18 {
        Some(8)
    } else if format == 6 || format == 7 || format == 8 {
        Some(12)
    } else if format == 2 || format == 3 || format == 4 {
        Some(16)
    } else if format == 34 || format == 35 || format == 36 || format == 37 || format == 38 {
        Some(4)
    } else if format == 10 || format == 11 || format == 12 || format == 13 || format == 14 {
        Some(8)
    } else {
        None
    }
}

/// Size in bytes of a DXGI format, for the formats ModelMod has seen in
/// vertex layouts; `None` for any other.
pub fn get_format_size_bytes(format: &u32) -> (r: Option<u32>)
    ensures
        r == spec_format_size(*format),
{
    let f = *format;
    let size: u32 = if f == DXGI_FORMAT_R8G8B8A8_UNORM || f == DXGI_FORMAT_R8G8B8A8_UNORM_SRGB
        || f == DXGI_FORMAT_R8G8B8A8_UINT || f == DXGI_FORMAT_R8G8B8A8_SNORM || f
        == DXGI_FORMAT_R8G8B8A8_SINT || f == DXGI_FORMAT_R8G8B8A8_TYPELESS {
        4
    } else if f == DXGI_FORMAT_R32G32_FLOAT || f == DXGI_FORMAT_R32G32_UINT || f
        == DXGI_FORMAT_R32G32_SINT {
        8
    } else if f == DXGI_FORMAT_R32G32B32_FLOAT || f == DXGI_FORMAT_R32G32B32_UINT || f
        == DXGI_FORMAT_R32G32B32_SINT {
        12
    } else if f == DXGI_FORMAT_R32G32B32A32_FLOAT || f == DXGI_FORMAT_R32G32B32A32_UINT || f
        == DXGI_FORMAT_R32G32B32A32_SINT {
        16
    } else if f == DXGI_FORMAT_R16G16_FLOAT || f == DXGI_FORMAT_R16G16_UNORM || f
        == DXGI_FORMAT_R16G16_UINT || f == DXGI_FORMAT_R16G16_SNORM || f == DXGI_FORMAT_R16G16_SINT {
        4
    } else if f == DXGI_FORMAT_R16G16B16A16_FLOAT || f == DXGI_FORMAT_R16G16B16A16_UNORM || f
        == DXGI_FORMAT_R16G16B16A16_UINT || f == DXGI_FORMAT_R16G16B16A16_SNORM || f
        == DXGI_FORMAT_R16G16B16A16_SINT {
        8
    } else {
        return None;
    };
    Some(size)
}

/// The element counts toward the vertex size: known format, per-vertex data.
pub open spec fn sizing_element(e: InputElement) -> bool {
    e.format != DXGI_FORMAT_UNKNOWN && e.input_slot_class == D3D11_INPUT_PER_VERTEX_DATA
}

/// Index of the sizing element with the highest offset (the last such element
/// among equal offsets), scanning the first `i` elements.
pub open spec fn high_element_upto(layout: Seq<InputElement>, i: int) -> Option<int>
    decreases i,
{
    if i <= 0 {
        None
    } else {
        let prev = high_element_upto(layout, i - 1);
        if sizing_element(layout[i - 1]) && match prev {
            Some(p) => layout[p].aligned_byte_offset <= layout[i - 1].aligned_byte_offset,
            None => true,
        } {
            Some(i - 1)
        } else {
            prev
        }
    }
}

/// The vertex size a layout implies: 0 if any element is append-aligned or no
/// element sizes the vertex; otherwise the offset of the highest sizing
/// element plus its format's size (0 for an unknown size).
pub open spec fn spec_layout_size(layout: Seq<InputElement>) -> int {
    if exists|i: int| 0 <= i < layout.len() && #[trigger] layout[i].aligned_byte_offset
        == D3D11_APPEND_ALIGNED_ELEMENT {
        0
    } else {
        match high_element_upto(layout, layout.len() as int) {
            Some(h) => layout[h].aligned_byte_offset + match spec_format_size(layout[h].format) {
                Some(s) => s as int,
                None => 0,
            },
            None => 0,
        }
    }
}

/// Build a vertex format from a layout, computing the vertex size from the
/// element with the highest offset.
pub fn vertex_format_from_layout(layout: Vec<InputElement>) -> (r: VertexFormat)
    requires
        spec_layout_size(layout@) <= u32::MAX,
    ensures
        r.layout@ == layout@,
        r.size == spec_layout_size(layout@),
{
    let len = layout.len();
    let mut i: usize = 0;
    let mut found_append = false;
    let mut high: Option<usize> = None;
    while i < len
        invariant
            len == layout@.len(),
            i <= len,
            found_append == exists|j: int| 0 <= j < i && #[trigger] layout@[j].aligned_byte_offset
                == D3D11_APPEND_ALIGNED_ELEMENT,
            match high_element_upto(layout@, i as int) {
                Some(h) => high == Some(h as usize) && 0 <= h < i,
                None => high is None,
            },
        decreases len - i,
    {
        let el = &layout[i];
        if el.aligned_byte_offset == D3D11_APPEND_ALIGNED_ELEMENT {
            found_append = true;
        }
        if el.format != DXGI_FORMAT_UNKNOWN && el.input_slot_class == D3D11_INPUT_PER_VERTEX_DATA {
            let better = match high {
                Some(h) => layout[h].aligned_byte_offset <= el.aligned_byte_offset,
                None => true,
            };
            if better {
                high = Some(i);
            }
        }
        i = i + 1;
    }
    let size: u32 = if found_append {
        0
    } else {
        match high {
            Some(h) => {
                let fmtsize: u32 = match get_format_size_bytes(&layout[h].format) {
                    Some(s) => s,
                    None => 0,
                };
                layout[h].aligned_byte_offset + fmtsize
            },
            None => 0,
        }
    };
    VertexFormat { layout, size }
}

/// Counts of a draw: (primitives, vertices) of a triangle-list indexed draw,
/// when they can be computed.
pub open spec fn spec_prim_vert_count(
    index_count: u32,
    vb_state: Seq<(u32, u32, u32)>,
    vert_size: u32,
) -> Option<(u32, u32)> {
    if index_count <= 6 || vb_state.len() != 1 || vb_state[0].1 == 0 || vert_size == 0 {
        None
    } else {
        Some(((index_count / 3) as u32, (vb_state[0].1 / vert_size) as u32))
    }
}

/// Render state of a DX11 device context that the draw hooks consult, and
/// the copies of mesh buffers kept for snapshots.
pub struct DX11RenderState {
    /// Current vertex buffers: (slot, byte width, stride).
    pub vb_state: Vec<(u32, u32, u32)>,
    /// Number of layouts in `device_input_layouts_by_ptr`.
    pub num_input_layouts: usize,
    /// Input layouts created on the device, by layout address.
    pub device_input_layouts_by_ptr: FnvHashMap<usize, VertexFormat>,
    /// The layouts the context uses (copied from the device's now and then).
    pub context_input_layouts_by_ptr: FnvHashMap<usize, VertexFormat>,
    /// The input layout last set on the context (as an address; 0 for none).
    pub current_input_layout: usize,
    /// The primitive topology last set on the context.
    pub prim_topology: u32,
    /// Copies of index buffer contents, by buffer address.
    pub device_index_buffer_data: FnvHashMap<usize, Vec<u8>>,
    /// When each index buffer copy was first stored (buffer address, time).
    pub device_index_buffer_createtime: Vec<(usize, i128)>,
    pub device_index_buffer_totalsize_nextlog: (usize, usize),
    /// Copies of vertex buffer contents, by buffer address.
    pub device_vertex_buffer_data: FnvHashMap<usize, Vec<u8>>,
    /// When each vertex buffer copy was first stored (buffer address, time).
    pub device_vertex_buffer_createtime: Vec<(usize, i128)>,
    pub device_vertex_buffer_totalsize_nextlog: (usize, usize),
    /// What each resource the buffer hooks have seen turned out to be.
    pub device_buffer_meta: FnvHashMap<usize, BufferMeta>,
    /// Writes in progress, by resource address: (CPU address, is index
    /// buffer, byte width, map type).
    pub mapped_buffers: FnvHashMap<usize, (usize, bool, u32, u32)>,
    /// How each stored buffer copy was last produced, by buffer address.
    pub buffer_capture_info: FnvHashMap<usize, BufferCaptureInfo>,
}

impl DX11RenderState {
    /// A state with no buffers, layouts, copies or records.
    pub fn new() -> (rs: DX11RenderState)
        ensures
            rs.vb_state@.len() == 0,
            rs.num_input_layouts == 0,
            rs.device_input_layouts_by_ptr@.dom() == Set::<usize>::empty(),
            rs.context_input_layouts_by_ptr@.dom() == Set::<usize>::empty(),
            rs.current_input_layout == 0,
            rs.prim_topology == 0,
            rs.device_index_buffer_data@.dom() == Set::<usize>::empty(),
            rs.device_index_buffer_createtime@.len() == 0,
            rs.device_index_buffer_totalsize_nextlog == (0usize, 0usize),
            rs.device_vertex_buffer_data@.dom() == Set::<usize>::empty(),
            rs.device_vertex_buffer_createtime@.len() == 0,
            rs.device_vertex_buffer_totalsize_nextlog == (0usize, 0usize),
            rs.device_buffer_meta@.dom() == Set::<usize>::empty(),
            rs.mapped_buffers@.dom() == Set::<usize>::empty(),
            rs.buffer_capture_info@.dom() == Set::<usize>::empty(),
    {
        DX11RenderState {
            vb_state: Vec::new(),
            num_input_layouts: 0,
            device_input_layouts_by_ptr: fnv_map_new(),
            context_input_layouts_by_ptr: fnv_map_new(),
            current_input_layout: 0,
            prim_topology: 0,
            device_index_buffer_data: fnv_map_new(),
            device_index_buffer_createtime: Vec::new(),
            device_index_buffer_totalsize_nextlog: (0, 0),
            device_vertex_buffer_data: fnv_map_new(),
            device_vertex_buffer_createtime: Vec::new(),
            device_vertex_buffer_totalsize_nextlog: (0, 0),
            device_buffer_meta: fnv_map_new(),
            mapped_buffers: fnv_map_new(),
            buffer_capture_info: fnv_map_new(),
        }
    }
}

/// The vertex size of the current input layout (0 if it is unknown).
pub open spec fn current_vert_size(rs: DX11RenderState) -> u32 {
    if rs.current_input_layout > 0 && rs.context_input_layouts_by_ptr@.contains_key(rs.current_input_layout) {
        rs.context_input_layouts_by_ptr@[rs.current_input_layout].size
    } else {
        0
    }
}

impl DX11RenderState {
    /// The vertex format of the current input layout, if known.
    pub fn get_current_vertex_format(&self) -> (r: Option<&VertexFormat>)
        ensures
            match r {
                Some(vf) => self.current_input_layout != 0
                    && self.context_input_layouts_by_ptr@.contains_key(self.current_input_layout)
                    && *vf == self.context_input_layouts_by_ptr@[self.current_input_layout],
                None => self.current_input_layout == 0
                    || !self.context_input_layouts_by_ptr@.contains_key(self.current_input_layout),
            },
    {
        if self.current_input_layout == 0 {
            return None;
        }
        fnv_map_get(&self.context_input_layouts_by_ptr, self.current_input_layout)
    }
}

/// The counts of an indexed draw: primitives first, one per three indices,
/// then vertices, the bound buffer's byte width over the vertex size.  They
/// are known exactly when there are more than six indices, a single vertex
/// buffer with a byte width is bound, and the layout has a vertex size.
pub proof fn lemma_prim_vert_count_meaning(index_count: u32, vb_state: Seq<(u32, u32, u32)>, vert_size: u32)
    ensures
        spec_prim_vert_count(index_count, vb_state, vert_size) is Some <==> (index_count > 6
            && vb_state.len() == 1 && vb_state[0].1 != 0 && vert_size != 0),
        spec_prim_vert_count(index_count, vb_state, vert_size) matches Some((p, v)) ==> p == index_count
            / 3 && v == vb_state[0].1 / vert_size,
{
}

/// The (primitive, vertex) counts of an indexed draw of `index_count` indices,
/// assuming a triangle list, a single vertex buffer and the current layout's
/// vertex size.  `None` for tiny draws or when the counts can't be computed.
pub fn compute_prim_vert_count(index_count: u32, rs: &DX11RenderState) -> (r: Option<(u32, u32)>)
    ensures
        r == spec_prim_vert_count(index_count, rs.vb_state@, current_vert_size(*rs)),
        r is Some <==> (index_count > 6 && rs.vb_state@.len() == 1 && rs.vb_state@[0].1 != 0
            && rs.current_input_layout > 0 && rs.context_input_layouts_by_ptr@.contains_key(
            rs.current_input_layout,
        ) && rs.context_input_layouts_by_ptr@[rs.current_input_layout].size != 0),
        r matches Some((p, v)) ==> p == index_count / 3 && v == rs.vb_state@[0].1
            / rs.context_input_layouts_by_ptr@[rs.current_input_layout].size,
{
    if index_count <= 6 {
        return None;
    }
    let prim_count = index_count / 3;
    let vb_size = if rs.vb_state.len() == 1 {
        let (_index, byte_width, _stride) = rs.vb_state[0];
        if byte_width == 0 {
            return None;
        }
        byte_width
    } else {
        return None;
    };
    let vert_size: u32 = if rs.current_input_layout > 0 {
        match fnv_map_get(&rs.context_input_layouts_by_ptr, rs.current_input_layout) {
            Some(vf) => vf.size,
            None => 0,
        }
    } else {
        0
    };
    if vert_size == 0 {
        return None;
    }
    Some((prim_count, vb_size / vert_size))
}

/// What a resource the game is writing turned out to be.
#[derive(Debug, Clone, Copy, PartialEq, Eq, Structural)]
pub enum BufferMeta {
    /// A vertex or index buffer whose contents we want for snapshots, with its byte width.
    Mesh { is_index: bool, byte_width: u32 },
    /// Anything else: a constant buffer, a texture, an empty buffer, etc.
    Other,
}

/// How a tracked mesh buffer's stored bytes were last produced.
#[derive(Debug, Clone, Copy, PartialEq, Eq, Structural)]
pub enum BufferWriteKind {
    /// Copied from the initial data when the buffer was created.
    InitialData,
    /// Copied at `Unmap`, with the map type the game passed to `Map`.
    Mapped(u32),
    /// Whole-resource `UpdateSubresource`.
    UpdateSubresource,
    /// Boxed `UpdateSubresource` covering bytes `[left, right)`.
    UpdateSubresourceBox(u32, u32),
}

/// The name of a `D3D11_MAP` value ("?" for an unknown one).
pub open spec fn map_type_name(t: u32) -> Seq<char> {
    if t == 1 {
        "READ"@
    } else if t == 2 {
        "WRITE"@
    } else if t == 3 {
        "READ_WRITE"@
    } else if t == 4 {
        "WRITE_DISCARD"@
    } else if t == 5 {
        "WRITE_NO_OVERWRITE"@
    } else {
        "?"@
    }
}

impl BufferWriteKind {
    /// How the write shows in the log.
    pub open spec fn spec_describe(self) -> Seq<char> {
        match self {
            BufferWriteKind::InitialData => "CreateBuffer initial data"@,
            BufferWriteKind::Mapped(t) => "Map("@ + map_type_name(t) + ")"@,
            BufferWriteKind::UpdateSubresource => "UpdateSubresource"@,
            BufferWriteKind::UpdateSubresourceBox(l, r) => "UpdateSubresource["@ + decimal(l as nat) + ".."@
                + decimal(r as nat) + "]"@,
        }
    }

    /// Describes the write.
    pub fn describe(&self) -> (r: String)
        ensures
            r@ == self.spec_describe(),
    {
        match self {
            BufferWriteKind::InitialData => String::from_str("CreateBuffer initial data"),
            BufferWriteKind::Mapped(t) => {
                let name = if *t == 1 {
                    "READ"
                } else if *t == 2 {
                    "WRITE"
                } else if *t == 3 {
                    "READ_WRITE"
                } else if *t == 4 {
                    "WRITE_DISCARD"
                } else if *t == 5 {
                    "WRITE_NO_OVERWRITE"
                } else {
                    "?"
                };
                let mut s = String::from_str("Map(");
                s.append(name);
                s.append(")");
                s
            },
            BufferWriteKind::UpdateSubresource => String::from_str("UpdateSubresource"),
            BufferWriteKind::UpdateSubresourceBox(l, r) => {
                let mut s = String::from_str("UpdateSubresource[");
                s.append(u64_to_decimal(*l as u64).as_str());
                s.append("..");
                s.append(u64_to_decimal(*r as u64).as_str());
                s.append("]");
                s
            },
        }
    }
}

/// Provenance of one tracked buffer's stored bytes.
#[derive(Debug, Clone, Copy)]
pub struct BufferCaptureInfo {
    pub kind: BufferWriteKind,
    /// Capture sequence number when this buffer was last captured.
    pub seq: u64,
    /// How many times this buffer has been captured.
    pub count: u64,
    /// Length in bytes of the stored copy after that capture.
    pub bytes: usize,
}

} // verus!

verus! {

/// Bit `p` of `m` is set.
pub open spec fn bit_set(m: u128, p: u32) -> bool {
    (m >> p) & 1u128 == 1u128
}

proof fn lemma_or_bit(a: u128, b: u128, p: u32)
    requires
        p < 128,
    ensures
        bit_set(a | b, p) == (bit_set(a, p) || bit_set(b, p)),
{
    assert(((a | b) >> p) & 1u128 == 1u128 <==> ((a >> p) & 1u128 == 1u128 || (b >> p) & 1u128
        == 1u128)) by (bit_vector)
        requires
            p < 128,
    ;
}

proof fn lemma_single_bit(q: u32, p: u32)
    requires
        p < 128,
        q < 128,
    ensures
        bit_set(1u128 << q, p) == (p == q),
{
    assert(((1u128 << q) >> p) & 1u128 == 1u128 <==> p == q) by (bit_vector)
        requires
            p < 128,
            q < 128,
    ;
}

proof fn lemma_zero_bit(p: u32)
    requires
        p < 128,
    ensures
        !bit_set(0, p),
{
    assert((0u128 >> p) & 1u128 != 1u128) by (bit_vector)
        requires
            p < 128,
    ;
}

/// Element `e` declares the supported (semantic, index) slot at bit `p`.
pub open spec fn declares_bit(e: InputElement, p: u32) -> bool {
    match e.semantic_name {
        Some(n) => match Semantic::spec_from_name(n@) {
            Some(s) => s.bit_pos(e.semantic_index) == p,
            None => false,
        },
        None => false,
    }
}

proof fn lemma_semantic_bit_pos_range(s: Semantic, index: u32)
    ensures
        s.bit_pos(index) < 126,
{
}

/// A layout's semantic mask has bit `p` set exactly when some element of the
/// layout declares the supported (semantic, index) slot that bit stands for;
/// so the mask depends only on the set of slots declared, not on element order
/// or repetition.
pub proof fn lemma_semantic_mask_bits(layout: Seq<InputElement>, p: u32)
    requires
        p < 128,
    ensures
        bit_set(mask_upto(layout, layout.len() as int), p) <==> exists|i: int|
            0 <= i < layout.len() && declares_bit(#[trigger] layout[i], p),
{
    lemma_mask_upto_bits(layout, layout.len() as int, p);
}

proof fn lemma_mask_upto_bits(layout: Seq<InputElement>, n: int, p: u32)
    requires
        p < 128,
        0 <= n <= layout.len(),
    ensures
        bit_set(mask_upto(layout, n), p) <==> exists|i: int| 0 <= i < n && declares_bit(#[trigger] layout[i], p),
    decreases n,
{
    if n <= 0 {
        lemma_zero_bit(p);
    } else {
        lemma_mask_upto_bits(layout, n - 1, p);
        let e = layout[n - 1];
        lemma_or_bit(mask_upto(layout, n - 1), element_bit(e), p);
        match e.semantic_name {
            Some(nm) => match Semantic::spec_from_name(nm@) {
                Some(s) => {
                    lemma_semantic_bit_pos_range(s, e.semantic_index);
                    lemma_single_bit(s.bit_pos(e.semantic_index), p);
                },
                None => {
                    lemma_zero_bit(p);
                },
            },
            None => {
                lemma_zero_bit(p);
            },
        }
        if exists|i: int| 0 <= i < n && declares_bit(#[trigger] layout[i], p) {
            let i = choose|i: int| 0 <= i < n && declares_bit(#[trigger] layout[i], p);
            if i < n - 1 {
                assert(exists|i: int| 0 <= i < n - 1 && declares_bit(#[trigger] layout[i], p));
            }
        }
    }
}

/// Some element of `layout` declares the supported slot at bit `p`.
pub open spec fn declares_slot(layout: Seq<InputElement>, p: u32) -> bool {
    exists|i: int| 0 <= i < layout.len() && declares_bit(#[trigger] layout[i], p)
}

proof fn lemma_bits_agree_from(a: u128, b: u128, k: u32)
    requires
        k < 128,
        forall|p: u32| k <= p < 128 ==> bit_set(a, p) == bit_set(b, p),
    ensures
        a >> k == b >> k,
    decreases 127 - k,
{
    assert(bit_set(a, k) == bit_set(b, k));
    if k == 127 {
        assert(a >> k == b >> k) by (bit_vector)
            requires
                k == 127,
                ((a >> k) & 1u128 == 1u128) == ((b >> k) & 1u128 == 1u128),
        ;
    } else {
        let k1: u32 = (k + 1) as u32;
        lemma_bits_agree_from(a, b, k1);
        assert(a >> k == b >> k) by (bit_vector)
            requires
                k < 127,
                k1 == k + 1,
                a >> k1 == b >> k1,
                ((a >> k) & 1u128 == 1u128) == ((b >> k) & 1u128 == 1u128),
        ;
    }
}

/// Two layouts that declare the same supported (semantic, index) slots have
/// the same semantic mask, whatever the order of their elements, repeated
/// elements, or elements whose semantic is missing or not one ModelMod fills.
pub proof fn lemma_same_semantics_same_mask(l1: Seq<InputElement>, l2: Seq<InputElement>)
    requires
        forall|p: u32|
            #![trigger declares_slot(l1, p)]
            #![trigger declares_slot(l2, p)]
            p < 128 ==> (declares_slot(l1, p) <==> declares_slot(l2, p)),
    ensures
        mask_upto(l1, l1.len() as int) == mask_upto(l2, l2.len() as int),
{
    let a = mask_upto(l1, l1.len() as int);
    let b = mask_upto(l2, l2.len() as int);
    assert forall|p: u32| 0 <= p < 128 implies bit_set(a, p) == bit_set(b, p) by {
        lemma_semantic_mask_bits(l1, p);
        lemma_semantic_mask_bits(l2, p);
        assert(declares_slot(l1, p) == declares_slot(l2, p));
    }
    lemma_bits_agree_from(a, b, 0);
    assert(a >> 0u32 == a && b >> 0u32 == b) by (bit_vector);
}

/// A layout that declares none of the supported slots has an empty mask.
pub proof fn lemma_no_semantics_empty_mask(layout: Seq<InputElement>)
    requires
        forall|i: int, p: u32| 0 <= i < layout.len() && p < 128 ==> !#[trigger] declares_bit(layout[i], p),
    ensures
        mask_upto(layout, layout.len() as int) == 0,
{
    let empty = Seq::<InputElement>::empty();
    assert(mask_upto(empty, 0) == 0);
    assert forall|p: u32| p < 128 implies (declares_slot(layout, p) <==> declares_slot(empty, p)) by {
        if declares_slot(layout, p) {
            let i = choose|i: int| 0 <= i < layout.len() && declares_bit(#[trigger] layout[i], p);
            assert(!declares_bit(layout[i], p));
        }
    }
    lemma_same_semantics_same_mask(layout, empty);
}

/// A layout never has semantics beyond its own.
pub proof fn lemma_no_extra_semantics_over_self(m: SemanticMask)
    ensures
        (m & !m) == 0,
{
    assert((m & !m) == 0) by (bit_vector);
}

} // verus!
