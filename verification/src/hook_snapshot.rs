//! When a snapshot ends: snapshots capture everything drawn within a window
//! of real time after the snapshot key was pressed.
//!
//! Times are nanoseconds relative to the Unix epoch.
use vstd::prelude::*;
use vstd::string::StrSliceExecFns;
use vstd::string::StringSliceAdditionalSpecFns;
use crate::global_state::HookState;
use crate::mod_stats::{valid_time, time_since};
use crate::dx11rs::{DX11RenderState, VertexFormat};
use crate::fnv_maps::fnv_map_get;
use crate::mesh_update::{find_element, has_match, texcoord_name};

verus! {

/// The time a snapshot counts as having lasted at `now`: the time since its
/// start, or the whole window if the clock went backwards.
pub open spec fn snapshot_elapsed(snap_start: i128, now: i128, snap_ms: u32) -> nat {
    if now >= snap_start {
        time_since(now, snap_start)
    } else {
        snap_ms as nat * 1000000
    }
}

/// End the snapshot in progress if its window of `snap_ms` milliseconds has
/// passed at `now`; returns how long it lasted.
pub fn end_snapshot_if_due(gs: &mut HookState, now: i128, snap_ms: u32) -> (r: Option<u128>)
    requires
        valid_time(now),
        valid_time(old(gs).snap_start),
    ensures
        (old(gs).is_snapping && snapshot_elapsed(old(gs).snap_start, now, snap_ms) >= snap_ms as nat
            * 1000000) ==> r == Some(snapshot_elapsed(old(gs).snap_start, now, snap_ms) as u128)
            && *final(gs) == (HookState { is_snapping: false, ..*old(gs) }),
        !(old(gs).is_snapping && snapshot_elapsed(old(gs).snap_start, now, snap_ms) >= snap_ms as nat
            * 1000000) ==> r is None && *final(gs) == *old(gs),
{
    if !gs.is_snapping {
        return None;
    }
    let max_dur: u128 = snap_ms as u128 * 1000000;
    let elapsed: u128 = if now >= gs.snap_start {
        (now - gs.snap_start) as u128
    } else {
        max_dur
    };
    if elapsed >= max_dur {
        gs.is_snapping = false;
        Some(elapsed)
    } else {
        None
    }
}

/// Whether a draw is snapped: while snapshotting, the selected geometry, or
/// an expected mesh of an animation snapshot.
pub fn should_snap(this_is_selected: bool, autosnap: bool, is_snapping: bool) -> (r: bool)
    ensures
        r == ((this_is_selected || autosnap) && is_snapping),
{
    (this_is_selected || autosnap) && is_snapping
}


/// `DXGI_FORMAT_R16_UINT`.
pub const DXGI_FORMAT_R16_UINT: u32 = 57;

/// `DXGI_FORMAT_R32_UINT`.
pub const DXGI_FORMAT_R32_UINT: u32 = 42;

/// `D3D11_SRV_DIMENSION_TEXTURE2D`.
pub const D3D11_SRV_DIMENSION_TEXTURE2D: u32 = 4;

/// Why the buffers of a D3D11 draw cannot be snapped.
#[derive(Clone, Copy, Debug, PartialEq, Eq, Structural)]
pub enum SnapBufferError {
    NoInputLayout,
    ZeroVertexSize,
    /// The layout has no texture coordinates, which the snapshot needs.
    NoTexcoord,
    NoIndexBuffer,
    /// The index buffer's data was not kept when it was created.
    IndexDataMissing,
    UnknownIndexFormat(u32),
    IndexSizeMismatch { expected: usize, got: usize },
    NoVertexBuffers,
    TooManyVertexBuffers(usize),
    /// The vertex buffer's data was not kept when it was created.
    VertexDataMissing,
    VertexCountMismatch { expected: u32, got: usize },
}

/// The current vertex format, if it can be snapped: it is known, its vertex
/// size is not zero and it has texture coordinates.
pub fn snap_layout(rs: &DX11RenderState) -> (r: Result<&VertexFormat, SnapBufferError>)
    ensures
        match r {
            Ok(vf) => {
                &&& rs.current_input_layout != 0
                &&& rs.context_input_layouts_by_ptr@.contains_key(rs.current_input_layout)
                &&& *vf == rs.context_input_layouts_by_ptr@[rs.current_input_layout]
                &&& vf.size != 0
                &&& has_match(vf.layout@, texcoord_name(), false)
            },
            Err(e) => {
                let known = rs.current_input_layout != 0 && rs.context_input_layouts_by_ptr@.contains_key(
                    rs.current_input_layout,
                );
                let vf = rs.context_input_layouts_by_ptr@[rs.current_input_layout];
                if !known {
                    e == SnapBufferError::NoInputLayout
                } else if vf.size == 0 {
                    e == SnapBufferError::ZeroVertexSize
                } else {
                    e == SnapBufferError::NoTexcoord && !has_match(vf.layout@, texcoord_name(), false)
                }
            },
        },
{
    let vf = match rs.get_current_vertex_format() {
        Some(vf) => vf,
        None => {
            return Err(SnapBufferError::NoInputLayout);
        },
    };
    if vf.size == 0 {
        return Err(SnapBufferError::ZeroVertexSize);
    }
    let tex: Vec<u8> = vec![116u8, 101u8, 120u8, 99u8, 111u8, 111u8, 114u8, 100u8];
    proof {
        assert(tex@ =~= texcoord_name());
    }
    match find_element(&vf.layout, tex.as_slice(), false) {
        Some(_) => Ok(vf),
        None => Err(SnapBufferError::NoTexcoord),
    }
}

/// Bytes per index of an index buffer format (16 or 32-bit indices).
pub open spec fn index_size(format: u32) -> Option<u32> {
    if format == DXGI_FORMAT_R16_UINT {
        Some(2)
    } else if format == DXGI_FORMAT_R32_UINT {
        Some(4)
    } else {
        None
    }
}

/// The index size and kept data of the bound index buffer `ib` (0 if none is
/// bound), checked against the `prim_count` triangles to snap: the buffer
/// must be bound, its data kept, its format 16 or 32-bit, and its data
/// exactly three indices per primitive.
pub fn snap_index_data(rs: &DX11RenderState, ib: usize, ib_format: u32, prim_count: u32) -> (r: Result<
    (u32, &Vec<u8>),
    SnapBufferError,
>)
    requires
        index_size(ib_format) matches Some(sz) ==> prim_count * 3 * sz <= u32::MAX,
    ensures
        match r {
            Ok((sz, data)) => {
                &&& ib != 0
                &&& rs.device_index_buffer_data@.contains_key(ib)
                &&& *data == rs.device_index_buffer_data@[ib]
                &&& index_size(ib_format) == Some(sz)
                &&& data@.len() == prim_count * 3 * sz
            },
            Err(e) => if ib == 0 {
                e == SnapBufferError::NoIndexBuffer
            } else if !rs.device_index_buffer_data@.contains_key(ib) {
                e == SnapBufferError::IndexDataMissing
            } else if index_size(ib_format) is None {
                e == SnapBufferError::UnknownIndexFormat(ib_format)
            } else {
                e == (SnapBufferError::IndexSizeMismatch {
                    expected: (prim_count * 3 * index_size(ib_format)->0) as usize,
                    got: rs.device_index_buffer_data@[ib]@.len() as usize,
                })
                    && rs.device_index_buffer_data@[ib]@.len() != prim_count * 3 * index_size(ib_format)->0
            },
        },
{
    if ib == 0 {
        return Err(SnapBufferError::NoIndexBuffer);
    }
    let data = match fnv_map_get(&rs.device_index_buffer_data, ib) {
        Some(d) => d,
        None => {
            return Err(SnapBufferError::IndexDataMissing);
        },
    };
    let sz: u32 = if ib_format == DXGI_FORMAT_R16_UINT {
        2
    } else if ib_format == DXGI_FORMAT_R32_UINT {
        4
    } else {
        return Err(SnapBufferError::UnknownIndexFormat(ib_format));
    };
    let expected = (prim_count * 3 * sz) as usize;
    if data.len() != expected {
        return Err(SnapBufferError::IndexSizeMismatch { expected, got: data.len() });
    }
    Ok((sz, data))
}

/// The bound vertex buffers (nonzero slots).
pub open spec fn bound_buffers(slots: Seq<usize>) -> Seq<usize> {
    slots.filter(|b: usize| b != 0)
}

/// The kept data of the single bound vertex buffer, checked against the
/// `num_vertices` vertices of `vert_size` bytes to snap: exactly one buffer
/// must be bound (in any of the `slots`), its data kept, and its whole
/// vertices as many as expected.
pub fn snap_vertex_data<'a>(rs: &'a DX11RenderState, slots: &Vec<usize>, vert_size: u32, num_vertices: u32) -> (r:
    Result<&'a Vec<u8>, SnapBufferError>)
    requires
        vert_size > 0,
    ensures
        match r {
            Ok(data) => {
                &&& bound_buffers(slots@).len() == 1
                &&& rs.device_vertex_buffer_data@.contains_key(bound_buffers(slots@)[0])
                &&& *data == rs.device_vertex_buffer_data@[bound_buffers(slots@)[0]]
                &&& (data@.len() / vert_size as nat) as u32 == num_vertices
            },
            Err(e) => {
                let bound = bound_buffers(slots@);
                if bound.len() == 0 {
                    e == SnapBufferError::NoVertexBuffers
                } else if bound.len() > 1 {
                    e == SnapBufferError::TooManyVertexBuffers(bound.len() as usize)
                } else if !rs.device_vertex_buffer_data@.contains_key(bound[0]) {
                    e == SnapBufferError::VertexDataMissing
                } else {
                    let n = rs.device_vertex_buffer_data@[bound[0]]@.len() / vert_size as nat;
                    e == (SnapBufferError::VertexCountMismatch { expected: num_vertices, got: n as usize })
                        && n as u32 != num_vertices
                }
            },
        },
{
    let mut bound: Vec<usize> = Vec::new();
    let mut i: usize = 0;
    while i < slots.len()
        invariant
            i <= slots@.len(),
            bound@ == bound_buffers(slots@.take(i as int)),
        decreases slots@.len() - i,
    {
        proof {
            reveal(Seq::filter);
            assert(slots@.take(i + 1).drop_last() =~= slots@.take(i as int));
        }
        if slots[i] != 0 {
            bound.push(slots[i]);
        }
        i = i + 1;
    }
    proof {
        assert(slots@.take(slots@.len() as int) =~= slots@);
    }
    if bound.len() == 0 {
        return Err(SnapBufferError::NoVertexBuffers);
    }
    if bound.len() > 1 {
        return Err(SnapBufferError::TooManyVertexBuffers(bound.len()));
    }
    let data = match fnv_map_get(&rs.device_vertex_buffer_data, bound[0]) {
        Some(d) => d,
        None => {
            return Err(SnapBufferError::VertexDataMissing);
        },
    };
    let n = data.len() / (vert_size as usize);
    if num_vertices != n as u32 {
        return Err(SnapBufferError::VertexCountMismatch { expected: num_vertices, got: n });
    }
    Ok(data)
}

/// The slots whose shader resource view is a 2D texture, given each slot's
/// view dimension (`None` where no view is bound).
pub open spec fn texture2d_slots(dims: Seq<Option<u32>>) -> Seq<u32>
    decreases dims.len(),
{
    if dims.len() == 0 {
        Seq::empty()
    } else if dims.last() == Some(D3D11_SRV_DIMENSION_TEXTURE2D) {
        texture2d_slots(dims.drop_last()).push((dims.len() - 1) as u32)
    } else {
        texture2d_slots(dims.drop_last())
    }
}

/// The slots, in order, whose bound view is a 2D texture.
pub fn texture2d_indices(dims: &Vec<Option<u32>>) -> (r: Vec<u32>)
    requires
        dims@.len() <= u32::MAX,
    ensures
        r@ == texture2d_slots(dims@),
{
    let mut r: Vec<u32> = Vec::new();
    let mut i: usize = 0;
    while i < dims.len()
        invariant
            i <= dims@.len(),
            dims@.len() <= u32::MAX,
            r@ == texture2d_slots(dims@.take(i as int)),
        decreases dims@.len() - i,
    {
        proof {
            assert(dims@.take(i + 1).drop_last() =~= dims@.take(i as int));
        }
        if dims[i] == Some(D3D11_SRV_DIMENSION_TEXTURE2D) {
            r.push(i as u32);
        }
        i = i + 1;
    }
    proof {
        assert(dims@.take(dims@.len() as int) =~= dims@);
    }
    r
}

/// Records the directory a snapshot was written to; true if it differs
/// from the last one (or is the first).
pub fn note_snapshot_dir(gs: &mut HookState, dir: String) -> (r: bool)
    ensures
        r == (match old(gs).last_snapshot_dir {
            Some(d) => d@ != dir@,
            None => true,
        }),
        r ==> *final(gs) == (HookState { last_snapshot_dir: Some(dir), ..*old(gs) }),
        !r ==> *final(gs) == *old(gs),
{
    let new_dir = match &gs.last_snapshot_dir {
        Some(d) => {
            let same = *d == dir;
            !same
        },
        None => true,
    };
    if new_dir {
        gs.last_snapshot_dir = Some(dir);
    }
    new_dir
}


/// `needle` occurs in `hay` at position `i`.
pub open spec fn occurs_at(hay: Seq<u8>, needle: Seq<u8>, i: int) -> bool {
    0 <= i && i + needle.len() <= hay.len() && hay.subrange(i, i + needle.len()) == needle
}

/// `needle` occurs somewhere in `hay`.
pub open spec fn contains_seq(hay: Seq<u8>, needle: Seq<u8>) -> bool {
    exists|i: int| #[trigger] occurs_at(hay, needle, i)
}

/// Whether `needle` occurs in `hay`.
pub fn contains_bytes(hay: &[u8], needle: &[u8]) -> (r: bool)
    ensures
        r == contains_seq(hay@, needle@),
{
    if needle.len() > hay.len() {
        proof {
            assert forall|j: int| !#[trigger] occurs_at(hay@, needle@, j) by {}
        }
        return false;
    }
    let last = hay.len() - needle.len();
    let mut i: usize = 0;
    while i <= last
        invariant
            needle@.len() <= hay@.len() <= usize::MAX,
            last == hay@.len() - needle@.len(),
            i <= last + 1,
            forall|j: int| 0 <= j < i ==> !occurs_at(hay@, needle@, j),
        decreases last + 1 - i,
    {
        let mut k: usize = 0;
        let mut same = true;
        while k < needle.len()
            invariant
                needle@.len() <= hay@.len() <= usize::MAX,
                i <= last,
                last == hay@.len() - needle@.len(),
                k <= needle@.len(),
                same == forall|q: int| 0 <= q < k ==> hay@[i + q] == needle@[q],
            decreases needle@.len() - k,
        {
            if hay[i + k] != needle[k] {
                same = false;
            }
            k = k + 1;
        }
        if same {
            proof {
                assert(hay@.subrange(i as int, i + needle@.len()) =~= needle@);
                assert(occurs_at(hay@, needle@, i as int));
            }
            return true;
        }
        proof {
            let q = choose|q: int| 0 <= q < needle@.len() && hay@[i + q] != needle@[q];
            assert(hay@.subrange(i as int, i + needle@.len())[q] != needle@[q]);
        }
        i = i + 1;
    }
    proof {
        assert forall|j: int| !#[trigger] occurs_at(hay@, needle@, j) by {
            if occurs_at(hay@, needle@, j) {
                assert(j <= last);
            }
        }
    }
    false
}

/// The vertex shader line that transforms positions by a single matrix.
pub open spec fn simple_transform_line() -> Seq<char> {
    "m4x4 oPos, v0, c0"@
}

/// Whether an animation snapshot must check that the mesh is animated on the
/// GPU: when animations are snapped, or the configuration requires it.
pub fn needs_gpu_check(snap_anim: bool, require_gpu: Option<bool>) -> (r: bool)
    ensures
        r == (snap_anim || require_gpu == Some(true)),
{
    snap_anim || match require_gpu {
        Some(b) => b,
        None => false,
    }
}

/// Whether the disassembled vertex shader of a snapshot transforms positions
/// by a single matrix (so the mesh is likely not animated on the GPU, and an
/// animation snapshot of it is aborted): its text contains the line
/// `m4x4 oPos, v0, c0`.
pub fn shader_has_simple_transform(shader_text: &str) -> (r: bool)
    ensures
        r == contains_seq(
            vstd::utf8::encode_utf8(shader_text@),
            simple_transform_line().map_values(|c: char| c as u8),
        ),
{
    let hay = shader_text.as_bytes_vec();
    let pat = "m4x4 oPos, v0, c0";
    proof {
        reveal_strlit("m4x4 oPos, v0, c0");
        broadcast use vstd::string::is_ascii_spec_bytes;
        assert(vstd::string::is_ascii(pat));
        assert(pat.spec_bytes() =~= simple_transform_line().map_values(|c: char| c as u8));
    }
    let needle = pat.as_bytes_vec();
    contains_bytes(hay.as_slice(), needle.as_slice())
}

} // verus!
