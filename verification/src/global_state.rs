//! The hooks' shared state: texture selection, snapshot mode, per-frame
//! metrics, and vertex-buffer checksums.
//!
//! Times are nanoseconds relative to the Unix epoch.
use vstd::prelude::*;
use fnv::FnvHashMap;
use fnv::FnvHashSet;
use crate::fnv_maps::{fnv_set_contains};

verus! {

/// Number of texture stages tracked for selection.
pub const MAX_STAGE: usize = 40;

/// Whether the primitives drawn in a frame are recorded for the metrics report.
pub const METRICS_TRACK_PRIMS: bool = false;

/// A primitive drawn in the current frame, as recorded for metrics.
#[derive(Debug)]
pub enum RenderedPrimType {
    PrimVertCount(u32, u32),
    PrimCountVertSizeAndVBs(u32, u32, Vec<(u32, u32, u32)>),
}

/// The checksum state of a vertex buffer.
#[derive(Debug, Clone, Copy, PartialEq, Eq, Structural)]
pub enum VBChecksumStatus {
    /// The CRC32 of the buffer's bytes.
    Checksum(u32),
    /// The buffer cannot be read; don't try again.
    NotPossible,
}

impl VBChecksumStatus {
    /// The checksum, if the buffer could be hashed.
    pub fn checksum(&self) -> (r: Option<u32>)
        ensures
            r == match *self {
                VBChecksumStatus::Checksum(c) => Some(c),
                VBChecksumStatus::NotPossible => None::<u32>,
            },
    {
        match self {
            VBChecksumStatus::Checksum(c) => Some(*c),
            VBChecksumStatus::NotPossible => None,
        }
    }
}

/// Per-frame counters.
pub struct FrameMetrics {
    pub dip_calls: u32,
    pub frames: u32,
    pub total_frames: u64,
    pub last_call_log: i128,
    pub last_frame_log: i128,
    pub last_fps_update: i128,
    pub low_framerate: bool,
    pub rendered_prims: Vec<RenderedPrimType>,
}

/// The hooks' shared state.
pub struct HookState {
    /// Names of the mods whose D3D resources are to be created on the next
    /// frame (a draw found them selected but not loaded).
    pub load_on_next_frame: Option<FnvHashSet<String>>,
    /// Textures seen while selecting, as a set and in the order first seen
    /// (addresses, never dereferenced).
    pub active_texture_set: Option<FnvHashSet<usize>>,
    pub active_texture_list: Option<Vec<usize>>,
    /// The user is choosing a texture.
    pub making_selection: bool,
    pub show_mods: bool,
    pub mm_root: Option<String>,
    /// The stages on which the current texture is bound.
    pub selected_on_stage: [bool; 40],
    /// Position of the current texture in `active_texture_list`.
    pub curr_texture_index: usize,
    pub is_snapping: bool,
    pub snap_start: i128,
    pub metrics: FrameMetrics,
    pub last_snapshot_dir: Option<String>,
    /// Checksum state of vertex buffers, by buffer address.
    pub vb_checksums: Option<FnvHashMap<usize, VBChecksumStatus>>,
    /// The vertex buffer bound to stream 0 (0 for none).
    pub bound_vertex_buffer: usize,
    /// The (primitive, vertex) counts some loaded mod constrains by
    /// vertex-buffer checksum.
    pub vb_checksum_targets: Option<FnvHashSet<(u32, u32)>>,
}

impl HookState {
    /// The state at start: nothing selected, mods shown, not snapshotting,
    /// no metrics.
    pub fn new() -> (s: HookState)
        ensures
            s.load_on_next_frame is None,
            s.active_texture_set is None,
            s.active_texture_list is None,
            !s.making_selection,
            s.show_mods,
            s.mm_root is None,
            forall|i: int| 0 <= i < MAX_STAGE ==> !s.selected_on_stage[i],
            s.curr_texture_index == 0,
            !s.is_snapping,
            s.snap_start == 0,
            s.metrics.dip_calls == 0,
            s.metrics.frames == 0,
            s.metrics.total_frames == 0,
            s.metrics.last_call_log == 0,
            s.metrics.last_frame_log == 0,
            s.metrics.last_fps_update == 0,
            !s.metrics.low_framerate,
            s.metrics.rendered_prims@.len() == 0,
            s.last_snapshot_dir is None,
            s.vb_checksums is None,
            s.bound_vertex_buffer == 0,
            s.vb_checksum_targets is None,
    {
        HookState {
            load_on_next_frame: None,
            active_texture_set: None,
            active_texture_list: None,
            making_selection: false,
            show_mods: true,
            mm_root: None,
            selected_on_stage: [false; 40],
            curr_texture_index: 0,
            is_snapping: false,
            snap_start: 0,
            metrics: FrameMetrics {
                dip_calls: 0,
                frames: 0,
                total_frames: 0,
                last_call_log: 0,
                last_frame_log: 0,
                last_fps_update: 0,
                low_framerate: false,
                rendered_prims: Vec::new(),
            },
            last_snapshot_dir: None,
            vb_checksums: None,
            bound_vertex_buffer: 0,
            vb_checksum_targets: None,
        }
    }
}

/// Whether some loaded mod constrains draws with these counts by
/// vertex-buffer checksum.
pub fn vb_checksum_target_matches_with(gs: &HookState, prim_count: u32, vert_count: u32) -> (r: bool)
    ensures
        r == match gs.vb_checksum_targets {
            Some(set) => set@.contains((prim_count, vert_count)),
            None => false,
        },
{
    match &gs.vb_checksum_targets {
        Some(set) => fnv_set_contains(set, &(prim_count, vert_count)),
        None => false,
    }
}

/// Install the (primitive, vertex) counts some loaded mod constrains by
/// vertex-buffer checksum.
pub fn set_vb_checksum_targets(gs: &mut HookState, set: FnvHashSet<(u32, u32)>)
    ensures
        final(gs).vb_checksum_targets == Some(set),
{
    gs.vb_checksum_targets = Some(set);
}

} // verus!
