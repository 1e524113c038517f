//! Texture selection during rendering: while the user is choosing a texture,
//! every texture the game binds is recorded (once, in the order first seen),
//! and the stages on which the current choice is bound are marked, so that
//! the selection texture can be drawn in its place.
use vstd::prelude::*;
use fnv::FnvHashSet;
use crate::global_state::{
    HookState, FrameMetrics, MAX_STAGE, METRICS_TRACK_PRIMS, RenderedPrimType,
    vb_checksum_target_matches_with,
};
use crate::mod_stats::valid_time;
use crate::fnv_maps::{fnv_set_contains, fnv_set_insert, name_set, name_set_new, name_set_insert, fnv_map_clear};
use crate::native_mod::{NativeModData, ModType, ModD3DState};

verus! {

pub open spec fn list_view(o: Option<Vec<usize>>) -> Option<Seq<usize>> {
    match o {
        Some(v) => Some(v@),
        None => None,
    }
}

pub open spec fn set_view(o: Option<FnvHashSet<usize>>) -> Option<Set<usize>> {
    match o {
        Some(s) => Some(s@),
        None => None,
    }
}

/// The texture currently chosen: the entry at the current index of the
/// texture list (0 if there is no list or the index is past its end).
pub open spec fn current_texture(list: Option<Seq<usize>>, idx: usize) -> usize {
    match list {
        Some(l) => if idx >= l.len() {
            0
        } else {
            l[idx as int]
        },
        None => 0,
    }
}

/// The fields that the selection functions do not touch are equal.
pub open spec fn same_but_selection(a: HookState, b: HookState) -> bool {
    &&& a.load_on_next_frame == b.load_on_next_frame
    &&& a.show_mods == b.show_mods
    &&& a.mm_root == b.mm_root
    &&& a.is_snapping == b.is_snapping
    &&& a.snap_start == b.snap_start
    &&& a.metrics == b.metrics
    &&& a.last_snapshot_dir == b.last_snapshot_dir
    &&& a.vb_checksums == b.vb_checksums
    &&& a.bound_vertex_buffer == b.bound_vertex_buffer
    &&& a.vb_checksum_targets == b.vb_checksum_targets
}

/// The texture currently chosen (see `current_texture`).
pub fn get_current_texture(gs: &HookState) -> (r: usize)
    ensures
        r == current_texture(list_view(gs.active_texture_list), gs.curr_texture_index),
{
    let idx = gs.curr_texture_index;
    match &gs.active_texture_list {
        Some(list) => if idx >= list.len() {
            0
        } else {
            list[idx]
        },
        None => 0,
    }
}

/// The first stage on which the chosen texture is bound.
pub fn get_selected_texture_stage(gs: &HookState) -> (r: Option<u32>)
    ensures
        match r {
            Some(s) => s < MAX_STAGE && gs.selected_on_stage[s as int] && forall|j: int|
                0 <= j < s ==> !gs.selected_on_stage[j],
            None => forall|j: int| 0 <= j < MAX_STAGE ==> !gs.selected_on_stage[j],
        },
{
    let mut i: usize = 0;
    while i < MAX_STAGE
        invariant
            i <= MAX_STAGE,
            forall|j: int| 0 <= j < i ==> !gs.selected_on_stage[j],
        decreases MAX_STAGE - i,
    {
        if gs.selected_on_stage[i] {
            return Some(i as u32);
        }
        i = i + 1;
    }
    None
}

/// The stage on which to draw the selection texture in place of the game's:
/// only while choosing, the first stage the chosen texture is bound on.
pub fn selection_override_stage(gs: &HookState) -> (r: Option<u32>)
    ensures
        !gs.making_selection ==> r is None,
        gs.making_selection ==> match r {
            Some(s) => s < MAX_STAGE && gs.selected_on_stage[s as int] && forall|j: int|
                0 <= j < s ==> !gs.selected_on_stage[j],
            None => forall|j: int| 0 <= j < MAX_STAGE ==> !gs.selected_on_stage[j],
        },
{
    if gs.making_selection {
        get_selected_texture_stage(gs)
    } else {
        None
    }
}

/// The game bound texture `tex_as_int` on stage `tex_stage`.  While choosing
/// a texture, a texture not seen before is recorded, and the stage is marked
/// exactly when the bound texture is the chosen one.  Returns false if the
/// stage is beyond the tracked stages (it is then not marked).
pub fn track_set_texture(tex_as_int: usize, tex_stage: u32, gs: &mut HookState) -> (r: bool)
    ensures
        same_but_selection(*final(gs), *old(gs)),
        final(gs).making_selection == old(gs).making_selection,
        final(gs).curr_texture_index == old(gs).curr_texture_index,
        !old(gs).making_selection ==> final(gs).active_texture_set == old(gs).active_texture_set
            && final(gs).active_texture_list == old(gs).active_texture_list
            && final(gs).selected_on_stage == old(gs).selected_on_stage && r,
        old(gs).making_selection ==> r == (tex_stage < MAX_STAGE),
        old(gs).making_selection ==> match set_view(old(gs).active_texture_set) {
            Some(s) => if s.contains(tex_as_int) {
                set_view(final(gs).active_texture_set) == Some(s) && list_view(
                    final(gs).active_texture_list,
                ) == list_view(old(gs).active_texture_list)
            } else {
                set_view(final(gs).active_texture_set) == Some(s.insert(tex_as_int)) && list_view(
                    final(gs).active_texture_list,
                ) == match list_view(old(gs).active_texture_list) {
                    Some(l) => Some(l.push(tex_as_int)),
                    None => None,
                }
            },
            None => final(gs).active_texture_set is None && list_view(final(gs).active_texture_list)
                == list_view(old(gs).active_texture_list),
        },
        old(gs).making_selection && tex_stage < MAX_STAGE ==> final(gs).selected_on_stage[tex_stage as int]
            == (tex_as_int != 0 && tex_as_int == current_texture(
            list_view(final(gs).active_texture_list),
            final(gs).curr_texture_index,
        )),
        old(gs).making_selection ==> forall|j: int|
            0 <= j < MAX_STAGE && j != tex_stage ==> final(gs).selected_on_stage[j] == old(
                gs,
            ).selected_on_stage[j],
{
    if !gs.making_selection {
        return true;
    }
    let has_it = match &gs.active_texture_set {
        Some(set) => fnv_set_contains(set, &tex_as_int),
        None => true,
    };
    if !has_it {
        match &mut gs.active_texture_set {
            Some(set) => {
                fnv_set_insert(set, tex_as_int);
            },
            None => {},
        }
        match &mut gs.active_texture_list {
            Some(list) => {
                list.push(tex_as_int);
            },
            None => {},
        }
    }
    if tex_stage < MAX_STAGE as u32 {
        let curr = get_current_texture(gs);
        let stage = tex_stage as usize;
        if curr != 0 && tex_as_int == curr {
            gs.selected_on_stage.set(stage, true);
        } else if gs.selected_on_stage[stage] {
            gs.selected_on_stage.set(stage, false);
        }
        true
    } else {
        false
    }
}

/// The game bound vertex buffer `vb_as_int` to stream `slot`; stream 0's
/// buffer is remembered.
pub fn track_bound_vertex_buffer(vb_as_int: usize, slot: u32, gs: &mut HookState)
    ensures
        slot == 0 ==> *final(gs) == (HookState { bound_vertex_buffer: vb_as_int, ..*old(gs) }),
        slot != 0 ==> *final(gs) == *old(gs),
{
    if slot == 0 {
        gs.bound_vertex_buffer = vb_as_int;
    }
}

/// What a draw did about mods.
pub enum CheckRenderModResult {
    /// A mod was drawn; its mod type.
    Rendered(i32),
    /// No mod was drawn.
    NotRendered,
    /// A deletion mod was selected: the game's geometry is not drawn.
    Deleted,
    /// A selected mod is not loaded; its load was requested (its name).
    NotRenderedButLoadRequested(String),
}

/// What to do with the mods a draw selected.
pub enum RenderPlan {
    /// A deletion mod was selected.
    Delete,
    /// A selected mod is not loaded: request its load (its name).
    Load(String),
    /// Draw these mods (positions in the mod list), in order.
    Draw(Vec<usize>),
}

/// The mod ends the check of the selected mods: it deletes, or it cannot
/// be drawn yet.
pub open spec fn stops_drawing(m: NativeModData) -> bool {
    m.mod_data.numbers.mod_type == ModType::Deletion.spec_code() || m.d3d_data
        != ModD3DState::Loaded
}

/// Position in `sel` of the first selected mod that stops the drawing, or -1.
pub open spec fn first_stop(mods: Seq<NativeModData>, sel: Seq<usize>) -> int
    decreases sel.len(),
{
    if sel.len() == 0 {
        -1
    } else {
        let p = first_stop(mods, sel.drop_last());
        if p >= 0 {
            p
        } else if stops_drawing(mods[sel.last() as int]) {
            sel.len() - 1
        } else {
            -1
        }
    }
}

proof fn lemma_first_stop(mods: Seq<NativeModData>, sel: Seq<usize>)
    ensures
        -1 <= first_stop(mods, sel) < sel.len(),
        first_stop(mods, sel) >= 0 ==> stops_drawing(mods[sel[first_stop(mods, sel)] as int]),
        forall|q: int|
            0 <= q < sel.len() && (first_stop(mods, sel) < 0 || q < first_stop(mods, sel))
                ==> !stops_drawing(mods[sel[q] as int]),
    decreases sel.len(),
{
    if sel.len() > 0 {
        lemma_first_stop(mods, sel.drop_last());
        assert forall|q: int| 0 <= q < sel.len() - 1 implies sel.drop_last()[q] == sel[q] by {}
    }
}

/// Decide what to do with the mods `selected` (positions in `mods`), checked
/// in order: a deletion mod deletes the geometry; a mod that is not loaded
/// has its load requested; if neither comes up, all of them are drawn.
pub fn plan_mod_render(mods: &Vec<NativeModData>, selected: &Vec<usize>) -> (r: RenderPlan)
    requires
        forall|q: int| 0 <= q < selected@.len() ==> selected@[q] < mods@.len(),
    ensures
        match r {
            RenderPlan::Delete => first_stop(mods@, selected@) >= 0 && mods@[selected@[first_stop(
                mods@,
                selected@,
            )] as int].mod_data.numbers.mod_type == ModType::Deletion.spec_code(),
            RenderPlan::Load(n) => first_stop(mods@, selected@) >= 0 && mods@[selected@[first_stop(
                mods@,
                selected@,
            )] as int].mod_data.numbers.mod_type != ModType::Deletion.spec_code() && n@
                == mods@[selected@[first_stop(mods@, selected@)] as int].name@,
            RenderPlan::Draw(v) => first_stop(mods@, selected@) < 0 && v@ == selected@,
        },
{
    proof {
        lemma_first_stop(mods@, selected@);
    }
    let mut q: usize = 0;
    while q < selected.len()
        invariant
            q <= selected@.len(),
            forall|j: int| 0 <= j < selected@.len() ==> selected@[j] < mods@.len(),
            forall|j: int| 0 <= j < q ==> !stops_drawing(mods@[selected@[j] as int]),
            -1 <= first_stop(mods@, selected@) < selected@.len(),
            first_stop(mods@, selected@) >= 0 ==> stops_drawing(
                mods@[selected@[first_stop(mods@, selected@)] as int],
            ),
            forall|j: int|
                0 <= j < selected@.len() && (first_stop(mods@, selected@) < 0 || j < first_stop(
                    mods@,
                    selected@,
                )) ==> !stops_drawing(mods@[selected@[j] as int]),
        decreases selected@.len() - q,
    {
        let m = &mods[selected[q]];
        if m.mod_data.numbers.mod_type == 5 {
            proof {
                let f = first_stop(mods@, selected@);
                if f < 0 || f > q {
                    assert(!stops_drawing(mods@[selected@[q as int] as int]));
                }
                assert(f == q);
            }
            return RenderPlan::Delete;
        }
        if !m.is_loaded() {
            proof {
                let f = first_stop(mods@, selected@);
                if f < 0 || f > q {
                    assert(!stops_drawing(mods@[selected@[q as int] as int]));
                }
                assert(f == q);
            }
            return RenderPlan::Load(m.name.clone());
        }
        q = q + 1;
    }
    let mut v: Vec<usize> = Vec::new();
    let mut i: usize = 0;
    while i < selected.len()
        invariant
            i <= selected@.len(),
            v@ == selected@.take(i as int),
        decreases selected@.len() - i,
    {
        v.push(selected[i]);
        proof {
            assert(selected@.take(i + 1) =~= selected@.take(i as int).push(selected@[i as int]));
        }
        i = i + 1;
    }
    proof {
        assert(selected@.take(selected@.len() as int) =~= selected@);
        let f = first_stop(mods@, selected@);
        if f >= 0 {
            assert(!stops_drawing(mods@[selected@[f] as int]));
        }
    }
    RenderPlan::Draw(v)
}

/// Queue the mod named `name` for loading on the next frame.
pub fn request_mod_load(gs: &mut HookState, name: String)
    ensures
        final(gs).load_on_next_frame is Some,
        name_set(final(gs).load_on_next_frame->0) == match old(gs).load_on_next_frame {
            Some(s) => name_set(s),
            None => Set::<Seq<char>>::empty(),
        }.insert(name@),
        *final(gs) == (HookState { load_on_next_frame: final(gs).load_on_next_frame, ..*old(gs) }),
{
    let mut set = match gs.load_on_next_frame.take() {
        Some(s) => s,
        None => name_set_new(),
    };
    name_set_insert(&mut set, name);
    gs.load_on_next_frame = Some(set);
}

/// Position of the first mod drawn, or -1.
pub open spec fn first_drawn(rendered: Seq<bool>) -> int
    decreases rendered.len(),
{
    if rendered.len() == 0 {
        -1
    } else {
        let p = first_drawn(rendered.drop_last());
        if p >= 0 {
            p
        } else if rendered.last() {
            rendered.len() - 1
        } else {
            -1
        }
    }
}

/// The result of drawing the planned mods `drawn` (positions in `mods`),
/// where `rendered[i]` says whether the `i`-th was actually drawn: the type of
/// the first one drawn, if any.
pub fn render_outcome(mods: &Vec<NativeModData>, drawn: &Vec<usize>, rendered: &Vec<bool>) -> (r:
    CheckRenderModResult)
    requires
        drawn@.len() == rendered@.len(),
        forall|q: int| 0 <= q < drawn@.len() ==> drawn@[q] < mods@.len(),
    ensures
        first_drawn(rendered@) < 0 ==> r is NotRendered,
        first_drawn(rendered@) >= 0 ==> r == CheckRenderModResult::Rendered(
            mods@[drawn@[first_drawn(rendered@)] as int].mod_data.numbers.mod_type,
        ),
{
    let mut i: usize = 0;
    while i < rendered.len()
        invariant
            i <= rendered@.len(),
            drawn@.len() == rendered@.len(),
            forall|q: int| 0 <= q < drawn@.len() ==> drawn@[q] < mods@.len(),
            forall|q: int| 0 <= q < i ==> !rendered@[q],
        decreases rendered@.len() - i,
    {
        if rendered[i] {
            proof {
                lemma_first_drawn(rendered@);
                let f = first_drawn(rendered@);
                if f < 0 || f > i {
                    assert(!rendered@[i as int]);
                }
                if 0 <= f < i {
                    assert(!rendered@[f]);
                }
            }
            return CheckRenderModResult::Rendered(mods[drawn[i]].mod_data.numbers.mod_type);
        }
        i = i + 1;
    }
    proof {
        lemma_first_drawn(rendered@);
        let f = first_drawn(rendered@);
        if f >= 0 {
            assert(!rendered@[f]);
        }
    }
    CheckRenderModResult::NotRendered
}

proof fn lemma_first_drawn(rendered: Seq<bool>)
    ensures
        -1 <= first_drawn(rendered) < rendered.len(),
        first_drawn(rendered) >= 0 ==> rendered[first_drawn(rendered)],
        forall|q: int|
            0 <= q < rendered.len() && (first_drawn(rendered) < 0 || q < first_drawn(rendered))
                ==> !rendered[q],
    decreases rendered.len(),
{
    if rendered.len() > 0 {
        lemma_first_drawn(rendered.drop_last());
        assert forall|q: int| 0 <= q < rendered.len() - 1 implies rendered.drop_last()[q] == rendered[q] by {}
    }
}

/// Frames between two frame-rate measurements.
pub const FPS_UPDATE_FRAMES: u32 = 90;

/// Count a presented frame; true when the frame rate is due to be measured.
pub fn count_frame(metrics: &mut FrameMetrics) -> (r: bool)
    requires
        old(metrics).frames < u32::MAX,
        old(metrics).total_frames < u64::MAX,
    ensures
        *final(metrics) == (FrameMetrics {
            frames: (old(metrics).frames + 1) as u32,
            total_frames: (old(metrics).total_frames + 1) as u64,
            ..*old(metrics)
        }),
        r == (final(metrics).frames % FPS_UPDATE_FRAMES == 0),
{
    metrics.frames = metrics.frames + 1;
    metrics.total_frames = metrics.total_frames + 1;
    metrics.frames % FPS_UPDATE_FRAMES == 0
}

/// After the game released the device and its reference count dropped to
/// `new_ref_count`: whether the device is being destroyed (only the
/// library's own `resource_count` resources still hold it), and whether to
/// release it once more (when destroyed, or when nothing else holds it).
pub fn release_plan(resource_count: u32, new_ref_count: u32) -> (r: (bool, bool))
    requires
        resource_count < u32::MAX,
    ensures
        r.0 == (resource_count > 0 && new_ref_count == resource_count + 1),
        r.1 == (r.0 || (resource_count == 0 && new_ref_count == 1)),
{
    let destroying = resource_count > 0 && new_ref_count == resource_count + 1;
    let do_final = destroying || (resource_count == 0 && new_ref_count == 1);
    (destroying, do_final)
}

/// The managed side's mod loading states.
pub const ASYNC_LOAD_NOT_STARTED: i32 = 51;

pub const ASYNC_LOAD_PENDING: i32 = 52;

pub const ASYNC_LOAD_IN_PROGRESS: i32 = 53;

pub const ASYNC_LOAD_COMPLETE: i32 = 54;

/// Where loading the mod database stands.
#[derive(Clone, Copy, Debug, PartialEq, Eq, Structural)]
pub struct ModLoadFlags {
    pub loading_mods: bool,
    pub done_loading_mods: bool,
}

/// What the per-frame mod loading asks of the managed side (or the renderer)
/// next.
#[derive(Clone, Copy, Debug, PartialEq, Eq, Structural)]
pub enum FrameLoadStep {
    /// Ask for the loading state, to decide whether to start loading.
    AskStateBeforeStart,
    /// Start loading the mod database.
    StartLoad,
    /// Ask for the loading state, to see whether loading completed.
    AskStateForCompletion,
    /// Loading completed: build the database of loaded mods.
    SetupMods,
    /// Nothing more this frame.
    Done,
}

/// What came back from the last step.
#[derive(Clone, Copy, Debug, PartialEq, Eq, Structural)]
pub enum FrameLoadEvent {
    /// The frame begins.
    Begin,
    /// The loading state, asked before starting.
    StateBeforeStart(i32),
    /// The result of starting the load.
    LoadStarted(i32),
    /// The loading state, asked to see whether loading completed.
    StateForCompletion(i32),
    /// The database was built.
    SetupDone,
}

/// After the start phase: check for completion while loading.
pub open spec fn after_start(f: ModLoadFlags) -> FrameLoadStep {
    if f.loading_mods {
        FrameLoadStep::AskStateForCompletion
    } else {
        FrameLoadStep::Done
    }
}

/// The next flags and step of the per-frame mod loading.  A load is started
/// once, if the configuration asks to load mods on start, unless the managed
/// side is loading already (or has a load pending); while loading, each
/// frame checks for completion, and on completion the database is built.
pub open spec fn spec_frame_load_step(f: ModLoadFlags, load_on_start: bool, ev: FrameLoadEvent) -> (
    ModLoadFlags,
    FrameLoadStep,
) {
    match ev {
        FrameLoadEvent::Begin => if !f.loading_mods && !f.done_loading_mods && load_on_start {
            (f, FrameLoadStep::AskStateBeforeStart)
        } else {
            (f, after_start(f))
        },
        FrameLoadEvent::StateBeforeStart(ls) => if ls == ASYNC_LOAD_IN_PROGRESS {
            let g = ModLoadFlags { loading_mods: true, done_loading_mods: false };
            (g, after_start(g))
        } else if ls != ASYNC_LOAD_PENDING {
            (f, FrameLoadStep::StartLoad)
        } else {
            (f, after_start(f))
        },
        FrameLoadEvent::LoadStarted(r) => {
            let g = if r == ASYNC_LOAD_PENDING {
                ModLoadFlags { loading_mods: true, done_loading_mods: false }
            } else if r == ASYNC_LOAD_COMPLETE {
                ModLoadFlags { loading_mods: false, done_loading_mods: true }
            } else {
                f
            };
            (g, after_start(g))
        },
        FrameLoadEvent::StateForCompletion(ls) => if f.loading_mods && ls == ASYNC_LOAD_COMPLETE {
            (ModLoadFlags { loading_mods: false, done_loading_mods: true }, FrameLoadStep::SetupMods)
        } else {
            (f, FrameLoadStep::Done)
        },
        FrameLoadEvent::SetupDone => (f, FrameLoadStep::Done),
    }
}

fn after_start_exec(f: ModLoadFlags) -> (r: FrameLoadStep)
    ensures
        r == after_start(f),
{
    if f.loading_mods {
        FrameLoadStep::AskStateForCompletion
    } else {
        FrameLoadStep::Done
    }
}

/// One step of the per-frame mod loading; see `spec_frame_load_step`.
pub fn frame_load_step(f: ModLoadFlags, load_on_start: bool, ev: FrameLoadEvent) -> (r: (
    ModLoadFlags,
    FrameLoadStep,
))
    ensures
        r == spec_frame_load_step(f, load_on_start, ev),
{
    match ev {
        FrameLoadEvent::Begin => if !f.loading_mods && !f.done_loading_mods && load_on_start {
            (f, FrameLoadStep::AskStateBeforeStart)
        } else {
            (f, after_start_exec(f))
        },
        FrameLoadEvent::StateBeforeStart(ls) => if ls == ASYNC_LOAD_IN_PROGRESS {
            let g = ModLoadFlags { loading_mods: true, done_loading_mods: false };
            (g, after_start_exec(g))
        } else if ls != ASYNC_LOAD_PENDING {
            (f, FrameLoadStep::StartLoad)
        } else {
            (f, after_start_exec(f))
        },
        FrameLoadEvent::LoadStarted(r) => {
            let g = if r == ASYNC_LOAD_PENDING {
                ModLoadFlags { loading_mods: true, done_loading_mods: false }
            } else if r == ASYNC_LOAD_COMPLETE {
                ModLoadFlags { loading_mods: false, done_loading_mods: true }
            } else {
                f
            };
            (g, after_start_exec(g))
        },
        FrameLoadEvent::StateForCompletion(ls) => if f.loading_mods && ls == ASYNC_LOAD_COMPLETE {
            (ModLoadFlags { loading_mods: false, done_loading_mods: true }, FrameLoadStep::SetupMods)
        } else {
            (f, FrameLoadStep::Done)
        },
        FrameLoadEvent::SetupDone => (f, FrameLoadStep::Done),
    }
}

/// Whether to create the D3D resources of the mods queued for loading: only
/// once loading is done.
pub fn should_load_deferred(has_pending_mods: bool, f: ModLoadFlags) -> (r: bool)
    ensures
        r == (has_pending_mods && f.done_loading_mods && !f.loading_mods),
{
    has_pending_mods && f.done_loading_mods && !f.loading_mods
}

/// Once the database is loaded, a frame asks the managed side nothing: it
/// goes straight to the end.
pub proof fn lemma_loaded_frames_are_quiet(load_on_start: bool)
    ensures
        spec_frame_load_step(
            ModLoadFlags { loading_mods: false, done_loading_mods: true },
            load_on_start,
            FrameLoadEvent::Begin,
        ).1 == FrameLoadStep::Done,
{
}

/// The managed side reporting completion while loading always leads to
/// building the database, and leaves the flags at "done".
pub proof fn lemma_completion_builds_database(f: ModLoadFlags, load_on_start: bool)
    requires
        f.loading_mods,
    ensures
        spec_frame_load_step(f, load_on_start, FrameLoadEvent::StateForCompletion(ASYNC_LOAD_COMPLETE))
            == (ModLoadFlags { loading_mods: false, done_loading_mods: true }, FrameLoadStep::SetupMods),
{
}


/// Minimum time between two metrics reports (10 s), in nanoseconds.
pub const METRICS_MIN_INTERVAL_NANOS: i128 = 10_000_000_000;

/// What a metrics update did.
pub enum MetricsOutcome {
    /// Not more than `interval` draw calls were counted since the last report.
    NotDue,
    /// The clock is before the time of the last report.
    ElapsedError,
    /// The last report is less than 10 s old.
    TooSoon,
    /// A report is due: `dip_calls` draw calls in `elapsed_nanos`; the draw
    /// rate is logged unless the device is D3D11 (whose own metrics are
    /// reported and reset instead), and the recorded primitives, if they are
    /// tracked, are handed over to be written out.
    Reported { elapsed_nanos: i128, dip_calls: u32, log_dip_rate: bool, prims: Vec<RenderedPrimType> },
}

/// The metrics are those of `a`, except for the recorded primitives.
pub open spec fn same_but_prims(a: FrameMetrics, b: FrameMetrics) -> bool {
    &&& a.dip_calls == b.dip_calls
    &&& a.frames == b.frames
    &&& a.total_frames == b.total_frames
    &&& a.last_call_log == b.last_call_log
    &&& a.last_frame_log == b.last_frame_log
    &&& a.last_fps_update == b.last_fps_update
    &&& a.low_framerate == b.low_framerate
}

/// A metrics update at time `now`: when more than `interval` draw calls were
/// counted and the last report is at least 10 s old, a report is made, the
/// report time becomes `now` and the draw count restarts.  After a due update
/// the recorded primitives are cleared in any case; otherwise they are
/// cleared unless `preserve_prims`.
pub fn process_metrics(metrics: &mut FrameMetrics, preserve_prims: bool, interval: u32, now: i128, d3d11: bool) -> (r:
    MetricsOutcome)
    requires
        valid_time(now),
        valid_time(old(metrics).last_call_log),
    ensures
        old(metrics).dip_calls <= interval ==> {
            &&& r is NotDue
            &&& same_but_prims(*final(metrics), *old(metrics))
            &&& final(metrics).rendered_prims@ == (if preserve_prims {
                old(metrics).rendered_prims@
            } else {
                Seq::<RenderedPrimType>::empty()
            })
        },
        old(metrics).dip_calls > interval ==> final(metrics).rendered_prims@.len() == 0,
        old(metrics).dip_calls > interval && now < old(metrics).last_call_log ==> {
            &&& r is ElapsedError
            &&& same_but_prims(*final(metrics), *old(metrics))
        },
        old(metrics).dip_calls > interval && old(metrics).last_call_log <= now < old(metrics).last_call_log
            + METRICS_MIN_INTERVAL_NANOS ==> {
            &&& r is TooSoon
            &&& same_but_prims(*final(metrics), *old(metrics))
        },
        old(metrics).dip_calls > interval && now >= old(metrics).last_call_log + METRICS_MIN_INTERVAL_NANOS
            ==> {
            &&& r matches MetricsOutcome::Reported { elapsed_nanos, dip_calls, log_dip_rate, prims }
            &&& elapsed_nanos == now - old(metrics).last_call_log
            &&& dip_calls == old(metrics).dip_calls
            &&& log_dip_rate == !d3d11
            &&& prims@ == (if METRICS_TRACK_PRIMS {
                old(metrics).rendered_prims@
            } else {
                Seq::<RenderedPrimType>::empty()
            })
            &&& same_but_prims(
                *final(metrics),
                FrameMetrics { last_call_log: now, dip_calls: 0, ..*old(metrics) },
            )
        },
{
    if metrics.dip_calls <= interval {
        if !preserve_prims {
            metrics.rendered_prims = Vec::new();
        }
        return MetricsOutcome::NotDue;
    }
    let r = if now < metrics.last_call_log {
        MetricsOutcome::ElapsedError
    } else {
        let elapsed = now - metrics.last_call_log;
        if elapsed < METRICS_MIN_INTERVAL_NANOS {
            MetricsOutcome::TooSoon
        } else {
            let dip_calls = metrics.dip_calls;
            metrics.last_call_log = now;
            metrics.dip_calls = 0;
            let mut prims: Vec<RenderedPrimType> = Vec::new();
            if METRICS_TRACK_PRIMS {
                std::mem::swap(&mut prims, &mut metrics.rendered_prims);
            }
            MetricsOutcome::Reported { elapsed_nanos: elapsed, dip_calls, log_dip_rate: !d3d11, prims }
        }
    };
    metrics.rendered_prims = Vec::new();
    r
}


/// After a device reset: no vertex buffer is bound and the vertex buffer
/// checksums computed so far are forgotten (the buffers may be gone).
pub fn forget_device_buffers(gs: &mut HookState)
    ensures
        final(gs).bound_vertex_buffer == 0,
        match (old(gs).vb_checksums, final(gs).vb_checksums) {
            (Some(_), Some(m)) => m@.dom() == Set::<usize>::empty(),
            (None, None) => true,
            _ => false,
        },
        *final(gs) == (HookState {
            bound_vertex_buffer: 0,
            vb_checksums: final(gs).vb_checksums,
            ..*old(gs)
        }),
{
    gs.bound_vertex_buffer = 0;
    if let Some(map) = gs.vb_checksums.as_mut() {
        fnv_map_clear(map);
    }
}

impl ModLoadFlags {
    /// After the mods were cleared: nothing is loading and loading counts as
    /// done (so nothing is reloaded by itself).
    pub fn cleared() -> (r: ModLoadFlags)
        ensures
            r == (ModLoadFlags { loading_mods: false, done_loading_mods: true }),
    {
        ModLoadFlags { loading_mods: false, done_loading_mods: true }
    }

    /// A reload was asked for: the next frame starts loading again.
    pub fn reload() -> (r: ModLoadFlags)
        ensures
            r == (ModLoadFlags { loading_mods: false, done_loading_mods: false }),
    {
        ModLoadFlags { loading_mods: false, done_loading_mods: false }
    }
}

/// Mods are loading: the native side started a load, or the managed side
/// reports one in progress (`managed_state`, asked only when the native side
/// has not started one).
pub fn is_loading_mods(loading_mods: bool, managed_state: Option<i32>) -> (r: bool)
    ensures
        r == (loading_mods || managed_state == Some(ASYNC_LOAD_IN_PROGRESS)),
{
    loading_mods || match managed_state {
        Some(s) => s == ASYNC_LOAD_IN_PROGRESS,
        None => false,
    }
}

/// What an indexed draw does before it looks for mods.
pub struct DrawPlan {
    /// Hand the draw straight to the device: no snapshot is running, and the
    /// frame rate is low or mods are hidden.
    pub pass_through: bool,
    /// Compute the bound vertex buffer's checksum (if it has none yet): a
    /// buffer is bound, and a snapshot is running or some loaded mod
    /// constrains draws with these counts by vertex-buffer checksum.
    pub needs_vb_checksum: bool,
}

pub open spec fn spec_plan_draw(gs: HookState, prim_count: u32, vert_count: u32) -> DrawPlan {
    let target = match gs.vb_checksum_targets {
        Some(set) => set@.contains((prim_count, vert_count)),
        None => false,
    };
    DrawPlan {
        pass_through: !gs.is_snapping && (gs.metrics.low_framerate || !gs.show_mods),
        needs_vb_checksum: gs.bound_vertex_buffer != 0 && (gs.is_snapping || target),
    }
}

/// Some loaded mod constrains draws of these counts by vertex-buffer checksum.
pub open spec fn vb_checksum_target(gs: HookState, prim_count: u32, vert_count: u32) -> bool {
    gs.vb_checksum_targets matches Some(set) && set@.contains((prim_count, vert_count))
}

/// A draw goes straight to the device exactly when no snapshot is running and
/// the frame rate is low or mods are hidden; the bound vertex buffer's
/// checksum is needed exactly when a buffer is bound and a snapshot is running
/// or some loaded mod constrains these counts by checksum, whatever the frame
/// rate.
pub proof fn lemma_plan_draw_meaning(gs: HookState, prim_count: u32, vert_count: u32)
    ensures
        spec_plan_draw(gs, prim_count, vert_count).pass_through <==> (!gs.is_snapping && (
        gs.metrics.low_framerate || !gs.show_mods)),
        spec_plan_draw(gs, prim_count, vert_count).needs_vb_checksum <==> (gs.bound_vertex_buffer != 0
            && (gs.is_snapping || vb_checksum_target(gs, prim_count, vert_count))),
{
}

/// Decides, from the hook state, whether a draw of `prim_count` primitives
/// over `vert_count` vertices goes straight to the device, and whether the
/// bound vertex buffer's checksum is needed for it.
pub fn plan_draw(gs: &HookState, prim_count: u32, vert_count: u32) -> (r: DrawPlan)
    ensures
        r == spec_plan_draw(*gs, prim_count, vert_count),
        r.pass_through <==> (!gs.is_snapping && (gs.metrics.low_framerate || !gs.show_mods)),
        r.needs_vb_checksum <==> (gs.bound_vertex_buffer != 0 && (gs.is_snapping
            || (gs.vb_checksum_targets matches Some(set) && set@.contains((prim_count, vert_count))))),
{
    let target = vb_checksum_target_matches_with(gs, prim_count, vert_count);
    DrawPlan {
        pass_through: !gs.is_snapping && (gs.metrics.low_framerate || !gs.show_mods),
        needs_vb_checksum: gs.bound_vertex_buffer != 0 && (gs.is_snapping || target),
    }
}

/// Whether the game's own geometry is drawn after the mod check: when no mod
/// was drawn (a load may have been requested), or when the drawn mod is
/// additive; a replacement or a deletion hides it.
pub open spec fn spec_draws_input(status: CheckRenderModResult) -> bool {
    match status {
        CheckRenderModResult::NotRendered => true,
        CheckRenderModResult::NotRenderedButLoadRequested(_) => true,
        CheckRenderModResult::Rendered(t) => t == ModType::GPUPertubation.spec_code(),
        CheckRenderModResult::Deleted => false,
    }
}

/// Whether the game's own geometry is drawn after the mod check.
pub fn draws_input(status: &CheckRenderModResult) -> (r: bool)
    ensures
        r == spec_draws_input(*status),
        r <==> (status is NotRendered || status is NotRenderedButLoadRequested || (status is Rendered
            && status->Rendered_0 == ModType::GPUPertubation.spec_code())),
{
    match status {
        CheckRenderModResult::NotRendered => true,
        CheckRenderModResult::NotRenderedButLoadRequested(_) => true,
        CheckRenderModResult::Rendered(t) => *t == ModType::GPUPertubation.code(),
        CheckRenderModResult::Deleted => false,
    }
}

} // verus!
