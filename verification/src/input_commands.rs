//! What the user's key commands do to the shared state: stepping through the
//! textures seen while choosing one, clearing the lists, showing or hiding
//! mods, and starting a snapshot.
use vstd::prelude::*;
use crate::global_state::{HookState, MAX_STAGE};
use crate::fnv_maps::{fnv_set_new, fnv_set_clear};
use crate::hook_render::{list_view, set_view, same_but_selection};
use crate::anim_snap_state::{AnimConstants, AnimSnapState};
use crate::snap_config::{AutoSnapMesh, SnapConfig};
use crate::error::HookError;
use crate::fnv_maps::{fnv_map_new, fnv_set_insert};
use crate::strings::{lowercase, to_lowercase};

verus! {

/// Start choosing a texture, with empty texture lists.
pub fn init_selection_state(gs: &mut HookState)
    ensures
        final(gs).making_selection,
        list_view(final(gs).active_texture_list) == Some(Seq::<usize>::empty()),
        set_view(final(gs).active_texture_set) == Some(Set::<usize>::empty()),
        final(gs).curr_texture_index == old(gs).curr_texture_index,
        final(gs).selected_on_stage == old(gs).selected_on_stage,
        same_but_selection(*final(gs), *old(gs)),
{
    gs.making_selection = true;
    gs.active_texture_list = Some(Vec::new());
    gs.active_texture_set = Some(fnv_set_new());
}

/// The number of textures seen (0 without a list).
pub open spec fn list_len(gs: HookState) -> nat {
    match list_view(gs.active_texture_list) {
        Some(l) => l.len(),
        None => 0,
    }
}

fn texture_count(gs: &HookState) -> (r: usize)
    ensures
        r == list_len(*gs),
{
    match &gs.active_texture_list {
        Some(list) => list.len(),
        None => 0,
    }
}

/// The index after `i` in a list of `len` textures, wrapping to the first.
pub open spec fn next_index(i: int, len: int) -> int {
    if i + 1 >= len {
        0
    } else {
        i + 1
    }
}

/// The index before `i` in a list of `len` textures, wrapping to the last
/// (an index past the end also goes to the last).
pub open spec fn prev_index(i: int, len: int) -> int {
    if i == 0 || i - 1 >= len {
        len - 1
    } else {
        i - 1
    }
}

/// Stepping to the next texture and back (or back and then on) returns to
/// the same texture.
pub proof fn lemma_next_prev_round_trip(i: int, len: int)
    requires
        0 <= i < len,
    ensures
        prev_index(next_index(i, len), len) == i,
        next_index(prev_index(i, len), len) == i,
{
}

/// "Next" steps forward through the textures and "previous" steps back: from
/// any texture but the last, next goes to the one after it, and from the last
/// to the first; from any texture but the first, previous goes to the one
/// before it, and from the first to the last.
pub proof fn lemma_next_forward_prev_back(i: int, len: int)
    requires
        0 <= i < len,
    ensures
        i + 1 < len ==> next_index(i, len) == i + 1,
        i == len - 1 ==> next_index(i, len) == 0,
        i > 0 ==> prev_index(i, len) == i - 1,
        i == 0 ==> prev_index(i, len) == len - 1,
        0 <= next_index(i, len) < len,
        0 <= prev_index(i, len) < len,
{
}

/// Choose the next texture seen, wrapping to the first after the last.
/// Nothing changes when no texture was seen.
pub fn select_next_texture(gs: &mut HookState)
    requires
        old(gs).curr_texture_index < usize::MAX,
    ensures
        list_len(*old(gs)) == 0 ==> *final(gs) == *old(gs),
        list_len(*old(gs)) > 0 ==> final(gs).curr_texture_index == next_index(
            old(gs).curr_texture_index as int,
            list_len(*old(gs)) as int,
        ),
        list_len(*old(gs)) > 0 ==> final(gs).curr_texture_index == if old(gs).curr_texture_index + 1
            < list_len(*old(gs)) {
            old(gs).curr_texture_index + 1
        } else {
            0
        },
        list_len(*old(gs)) > 0 ==> *final(gs) == (HookState {
            curr_texture_index: final(gs).curr_texture_index,
            ..*old(gs)
        }),
{
    let len = texture_count(gs);
    if len == 0 {
        return;
    }
    gs.curr_texture_index = gs.curr_texture_index + 1;
    if gs.curr_texture_index >= len {
        gs.curr_texture_index = 0;
    }
}

/// Choose the previous texture seen, wrapping to the last before the first
/// (an index past the end also goes to the last).  Nothing changes when no
/// texture was seen.
pub fn select_prev_texture(gs: &mut HookState)
    ensures
        list_len(*old(gs)) == 0 ==> *final(gs) == *old(gs),
        list_len(*old(gs)) > 0 ==> final(gs).curr_texture_index == prev_index(
            old(gs).curr_texture_index as int,
            list_len(*old(gs)) as int,
        ),
        list_len(*old(gs)) > 0 ==> final(gs).curr_texture_index == if 0 < old(gs).curr_texture_index
            <= list_len(*old(gs)) {
            old(gs).curr_texture_index - 1
        } else {
            list_len(*old(gs)) - 1
        },
        list_len(*old(gs)) > 0 ==> *final(gs) == (HookState {
            curr_texture_index: final(gs).curr_texture_index,
            ..*old(gs)
        }),
{
    let len = texture_count(gs);
    if len == 0 {
        return;
    }
    gs.curr_texture_index = gs.curr_texture_index.wrapping_sub(1);
    if gs.curr_texture_index >= len {
        gs.curr_texture_index = len - 1;
    }
}

/// Stop choosing: empty the texture lists (those that exist), unmark every
/// stage and go back to the first texture.
pub fn clear_texture_lists(gs: &mut HookState)
    ensures
        !final(gs).making_selection,
        final(gs).curr_texture_index == 0,
        forall|i: int| 0 <= i < MAX_STAGE ==> !final(gs).selected_on_stage[i],
        list_view(final(gs).active_texture_list) == match list_view(old(gs).active_texture_list) {
            Some(_) => Some(Seq::<usize>::empty()),
            None => None,
        },
        set_view(final(gs).active_texture_set) == match set_view(old(gs).active_texture_set) {
            Some(_) => Some(Set::<usize>::empty()),
            None => None,
        },
        same_but_selection(*final(gs), *old(gs)),
{
    match &mut gs.active_texture_list {
        Some(list) => {
            list.clear();
        },
        None => {},
    }
    match &mut gs.active_texture_set {
        Some(set) => {
            fnv_set_clear(set);
        },
        None => {},
    }
    gs.curr_texture_index = 0;
    let mut i: usize = 0;
    while i < MAX_STAGE
        invariant
            i <= MAX_STAGE,
            forall|j: int| 0 <= j < i ==> !gs.selected_on_stage[j],
            same_but_selection(*gs, *old(gs)),
            gs.curr_texture_index == 0,
            list_view(gs.active_texture_list) == match list_view(old(gs).active_texture_list) {
                Some(_) => Some(Seq::<usize>::empty()),
                None => None,
            },
            set_view(gs.active_texture_set) == match set_view(old(gs).active_texture_set) {
                Some(_) => Some(Set::<usize>::empty()),
                None => None,
            },
        decreases MAX_STAGE - i,
    {
        gs.selected_on_stage.set(i, false);
        i = i + 1;
    }
    gs.making_selection = false;
}

/// Show mods if hidden, hide them if shown.
pub fn toggle_show_mods(gs: &mut HookState)
    ensures
        *final(gs) == (HookState { show_mods: !old(gs).show_mods, ..*old(gs) }),
{
    gs.show_mods = !gs.show_mods;
}

/// Enter snapshot mode at time `now`, unless a snapshot is in progress;
/// true if it was entered.
pub fn begin_snapshot(gs: &mut HookState, now: i128) -> (r: bool)
    ensures
        r == !old(gs).is_snapping,
        old(gs).is_snapping ==> *final(gs) == *old(gs),
        !old(gs).is_snapping ==> *final(gs) == (HookState {
            is_snapping: true,
            snap_start: now,
            ..*old(gs)
        }),
{
    if gs.is_snapping {
        return false;
    }
    gs.is_snapping = true;
    gs.snap_start = now;
    true
}


/// An unused entry of the capture sequence: nothing captured yet, no
/// transform (an empty snapshot error in its place), and the draw to capture
/// configured.
pub open spec fn empty_capture(c: AnimConstants, snap_on_count: u32) -> bool {
    &&& c.snapped_at == 0
    &&& c.prim_count == 0
    &&& c.vert_count == 0
    &&& c.sequence == 0
    &&& c.frame == 0
    &&& c.capture_count == 0
    &&& c.player_transform matches Err(HookError::SnapshotFailed(m)) && m@.len() == 0
    &&& c.snap_on_count == snap_on_count
}

/// The (primitive, vertex) counts of the configured meshes.
pub open spec fn mesh_keys(v: Seq<AutoSnapMesh>) -> Set<(u32, u32)> {
    v.map_values(|m: AutoSnapMesh| (m.prims, m.verts)).to_set()
}

/// The state of a new animation snapshot started at `now`: the configured
/// meshes are expected, none seen, and the capture sequence is allocated in
/// full.  `None` if no meshes are configured (an animation cannot be
/// snapped without them).  The sequence length must fit a `u32`.
pub fn new_anim_snap_state(conf: &SnapConfig, now: i128) -> (r: Option<AnimSnapState>)
    requires
        conf.snap_ms / 1000 * 4096 <= u32::MAX,
    ensures
        conf.autosnap is None <==> r is None,
        r matches Some(a) ==> {
            &&& a.expected_primverts@ == mesh_keys(conf.autosnap->0@)
            &&& a.seen_primverts@ == Set::<(u32, u32)>::empty()
            &&& a.capture_count_this_frame@ == Map::<(u32, u32), u32>::empty()
            &&& !a.seen_all
            &&& a.next_vconst_idx == 0
            &&& a.sequence_start_time == now
            &&& a.curr_frame == 0
            &&& a.start_frame == 0
            &&& a.snap_dir@.len() == 0
            &&& a.sequence_vconstants@.len() == conf.spec_max_const_sequences()
            &&& forall|i: int|
                0 <= i < a.sequence_vconstants@.len() ==> empty_capture(
                    #[trigger] a.sequence_vconstants@[i],
                    conf.snap_anim_on_count,
                )
        },
{
    let meshes = match &conf.autosnap {
        Some(v) => v,
        None => {
            return None;
        },
    };
    let mut expected = fnv_set_new();
    let mut i: usize = 0;
    while i < meshes.len()
        invariant
            i <= meshes@.len(),
            expected@ == mesh_keys(meshes@.take(i as int)),
        decreases meshes@.len() - i,
    {
        let m = meshes[i];
        fnv_set_insert(&mut expected, (m.prims, m.verts));
        proof {
            let f = |m: AutoSnapMesh| (m.prims, m.verts);
            assert(meshes@.take(i + 1).map_values(f) =~= meshes@.take(i as int).map_values(f).push(f(m)));
            meshes@.take(i as int).map_values(f).lemma_push_to_set_commute(f(m));
            assert(mesh_keys(meshes@.take(i + 1)) =~= mesh_keys(meshes@.take(i as int)).insert((m.prims, m.verts)));
        }
        i = i + 1;
    }
    proof {
        assert(meshes@.take(meshes@.len() as int) =~= meshes@);
    }
    let max_seq = conf.max_const_sequences();
    let snap_on_count = conf.snap_anim_on_count;
    let mut seq: Vec<AnimConstants> = Vec::new();
    let mut k: usize = 0;
    while k < max_seq
        invariant
            k <= max_seq,
            seq@.len() == k,
            forall|q: int| 0 <= q < k ==> empty_capture(#[trigger] seq@[q], snap_on_count),
        decreases max_seq - k,
    {
        seq.push(
            AnimConstants {
                snapped_at: 0,
                prim_count: 0,
                vert_count: 0,
                sequence: 0,
                frame: 0,
                capture_count: 0,
                player_transform: Err(HookError::SnapshotFailed(String::new())),
                snap_on_count,
            },
        );
        k = k + 1;
    }
    Some(
        AnimSnapState {
            sequence_vconstants: seq,
            expected_primverts: expected,
            seen_primverts: fnv_set_new(),
            capture_count_this_frame: fnv_map_new(),
            seen_all: false,
            next_vconst_idx: 0,
            sequence_start_time: now,
            curr_frame: 0,
            start_frame: 0,
            snap_dir: String::new(),
        },
    )
}

/// The key binding schemes.
#[derive(Clone, Copy, Debug, PartialEq, Eq, Structural)]
pub enum InputScheme {
    /// Commands on the function keys.
    FKeys,
    /// Commands on punctuation keys.
    Punct,
}

/// `s` starts with `prefix`.
pub open spec fn starts_with(s: Seq<char>, prefix: Seq<char>) -> bool {
    s.len() >= prefix.len() && s.take(prefix.len() as int) == prefix
}

/// The binding scheme an input profile names (lowercased, it starts with
/// "fk" or "punct"), and whether it was recognized; the function keys are
/// used otherwise.
pub open spec fn spec_input_scheme(profile: Seq<char>) -> (InputScheme, bool) {
    spec_scheme_of_lowercase(lowercase(profile))
}

/// The binding scheme an already lowercased profile name names.
pub open spec fn spec_scheme_of_lowercase(l: Seq<char>) -> (InputScheme, bool) {
    if starts_with(l, seq!['f', 'k']) {
        (InputScheme::FKeys, true)
    } else if starts_with(l, seq!['p', 'u', 'n', 'c', 't']) {
        (InputScheme::Punct, true)
    } else {
        (InputScheme::FKeys, false)
    }
}

fn chars_start_with(s: &str, prefix: &str) -> (r: bool)
    ensures
        r == starts_with(s@, prefix@),
{
    let n = prefix.unicode_len();
    if s.unicode_len() < n {
        return false;
    }
    let mut i: usize = 0;
    while i < n
        invariant
            n == prefix@.len(),
            s@.len() >= n,
            i <= n,
            forall|j: int| 0 <= j < i ==> s@[j] == prefix@[j],
        decreases n - i,
    {
        if s.get_char(i) != prefix.get_char(i) {
            proof {
                assert(s@.take(n as int)[i as int] != prefix@[i as int]);
            }
            return false;
        }
        i = i + 1;
    }
    proof {
        assert(s@.take(n as int) =~= prefix@);
    }
    true
}

/// Chooses the key binding scheme of an input profile.
pub fn input_scheme(profile: &str) -> (r: (InputScheme, bool))
    ensures
        r == spec_input_scheme(profile@),
{
    let l = to_lowercase(profile);
    scheme_of_lowercase(l.as_str())
}

/// Chooses the key binding scheme from an already lowercased profile name:
/// one that starts with "fk" or "punct" is recognized, any other falls back
/// to the function keys.
pub fn scheme_of_lowercase(l: &str) -> (r: (InputScheme, bool))
    ensures
        r == spec_scheme_of_lowercase(l@),
        r.1 <==> (starts_with(l@, seq!['f', 'k']) || starts_with(l@, seq!['p', 'u', 'n', 'c', 't'])),
        r.0 == if !starts_with(l@, seq!['f', 'k']) && starts_with(l@, seq!['p', 'u', 'n', 'c', 't']) {
            InputScheme::Punct
        } else {
            InputScheme::FKeys
        },
{
    let fk = "fk";
    let punct = "punct";
    proof {
        reveal_strlit("fk");
        reveal_strlit("punct");
        assert(fk@ =~= seq!['f', 'k']);
        assert(punct@ =~= seq!['p', 'u', 'n', 'c', 't']);
    }
    if chars_start_with(l, fk) {
        (InputScheme::FKeys, true)
    } else if chars_start_with(l, punct) {
        (InputScheme::Punct, true)
    } else {
        (InputScheme::FKeys, false)
    }
}

} // verus!
