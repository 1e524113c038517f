//! Animation snapshots: after every expected mesh has been snapped once, the
//! vertex shader constants of each of them are captured on every frame, into
//! a preallocated sequence.
//!
//! Times are nanoseconds relative to the Unix epoch.
use vstd::prelude::*;
use fnv::FnvHashMap;
use fnv::FnvHashSet;
use crate::error::HookError;
use crate::fnv_maps::{fnv_map_get, fnv_map_insert, fnv_map_clear, fnv_set_contains, fnv_set_insert, fnv_set_len};

verus! {

/// One capture of a mesh's vertex shader constants (the constants
/// themselves are kept by the renderer, by sequence number).
pub struct AnimConstants {
    pub snapped_at: i128,
    pub prim_count: u32,
    pub vert_count: u32,
    pub sequence: usize,
    pub frame: u64,
    pub capture_count: u32,
    pub player_transform: Result<String, HookError>,
    pub snap_on_count: u32,
}

/// The state of an animation snapshot.
pub struct AnimSnapState {
    pub sequence_vconstants: Vec<AnimConstants>,
    /// The (primitive, vertex) counts of the meshes to snap.
    pub expected_primverts: FnvHashSet<(u32, u32)>,
    /// Those snapped so far.
    pub seen_primverts: FnvHashSet<(u32, u32)>,
    /// How often each mesh was drawn in the current frame.
    pub capture_count_this_frame: FnvHashMap<(u32, u32), u32>,
    /// Every expected mesh was snapped.
    pub seen_all: bool,
    /// The next entry of the sequence to fill.
    pub next_vconst_idx: usize,
    pub sequence_start_time: i128,
    pub curr_frame: u64,
    pub start_frame: u64,
    pub snap_dir: String,
}

/// What to do for a draw of an expected mesh.
#[derive(Clone, Copy, Debug, PartialEq, Eq, Structural)]
pub enum AutoSnapAction {
    /// Nothing.
    Nothing,
    /// Snap the mesh in full (its first sighting).
    FullSnap,
    /// Read the vertex shader constants into this entry of the sequence.
    CaptureConstants(usize),
    /// The sequence is full.
    TooManyCaptures,
}

/// The draw count of mesh `pv` in the current frame before this draw.
pub open spec fn count_before(ass: AnimSnapState, total_frames: u64, pv: (u32, u32)) -> int {
    if total_frames > ass.curr_frame || !ass.capture_count_this_frame@.contains_key(pv) {
        0
    } else {
        ass.capture_count_this_frame@[pv] as int
    }
}

/// A draw of mesh `pv` in frame `total_frames`, as the `snap_on_count`-th
/// draw of a mesh in a frame is the one captured.  The first sighting of each
/// expected mesh is snapped in full; once all have been seen, the captured
/// draw of each expected mesh has its constants read into the next sequence
/// entry (the first such capture starts the sequence).
pub fn auto_snap_anim_step(
    ass: &mut AnimSnapState,
    total_frames: u64,
    prim_count: u32,
    num_vertices: u32,
    snap_on_count: u32,
    now: i128,
) -> (r: AutoSnapAction)
    requires
        count_before(*old(ass), total_frames, (prim_count, num_vertices)) < u32::MAX,
        old(ass).next_vconst_idx < usize::MAX,
    ensures
        ({
            let pv = (prim_count, num_vertices);
            let o = *old(ass);
            let f = *final(ass);
            let frame = if total_frames > o.curr_frame {
                total_frames
            } else {
                o.curr_frame
            };
            let cap = count_before(o, total_frames, pv) + 1;
            &&& f.curr_frame == frame
            &&& f.expected_primverts == o.expected_primverts
            &&& f.snap_dir == o.snap_dir
            &&& !o.expected_primverts@.contains(pv) ==> r == AutoSnapAction::Nothing
                && f.seen_primverts == o.seen_primverts && f.seen_all == o.seen_all
                && f.next_vconst_idx == o.next_vconst_idx && f.sequence_vconstants
                == o.sequence_vconstants && f.start_frame == o.start_frame
            &&& o.expected_primverts@.contains(pv) ==> f.capture_count_this_frame@.contains_key(pv)
                && f.capture_count_this_frame@[pv] == cap
            &&& o.expected_primverts@.contains(pv) && cap != snap_on_count ==> r
                == AutoSnapAction::Nothing && f.seen_primverts == o.seen_primverts && f.seen_all
                == o.seen_all && f.next_vconst_idx == o.next_vconst_idx && f.sequence_vconstants
                == o.sequence_vconstants
            &&& o.expected_primverts@.contains(pv) && cap == snap_on_count && !o.seen_all ==> {
                if o.seen_primverts@.contains(pv) {
                    r == AutoSnapAction::Nothing && f.seen_primverts@ == o.seen_primverts@
                        && !f.seen_all
                } else {
                    r == AutoSnapAction::FullSnap && f.seen_primverts@ == o.seen_primverts@.insert(
                        pv,
                    ) && f.seen_all == (o.expected_primverts@.len() == f.seen_primverts@.len())
                }
            } && f.next_vconst_idx == o.next_vconst_idx && f.sequence_vconstants
                == o.sequence_vconstants
            &&& o.expected_primverts@.contains(pv) && cap == snap_on_count && o.seen_all ==> {
                &&& f.seen_all
                &&& f.seen_primverts == o.seen_primverts
                &&& f.start_frame == if o.start_frame == 0 {
                    frame
                } else {
                    o.start_frame
                }
                &&& o.next_vconst_idx == 0 ==> f.sequence_start_time == now
                &&& o.next_vconst_idx >= o.sequence_vconstants@.len() ==> r
                    == AutoSnapAction::TooManyCaptures && f.next_vconst_idx == o.next_vconst_idx
                    && f.sequence_vconstants == o.sequence_vconstants
                &&& o.next_vconst_idx < o.sequence_vconstants@.len() ==> {
                    let e = o.sequence_vconstants@[o.next_vconst_idx as int];
                    &&& r == AutoSnapAction::CaptureConstants(o.next_vconst_idx)
                    &&& f.next_vconst_idx == o.next_vconst_idx + 1
                    &&& f.sequence_vconstants@.len() == o.sequence_vconstants@.len()
                    &&& forall|q: int|
                        0 <= q < o.sequence_vconstants@.len() && q != o.next_vconst_idx
                            ==> #[trigger] f.sequence_vconstants@[q] == o.sequence_vconstants@[q]
                    &&& f.sequence_vconstants@[o.next_vconst_idx as int] == (AnimConstants {
                        snapped_at: now,
                        prim_count,
                        vert_count: num_vertices,
                        sequence: o.next_vconst_idx,
                        frame,
                        capture_count: cap as u32,
                        ..e
                    })
                }
            }
        }),
{
    let pv = (prim_count, num_vertices);
    if total_frames > ass.curr_frame {
        ass.curr_frame = total_frames;
        fnv_map_clear(&mut ass.capture_count_this_frame);
    }
    if !fnv_set_contains(&ass.expected_primverts, &pv) {
        return AutoSnapAction::Nothing;
    }
    let prev: u32 = match fnv_map_get(&ass.capture_count_this_frame, pv) {
        Some(c) => *c,
        None => 0,
    };
    let cap = prev + 1;
    fnv_map_insert(&mut ass.capture_count_this_frame, pv, cap);
    if cap != snap_on_count {
        return AutoSnapAction::Nothing;
    }
    if ass.seen_all {
        if ass.start_frame == 0 {
            ass.start_frame = ass.curr_frame;
        }
        if ass.next_vconst_idx == 0 {
            ass.sequence_start_time = now;
        }
        let idx = ass.next_vconst_idx;
        if idx >= ass.sequence_vconstants.len() {
            return AutoSnapAction::TooManyCaptures;
        }
        let mut e = ass.sequence_vconstants.remove(idx);
        e.snapped_at = now;
        e.prim_count = prim_count;
        e.vert_count = num_vertices;
        e.sequence = idx;
        e.frame = ass.curr_frame;
        e.capture_count = cap;
        ass.sequence_vconstants.insert(idx, e);
        ass.next_vconst_idx = idx + 1;
        return AutoSnapAction::CaptureConstants(idx);
    }
    if !fnv_set_contains(&ass.seen_primverts, &pv) {
        fnv_set_insert(&mut ass.seen_primverts, pv);
        let n_expected = fnv_set_len(&ass.expected_primverts);
        let n_seen = fnv_set_len(&ass.seen_primverts);
        if n_expected == n_seen {
            ass.seen_all = true;
        }
        return AutoSnapAction::FullSnap;
    }
    AutoSnapAction::Nothing
}


/// Why the captured animation is not written.
#[derive(Clone, Copy, Debug, PartialEq, Eq, Structural)]
pub enum AnimWriteError {
    /// No snapshot directory was recorded.
    NoSnapDir,
    /// Not every expected mesh was snapped.
    NotAllSeen,
    /// The player transform of a capture to write is missing (at this frame
    /// of the animation).
    TransformUnavailable(u64),
}

/// A capture is written: it is not from the first frame (which holds the
/// mesh snapshots and is always partial) and it is the configured draw of
/// its mesh in its frame.
pub open spec fn capture_written(c: AnimConstants, start_frame: u64, snap_on_count: u32) -> bool {
    c.frame - start_frame != 0 && c.capture_count == snap_on_count
}

/// The captures among the first `n` to write, in order.
pub open spec fn captures_to_write(seq: Seq<AnimConstants>, n: int, start_frame: u64, snap_on_count: u32) -> Seq<usize>
    decreases n,
{
    if n <= 0 {
        Seq::empty()
    } else if capture_written(seq[n - 1], start_frame, snap_on_count) {
        captures_to_write(seq, n - 1, start_frame, snap_on_count).push((n - 1) as usize)
    } else {
        captures_to_write(seq, n - 1, start_frame, snap_on_count)
    }
}

/// The first capture to write whose player transform is missing, if any.
pub open spec fn first_missing_transform(seq: Seq<AnimConstants>, sel: Seq<usize>) -> Option<int>
    decreases sel.len(),
{
    if sel.len() == 0 {
        None
    } else {
        match first_missing_transform(seq, sel.drop_last()) {
            Some(i) => Some(i),
            None => if seq[sel.last() as int].player_transform is Err {
                Some(sel.last() as int)
            } else {
                None
            },
        }
    }
}

proof fn lemma_captures_prefix(seq: Seq<AnimConstants>, n: int, m: int, start_frame: u64, snap_on_count: u32)
    requires
        0 <= n <= m,
    ensures
        ({
            let a = captures_to_write(seq, n, start_frame, snap_on_count);
            let b = captures_to_write(seq, m, start_frame, snap_on_count);
            a.len() <= b.len() && b.take(a.len() as int) == a
        }),
    decreases m,
{
    let a = captures_to_write(seq, n, start_frame, snap_on_count);
    if n < m {
        lemma_captures_prefix(seq, n, m - 1, start_frame, snap_on_count);
        let b1 = captures_to_write(seq, m - 1, start_frame, snap_on_count);
        let b = captures_to_write(seq, m, start_frame, snap_on_count);
        if capture_written(seq[m - 1], start_frame, snap_on_count) {
            assert(b.take(a.len() as int) =~= b1.take(a.len() as int));
        }
    } else {
        let b = captures_to_write(seq, m, start_frame, snap_on_count);
        assert(b.take(a.len() as int) =~= a);
    }
}

proof fn lemma_first_missing_prefix(seq: Seq<AnimConstants>, a: Seq<usize>, b: Seq<usize>)
    requires
        a.len() <= b.len(),
        b.take(a.len() as int) == a,
        first_missing_transform(seq, a) is Some,
    ensures
        first_missing_transform(seq, b) == first_missing_transform(seq, a),
    decreases b.len(),
{
    if b.len() > a.len() {
        assert(b.drop_last().take(a.len() as int) =~= a);
        lemma_first_missing_prefix(seq, a, b.drop_last());
    } else {
        assert(b =~= a);
    }
}

/// Which captures of an animation snapshot are written (their positions in
/// the sequence, in order), given the configured draw to capture; each
/// frame file then holds the captures of one mesh.  The snapshot must have a
/// directory and have seen every expected mesh, and every capture to write
/// must carry the player transform.
pub fn anim_captures_to_write(ass: &AnimSnapState, snap_on_count: u32) -> (r: Result<Vec<usize>, AnimWriteError>)
    requires
        ass.next_vconst_idx <= ass.sequence_vconstants@.len(),
        forall|i: int| 0 <= i < ass.next_vconst_idx ==> #[trigger] ass.sequence_vconstants@[i].frame >= ass.start_frame,
    ensures
        ({
            let sel = captures_to_write(
                ass.sequence_vconstants@,
                ass.next_vconst_idx as int,
                ass.start_frame,
                snap_on_count,
            );
            if ass.snap_dir@.len() == 0 {
                r == Err::<Vec<usize>, AnimWriteError>(AnimWriteError::NoSnapDir)
            } else if !ass.seen_all {
                r == Err::<Vec<usize>, AnimWriteError>(AnimWriteError::NotAllSeen)
            } else {
                match first_missing_transform(ass.sequence_vconstants@, sel) {
                    Some(i) => r == Err::<Vec<usize>, AnimWriteError>(
                        AnimWriteError::TransformUnavailable(
                            (ass.sequence_vconstants@[i].frame - ass.start_frame) as u64,
                        ),
                    ),
                    None => r matches Ok(v) && v@ == sel,
                }
            }
        }),
{
    if ass.snap_dir.as_str().unicode_len() == 0 {
        return Err(AnimWriteError::NoSnapDir);
    }
    if !ass.seen_all {
        return Err(AnimWriteError::NotAllSeen);
    }
    let ghost seq = ass.sequence_vconstants@;
    let mut sel: Vec<usize> = Vec::new();
    let mut i: usize = 0;
    while i < ass.next_vconst_idx
        invariant
            i <= ass.next_vconst_idx <= seq.len(),
            seq == ass.sequence_vconstants@,
            ass.snap_dir@.len() != 0,
            ass.seen_all,
            forall|j: int| 0 <= j < ass.next_vconst_idx ==> #[trigger] seq[j].frame >= ass.start_frame,
            sel@ == captures_to_write(seq, i as int, ass.start_frame, snap_on_count),
            first_missing_transform(seq, sel@) is None,
            forall|q: int| 0 <= q < sel@.len() ==> sel@[q] < i,
        decreases ass.next_vconst_idx - i,
    {
        let c = &ass.sequence_vconstants[i];
        let frame = c.frame - ass.start_frame;
        if frame != 0 && c.capture_count == snap_on_count {
            if c.player_transform.is_err() {
                proof {
                    let s1 = sel@.push(i as usize);
                    assert(s1.drop_last() =~= sel@);
                    assert(s1 == captures_to_write(seq, i + 1, ass.start_frame, snap_on_count));
                    lemma_captures_prefix(seq, i + 1, ass.next_vconst_idx as int, ass.start_frame, snap_on_count);
                    lemma_first_missing_prefix(
                        seq,
                        s1,
                        captures_to_write(seq, ass.next_vconst_idx as int, ass.start_frame, snap_on_count),
                    );
                }
                return Err(AnimWriteError::TransformUnavailable(frame));
            }
            sel.push(i);
            proof {
                assert(sel@.drop_last() =~= captures_to_write(seq, i as int, ass.start_frame, snap_on_count));
            }
        }
        i = i + 1;
    }
    Ok(sel)
}

} // verus!
