//! Tracking of D3D9 `UpdateTexture` sources.  Snapshots of a default-pool
//! texture read its contents from the lockable texture the game last copied
//! into it, so the library remembers, for each destination, its latest
//! source.  It holds one reference on each source (taken the first time the
//! source is seen) so that the source outlives the game's own use of it, and
//! periodically drops the references of old sources: a source whose count
//! falls to zero is gone, and every mapping to it is forgotten; one still
//! alive is referenced again and checked again later.
//!
//! Times are nanoseconds relative to the Unix epoch.
use vstd::prelude::*;
use std::collections::VecDeque;
use fnv::{FnvHashMap, FnvHashSet};
use crate::fnv_maps::{
    fnv_map_get, fnv_map_insert, fnv_map_keys, fnv_map_new, fnv_map_remove, fnv_set_insert,
    fnv_set_new, fnv_set_remove,
};
use crate::mod_stats::valid_time;

verus! {

/// A tracked source is checked again after 5 minutes.
pub const GC_AGE_NANOS: i128 = 300_000_000_000;

/// At most this many sources are checked in one pass.
pub const GC_MAX_PER_PASS: usize = 1000;

/// The sources behind the textures the game updated.
pub struct UpdateTextureTracking {
    /// Destination texture to its latest source.
    pub map: FnvHashMap<usize, usize>,
    /// The sources a reference is held on.
    pub tracked_srcs: FnvHashSet<usize>,
    /// The tracked sources, oldest first, with the time each was (re)taken.
    pub deque: VecDeque<(usize, i128)>,
}

/// The sources in the queue.
pub open spec fn queued(d: Seq<(usize, i128)>) -> Set<usize> {
    d.map_values(|e: (usize, i128)| e.0).to_set()
}

impl UpdateTextureTracking {
    /// Each tracked source is queued exactly once (so exactly one reference
    /// is held on it), and the queue's times are valid.
    pub open spec fn wf(&self) -> bool {
        &&& self.tracked_srcs@ == queued(self.deque@)
        &&& forall|i: int, j: int|
            0 <= i < j < self.deque@.len() ==> #[trigger] self.deque@[i].0 != #[trigger] self.deque@[j].0
        &&& forall|i: int| 0 <= i < self.deque@.len() ==> valid_time(#[trigger] self.deque@[i].1)
    }

    /// Nothing tracked.
    pub fn new() -> (r: UpdateTextureTracking)
        ensures
            r.wf(),
            r.map@.dom() == Set::<usize>::empty(),
            r.deque@.len() == 0,
    {
        let r = UpdateTextureTracking { map: fnv_map_new(), tracked_srcs: fnv_set_new(), deque: VecDeque::new() };
        proof {
            assert(queued(r.deque@) =~= Set::<usize>::empty());
        }
        r
    }
}

/// Records that the game copied texture `src` into `dest` at `now` (null
/// pointers are ignored).  Returns whether `src` was not tracked before: the
/// caller then takes the one reference the library holds on it.
pub fn note_update_texture(t: &mut UpdateTextureTracking, src: usize, dest: usize, now: i128) -> (r: bool)
    requires
        old(t).wf(),
        valid_time(now),
    ensures
        final(t).wf(),
        src == 0 || dest == 0 ==> !r && final(t).map == old(t).map && final(t).deque@ == old(t).deque@,
        src != 0 && dest != 0 ==> {
            &&& final(t).map@ == old(t).map@.insert(dest, src)
            &&& r == !old(t).tracked_srcs@.contains(src)
            &&& final(t).tracked_srcs@ == old(t).tracked_srcs@.insert(src)
            &&& final(t).deque@ == (if r {
                old(t).deque@.push((src, now))
            } else {
                old(t).deque@
            })
        },
{
    if src == 0 || dest == 0 {
        return false;
    }
    fnv_map_insert(&mut t.map, dest, src);
    let ghost d0 = t.deque@;
    let is_new = fnv_set_insert(&mut t.tracked_srcs, src);
    if is_new {
        t.deque.push_back((src, now));
        proof {
            let f = |e: (usize, i128)| e.0;
            assert(t.deque@.map_values(f) =~= d0.map_values(f).push(src));
            d0.map_values(f).lemma_push_to_set_commute(src);
            assert forall|i: int, j: int| 0 <= i < j < t.deque@.len() implies #[trigger] t.deque@[i].0
                != #[trigger] t.deque@[j].0 by {
                if j == d0.len() {
                    assert(d0.map_values(f)[i] == d0[i].0);
                    assert(queued(d0).contains(d0[i].0));
                }
            }
        }
    } else {
        proof {
            assert(t.tracked_srcs@ =~= queued(d0));
        }
    }
    is_new
}

/// The number of sources a pass checks at most.
pub fn gc_pass_count(t: &UpdateTextureTracking) -> (r: usize)
    ensures
        r == (if t.deque@.len() < GC_MAX_PER_PASS {
            t.deque@.len()
        } else {
            GC_MAX_PER_PASS as nat
        }),
{
    let n = t.deque.len();
    if n < GC_MAX_PER_PASS {
        n
    } else {
        GC_MAX_PER_PASS
    }
}

/// The oldest entry is due at `now`: at least 5 minutes old.
pub open spec fn front_due(d: Seq<(usize, i128)>, now: i128) -> bool {
    d.len() > 0 && now >= d[0].1 && now - d[0].1 >= GC_AGE_NANOS
}

/// Takes the oldest tracked source off the queue if it is due at `now`; the
/// caller then drops the library's reference on it and reports the count
/// left with `gc_after_release`.  `None` ends the pass (nothing behind the
/// oldest entry is due either).
pub fn gc_next_due(t: &mut UpdateTextureTracking, now: i128) -> (r: Option<usize>)
    requires
        old(t).wf(),
        valid_time(now),
    ensures
        final(t).map == old(t).map,
        final(t).tracked_srcs == old(t).tracked_srcs,
        front_due(old(t).deque@, now) ==> r == Some(old(t).deque@[0].0) && final(t).deque@ == old(
            t,
        ).deque@.drop_first(),
        !front_due(old(t).deque@, now) ==> r is None && final(t).deque@ == old(t).deque@,
        r matches Some(src) ==> wf_checking(*final(t), src),
        r is None ==> final(t).wf(),
{
    if t.deque.len() == 0 {
        return None;
    }
    let (src, stamp) = t.deque[0];
    proof {
        assert(valid_time(old(t).deque@[0].1));
    }
    if now >= stamp && now - stamp >= GC_AGE_NANOS {
        let e = t.deque.pop_front();
        proof {
            assert(t.deque@ =~= old(t).deque@.drop_first());
            lemma_next_due_checking(*old(t), *t, src);
        }
        Some(src)
    } else {
        None
    }
}

/// The tracking while a source taken off the queue is being checked:
/// well-formed but for that source, which is tracked and not queued.
pub open spec fn wf_checking(t: UpdateTextureTracking, src: usize) -> bool {
    &&& t.tracked_srcs@ == queued(t.deque@).insert(src)
    &&& !queued(t.deque@).contains(src)
    &&& forall|i: int, j: int| 0 <= i < j < t.deque@.len() ==> #[trigger] t.deque@[i].0 != #[trigger] t.deque@[j].0
    &&& forall|i: int| 0 <= i < t.deque@.len() ==> valid_time(#[trigger] t.deque@[i].1)
}

/// Taking the due source off a well-formed queue leaves it being checked.
proof fn lemma_next_due_checking(t0: UpdateTextureTracking, t1: UpdateTextureTracking, src: usize)
    requires
        t0.wf(),
        t1.tracked_srcs == t0.tracked_srcs,
        t0.deque@.len() > 0,
        src == t0.deque@[0].0,
        t1.deque@ == t0.deque@.drop_first(),
    ensures
        wf_checking(t1, src),
{
    let f = |e: (usize, i128)| e.0;
    let d0 = t0.deque@;
    let d1 = t1.deque@;
    assert(d0.map_values(f) =~= seq![src] + d1.map_values(f));
    assert forall|x: usize| #[trigger] queued(d0).contains(x) <==> (queued(d1).contains(x) || x == src) by {
        if queued(d0).contains(x) {
            let k = choose|k: int| 0 <= k < d0.len() && d0.map_values(f)[k] == x;
            if k > 0 {
                assert(d1.map_values(f)[k - 1] == x);
            }
        }
        if queued(d1).contains(x) {
            let k = choose|k: int| 0 <= k < d1.len() && d1.map_values(f)[k] == x;
            assert(d0.map_values(f)[k + 1] == x);
        }
        if x == src {
            assert(d0.map_values(f)[0] == x);
        }
    }
    assert(t1.tracked_srcs@ =~= queued(d1).insert(src));
    if queued(d1).contains(src) {
        let k = choose|k: int| 0 <= k < d1.len() && d1.map_values(f)[k] == src;
        assert(d0[0].0 == d0[k + 1].0);
    }
}

/// After the library dropped its reference on `src` and `remaining`
/// references were left: if the texture is still alive the caller takes the
/// reference again (returns true) and it is queued anew at `now`; otherwise
/// it is no longer tracked and is added to `released`.
pub fn gc_after_release(
    t: &mut UpdateTextureTracking,
    src: usize,
    remaining: u32,
    now: i128,
    released: &mut Vec<usize>,
) -> (r: bool)
    requires
        wf_checking(*old(t), src),
        valid_time(now),
    ensures
        final(t).wf(),
        final(t).map == old(t).map,
        r == (remaining > 0),
        r ==> final(t).deque@ == old(t).deque@.push((src, now)) && final(released)@ == old(released)@,
        !r ==> final(t).deque@ == old(t).deque@ && final(t).tracked_srcs@ == old(t).tracked_srcs@.remove(src)
            && final(released)@ == old(released)@.push(src),
{
    let ghost d0 = t.deque@;
    if remaining > 0 {
        t.deque.push_back((src, now));
        proof {
            let f = |e: (usize, i128)| e.0;
            assert(t.deque@.map_values(f) =~= d0.map_values(f).push(src));
            d0.map_values(f).lemma_push_to_set_commute(src);
            assert forall|i: int, j: int| 0 <= i < j < t.deque@.len() implies #[trigger] t.deque@[i].0
                != #[trigger] t.deque@[j].0 by {
                if j == d0.len() {
                    assert(d0.map_values(f)[i] == d0[i].0);
                    assert(queued(d0).contains(d0[i].0));
                }
            }
        }
        true
    } else {
        fnv_set_remove(&mut t.tracked_srcs, &src);
        released.push(src);
        proof {
            assert(t.tracked_srcs@ =~= queued(t.deque@));
        }
        false
    }
}

/// The mappings left once the `released` sources are gone.
pub open spec fn purged(m: Map<usize, usize>, released: Seq<usize>) -> Map<usize, usize> {
    Map::new(|k: usize| m.contains_key(k) && !released.contains(m[k]), |k: usize| m[k])
}

fn contains_usize(v: &Vec<usize>, x: usize) -> (r: bool)
    ensures
        r == v@.contains(x),
{
    let mut i: usize = 0;
    while i < v.len()
        invariant
            i <= v@.len(),
            forall|j: int| 0 <= j < i ==> v@[j] != x,
        decreases v@.len() - i,
    {
        if v[i] == x {
            return true;
        }
        i = i + 1;
    }
    false
}

/// Forgets every mapping to a released source.
pub fn gc_purge(t: &mut UpdateTextureTracking, released: &Vec<usize>)
    ensures
        final(t).map@ == purged(old(t).map@, released@),
        final(t).tracked_srcs == old(t).tracked_srcs,
        final(t).deque@ == old(t).deque@,
{
    if released.len() == 0 {
        proof {
            assert(purged(old(t).map@, released@) =~= old(t).map@);
        }
        return;
    }
    let keys = fnv_map_keys(&t.map);
    let ghost m0 = t.map@;
    proof {
        assert(keys@.subrange(0, keys@.len() as int) =~= keys@);
    }
    let mut i: usize = 0;
    while i < keys.len()
        invariant
            i <= keys@.len(),
            keys@.no_duplicates(),
            forall|k: usize| #[trigger] keys@.contains(k) <==> m0.contains_key(k),
            t.tracked_srcs == old(t).tracked_srcs,
            t.deque@ == old(t).deque@,
            forall|k: usize|
                #[trigger] t.map@.contains_key(k) <==> (m0.contains_key(k) && (keys@.subrange(
                    i as int,
                    keys@.len() as int,
                ).contains(k) || !released@.contains(m0[k]))),
            forall|k: usize| #[trigger] t.map@.contains_key(k) ==> t.map@[k] == m0[k],
        decreases keys@.len() - i,
    {
        let k = keys[i];
        let v = match fnv_map_get(&t.map, k) {
            Some(v) => *v,
            None => {
                proof {
                    assert(keys@.subrange(i as int, keys@.len() as int)[0] == k);
                    assert(keys@.contains(k));
                    assert(false);
                }
                0
            },
        };
        if contains_usize(released, v) {
            fnv_map_remove(&mut t.map, k);
        }
        proof {
            assert forall|k2: usize| #[trigger] t.map@.contains_key(k2) <==> (m0.contains_key(k2) && (
            keys@.subrange(i + 1, keys@.len() as int).contains(k2) || !released@.contains(m0[k2]))) by {
                let s0 = keys@.subrange(i as int, keys@.len() as int);
                let s1 = keys@.subrange(i + 1, keys@.len() as int);
                if s0.contains(k2) && k2 != k {
                    let q = choose|q: int| 0 <= q < s0.len() && s0[q] == k2;
                    assert(q != 0);
                    assert(s1[q - 1] == k2);
                }
                if s1.contains(k2) {
                    let q = choose|q: int| 0 <= q < s1.len() && s1[q] == k2;
                    assert(s0[q + 1] == k2);
                    if k2 == k {
                        assert(keys@[i as int] == keys@[i + 1 + q]);
                    }
                }
            }
        }
        i = i + 1;
    }
    proof {
        assert(t.map@ =~= purged(m0, released@));
    }
}


/// `D3DPOOL_DEFAULT`.
pub const D3DPOOL_DEFAULT: u32 = 0;

/// `D3DPOOL_MANAGED`.
pub const D3DPOOL_MANAGED: u32 = 1;

/// `D3DUSAGE_RENDERTARGET | D3DUSAGE_DEPTHSTENCIL | D3DUSAGE_DYNAMIC`: usages
/// that need the default pool.
pub const DEFAULT_POOL_USAGES: u32 = 0x1 | 0x2 | 0x200;

/// The pool a texture is created in: when textures must be readable by the
/// CPU (for snapshots), a default-pool texture without a usage that needs
/// the default pool goes to the managed pool instead.  The flag says whether
/// the pool was changed (creation is then retried in the asked pool if it
/// fails).
pub open spec fn spec_texture_pool(force_cpu_read: bool, pool: u32, usage: u32) -> (u32, bool) {
    if force_cpu_read && pool == D3DPOOL_DEFAULT && usage & DEFAULT_POOL_USAGES == 0 {
        (D3DPOOL_MANAGED, true)
    } else {
        (pool, false)
    }
}

/// Chooses the pool of a texture the game creates.
pub fn texture_pool(force_cpu_read: bool, pool: u32, usage: u32) -> (r: (u32, bool))
    ensures
        r == spec_texture_pool(force_cpu_read, pool, usage),
        r.1 <==> (force_cpu_read && pool == D3DPOOL_DEFAULT && usage & DEFAULT_POOL_USAGES == 0),
        r.0 == if r.1 {
            D3DPOOL_MANAGED
        } else {
            pool
        },
{
    if force_cpu_read && pool == D3DPOOL_DEFAULT && usage & DEFAULT_POOL_USAGES == 0 {
        (D3DPOOL_MANAGED, true)
    } else {
        (pool, false)
    }
}

} // verus!
