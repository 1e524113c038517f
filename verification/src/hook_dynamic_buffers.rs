//! Copies of "dynamic" mesh buffers: index and vertex buffers that the game
//! creates empty and fills later (through `Map`/`Unmap` or
//! `UpdateSubresource`).  D3D11 does not read a buffer back, so for snapshots
//! the hooks keep a copy of the bytes each time the game writes them, and a
//! record of how each copy was produced.
//!
//! Times are nanoseconds relative to the Unix epoch.
use vstd::prelude::*;
use fnv::FnvHashMap;
use crate::dx11rs::{DX11RenderState, BufferCaptureInfo, BufferWriteKind, BufferMeta};
use crate::fnv_maps::{fnv_map_get, fnv_map_insert, fnv_map_remove, fnv_map_keys, fnv_map_clear};

verus! {

/// `D3D11_MAP` values.
pub const D3D11_MAP_READ: u32 = 1;

pub const D3D11_MAP_WRITE: u32 = 2;

pub const D3D11_MAP_READ_WRITE: u32 = 3;

pub const D3D11_MAP_WRITE_DISCARD: u32 = 4;

pub const D3D11_MAP_WRITE_NO_OVERWRITE: u32 = 5;

/// True for the map types that (may) write the buffer, whose contents are
/// worth copying.
pub fn is_write_map(map_type: u32) -> (r: bool)
    ensures
        r == (map_type == D3D11_MAP_WRITE || map_type == D3D11_MAP_WRITE_DISCARD || map_type
            == D3D11_MAP_WRITE_NO_OVERWRITE || map_type == D3D11_MAP_READ_WRITE),
{
    map_type == D3D11_MAP_WRITE || map_type == D3D11_MAP_WRITE_DISCARD || map_type
        == D3D11_MAP_WRITE_NO_OVERWRITE || map_type == D3D11_MAP_READ_WRITE
}

/// The records after a capture of `bytes` bytes of buffer `ptr`, the `seq`-th
/// capture overall: the buffer's capture count goes up by one.
pub open spec fn provenance_after(
    info: Map<usize, BufferCaptureInfo>,
    ptr: usize,
    kind: BufferWriteKind,
    bytes: usize,
    seq: u64,
) -> Map<usize, BufferCaptureInfo> {
    info.insert(
        ptr,
        BufferCaptureInfo {
            kind,
            seq,
            count: ((if info.contains_key(ptr) {
                info[ptr].count as int
            } else {
                0
            }) + 1) as u64,
            bytes,
        },
    )
}

/// Everything but the buffer copies, their times and records is the same.
pub open spec fn same_layout_state(a: DX11RenderState, b: DX11RenderState) -> bool {
    &&& a.vb_state == b.vb_state
    &&& a.num_input_layouts == b.num_input_layouts
    &&& a.device_input_layouts_by_ptr == b.device_input_layouts_by_ptr
    &&& a.context_input_layouts_by_ptr == b.context_input_layouts_by_ptr
    &&& a.current_input_layout == b.current_input_layout
    &&& a.prim_topology == b.prim_topology
    &&& a.device_index_buffer_totalsize_nextlog == b.device_index_buffer_totalsize_nextlog
    &&& a.device_vertex_buffer_totalsize_nextlog == b.device_vertex_buffer_totalsize_nextlog
}

/// Record that buffer `ptr` was captured: `bytes` bytes, produced by `kind`,
/// as capture number `seq`.
pub fn note_capture_provenance(
    rs: &mut DX11RenderState,
    buf_ptr: usize,
    kind: BufferWriteKind,
    bytes: usize,
    seq: u64,
)
    requires
        old(rs).buffer_capture_info@.contains_key(buf_ptr) ==> old(rs).buffer_capture_info@[buf_ptr].count
            < u64::MAX,
    ensures
        final(rs).buffer_capture_info@ == provenance_after(
            old(rs).buffer_capture_info@,
            buf_ptr,
            kind,
            bytes,
            seq,
        ),
        same_layout_state(*final(rs), *old(rs)),
        final(rs).device_index_buffer_data == old(rs).device_index_buffer_data,
        final(rs).device_vertex_buffer_data == old(rs).device_vertex_buffer_data,
        final(rs).device_index_buffer_createtime == old(rs).device_index_buffer_createtime,
        final(rs).device_vertex_buffer_createtime == old(rs).device_vertex_buffer_createtime,
        final(rs).device_buffer_meta == old(rs).device_buffer_meta,
        final(rs).mapped_buffers == old(rs).mapped_buffers,
{
    let count: u64 = match fnv_map_get(&rs.buffer_capture_info, buf_ptr) {
        Some(i) => i.count + 1,
        None => 1,
    };
    fnv_map_insert(&mut rs.buffer_capture_info, buf_ptr, BufferCaptureInfo { kind, seq, count, bytes });
}

/// `m2` is `m1` with the bytes for `ptr` replaced by (or set to) `bytes`.
pub open spec fn stores(
    m2: Map<usize, Vec<u8>>,
    m1: Map<usize, Vec<u8>>,
    ptr: usize,
    bytes: Seq<u8>,
) -> bool {
    &&& m2.dom() == m1.dom().insert(ptr)
    &&& m2[ptr]@ == bytes
    &&& forall|k: usize| k != ptr && #[trigger] m1.contains_key(k) ==> m2[k] == m1[k]
}

/// The creation times after storing a copy of buffer `ptr` at `now`: a new
/// entry only for a buffer that had no copy.
pub open spec fn times_after(
    ct: Seq<(usize, i128)>,
    had_copy: bool,
    ptr: usize,
    now: i128,
) -> Seq<(usize, i128)> {
    if had_copy {
        ct
    } else {
        ct.push((ptr, now))
    }
}

fn copy_bytes(src: &[u8]) -> (r: Vec<u8>)
    ensures
        r@ == src@,
{
    let mut r: Vec<u8> = Vec::new();
    let mut i: usize = 0;
    while i < src.len()
        invariant
            i <= src@.len(),
            r@ == src@.take(i as int),
        decreases src@.len() - i,
    {
        r.push(src[i]);
        proof {
            assert(src@.take(i + 1) =~= src@.take(i as int).push(src@[i as int]));
        }
        i = i + 1;
    }
    proof {
        assert(src@.take(src@.len() as int) =~= src@);
    }
    r
}

/// Store `data` as the copy of index (`is_ib`) or vertex buffer `buf_ptr`,
/// written by `kind`, as capture `seq` at time `now`.  The first copy of a
/// buffer also records when it was stored.
pub fn capture_buffer_data(
    rs: &mut DX11RenderState,
    is_ib: bool,
    buf_ptr: usize,
    data: &[u8],
    kind: BufferWriteKind,
    seq: u64,
    now: i128,
)
    requires
        old(rs).buffer_capture_info@.contains_key(buf_ptr) ==> old(rs).buffer_capture_info@[buf_ptr].count
            < u64::MAX,
    ensures
        final(rs).buffer_capture_info@ == provenance_after(
            old(rs).buffer_capture_info@,
            buf_ptr,
            kind,
            data@.len() as usize,
            seq,
        ),
        same_layout_state(*final(rs), *old(rs)),
        final(rs).device_buffer_meta == old(rs).device_buffer_meta,
        final(rs).mapped_buffers == old(rs).mapped_buffers,
        is_ib ==> stores(
            final(rs).device_index_buffer_data@,
            old(rs).device_index_buffer_data@,
            buf_ptr,
            data@,
        ),
        is_ib ==> final(rs).device_index_buffer_createtime@ == times_after(
            old(rs).device_index_buffer_createtime@,
            old(rs).device_index_buffer_data@.contains_key(buf_ptr),
            buf_ptr,
            now,
        ),
        is_ib ==> final(rs).device_vertex_buffer_data == old(rs).device_vertex_buffer_data,
        is_ib ==> final(rs).device_vertex_buffer_createtime == old(rs).device_vertex_buffer_createtime,
        !is_ib ==> stores(
            final(rs).device_vertex_buffer_data@,
            old(rs).device_vertex_buffer_data@,
            buf_ptr,
            data@,
        ),
        !is_ib ==> final(rs).device_vertex_buffer_createtime@ == times_after(
            old(rs).device_vertex_buffer_createtime@,
            old(rs).device_vertex_buffer_data@.contains_key(buf_ptr),
            buf_ptr,
            now,
        ),
        !is_ib ==> final(rs).device_index_buffer_data == old(rs).device_index_buffer_data,
        !is_ib ==> final(rs).device_index_buffer_createtime == old(rs).device_index_buffer_createtime,
{
    note_capture_provenance(rs, buf_ptr, kind, data.len(), seq);
    let copy = copy_bytes(data);
    if is_ib {
        let prev = fnv_map_insert(&mut rs.device_index_buffer_data, buf_ptr, copy);
        if prev.is_none() {
            rs.device_index_buffer_createtime.push((buf_ptr, now));
        }
    } else {
        let prev = fnv_map_insert(&mut rs.device_vertex_buffer_data, buf_ptr, copy);
        if prev.is_none() {
            rs.device_vertex_buffer_createtime.push((buf_ptr, now));
        }
    }
}

/// `n` zero bytes.
pub open spec fn zeros(n: nat) -> Seq<u8> {
    Seq::new(n, |i: int| 0u8)
}

/// A buffer copy after a boxed update of `src` at `offset`: the copy (or
/// zeros, if there was none) is first extended with zeros to `byte_width`,
/// then the bytes are overwritten if they fit.
pub open spec fn patched(old: Option<Seq<u8>>, byte_width: nat, offset: nat, src: Seq<u8>) -> Seq<u8> {
    let base = match old {
        Some(d) => if d.len() < byte_width {
            d + zeros((byte_width - d.len()) as nat)
        } else {
            d
        },
        None => zeros(byte_width),
    };
    if offset + src.len() <= base.len() {
        base.take(offset as int) + src + base.skip((offset + src.len()) as int)
    } else {
        base
    }
}

pub open spec fn opt_bytes(o: Option<Vec<u8>>) -> Option<Seq<u8>> {
    match o {
        Some(v) => Some(v@),
        None => None,
    }
}

fn patch_bytes(old: Option<Vec<u8>>, byte_width: usize, offset: usize, src: &[u8]) -> (r: Vec<u8>)
    requires
        offset + src@.len() <= usize::MAX,
    ensures
        r@ == patched(
            opt_bytes(old),
            byte_width as nat,
            offset as nat,
            src@,
        ),
{
    let ghost ob: Option<Seq<u8>> = opt_bytes(old);
    let mut v: Vec<u8> = match old {
        Some(v) => v,
        None => Vec::new(),
    };
    let ghost start = v@;
    while v.len() < byte_width
        invariant
            start.len() <= v@.len() <= if start.len() < byte_width {
                byte_width as int
            } else {
                start.len() as int
            },
            v@ == start + zeros((v@.len() - start.len()) as nat),
        decreases byte_width - v@.len(),
    {
        let ghost before = v@;
        v.push(0u8);
        proof {
            assert(v@ =~= start + zeros((v@.len() - start.len()) as nat));
        }
    }
    let ghost base = v@;
    proof {
        match ob {
            Some(d) => {
                if d.len() < byte_width {
                    assert(base =~= d + zeros((byte_width - d.len()) as nat));
                } else {
                    assert(base =~= d);
                }
            },
            None => {
                assert(start.len() == 0);
                assert(base =~= zeros(byte_width as nat));
            },
        }
    }
    let end = offset + src.len();
    if end <= v.len() {
        let mut i: usize = 0;
        while i < src.len()
            invariant
                end == offset + src@.len(),
                end <= v@.len(),
                v@.len() == base.len(),
                i <= src@.len(),
                forall|j: int| 0 <= j < offset ==> v@[j] == base[j],
                forall|j: int| 0 <= j < i ==> v@[offset + j] == src@[j],
                forall|j: int| offset + i <= j < base.len() ==> v@[j] == base[j],
            decreases src@.len() - i,
        {
            v.set(offset + i, src[i]);
            i = i + 1;
        }
        proof {
            assert(v@ =~= base.take(offset as int) + src@ + base.skip(offset + src@.len()));
        }
    }
    v
}

/// Apply a boxed `UpdateSubresource` of `src` at byte `offset` to the copy of
/// index (`is_ib`) or vertex buffer `buf_ptr`, whose full size is
/// `byte_width`; see `patched`.  Recorded as capture `seq` of `byte_width`
/// bytes at time `now`.
pub fn patch_captured_buffer(
    rs: &mut DX11RenderState,
    is_ib: bool,
    buf_ptr: usize,
    byte_width: usize,
    offset: usize,
    src: &[u8],
    seq: u64,
    now: i128,
)
    requires
        offset + src@.len() <= usize::MAX,
        old(rs).buffer_capture_info@.contains_key(buf_ptr) ==> old(rs).buffer_capture_info@[buf_ptr].count
            < u64::MAX,
    ensures
        final(rs).buffer_capture_info@ == provenance_after(
            old(rs).buffer_capture_info@,
            buf_ptr,
            BufferWriteKind::UpdateSubresourceBox(offset as u32, (offset + src@.len()) as u32),
            byte_width,
            seq,
        ),
        same_layout_state(*final(rs), *old(rs)),
        final(rs).device_buffer_meta == old(rs).device_buffer_meta,
        final(rs).mapped_buffers == old(rs).mapped_buffers,
        is_ib ==> stores(
            final(rs).device_index_buffer_data@,
            old(rs).device_index_buffer_data@,
            buf_ptr,
            patched(
                if old(rs).device_index_buffer_data@.contains_key(buf_ptr) {
                    Some(old(rs).device_index_buffer_data@[buf_ptr]@)
                } else {
                    None
                },
                byte_width as nat,
                offset as nat,
                src@,
            ),
        ),
        is_ib ==> final(rs).device_index_buffer_createtime@ == times_after(
            old(rs).device_index_buffer_createtime@,
            old(rs).device_index_buffer_data@.contains_key(buf_ptr),
            buf_ptr,
            now,
        ),
        is_ib ==> final(rs).device_vertex_buffer_data == old(rs).device_vertex_buffer_data,
        is_ib ==> final(rs).device_vertex_buffer_createtime == old(rs).device_vertex_buffer_createtime,
        !is_ib ==> stores(
            final(rs).device_vertex_buffer_data@,
            old(rs).device_vertex_buffer_data@,
            buf_ptr,
            patched(
                if old(rs).device_vertex_buffer_data@.contains_key(buf_ptr) {
                    Some(old(rs).device_vertex_buffer_data@[buf_ptr]@)
                } else {
                    None
                },
                byte_width as nat,
                offset as nat,
                src@,
            ),
        ),
        !is_ib ==> final(rs).device_vertex_buffer_createtime@ == times_after(
            old(rs).device_vertex_buffer_createtime@,
            old(rs).device_vertex_buffer_data@.contains_key(buf_ptr),
            buf_ptr,
            now,
        ),
        !is_ib ==> final(rs).device_index_buffer_data == old(rs).device_index_buffer_data,
        !is_ib ==> final(rs).device_index_buffer_createtime == old(rs).device_index_buffer_createtime,
{
    let end = offset + src.len();
    note_capture_provenance(
        rs,
        buf_ptr,
        BufferWriteKind::UpdateSubresourceBox(offset as u32, end as u32),
        byte_width,
        seq,
    );
    if is_ib {
        let prev = fnv_map_remove(&mut rs.device_index_buffer_data, buf_ptr);
        let had = prev.is_some();
        let v = patch_bytes(prev, byte_width, offset, src);
        fnv_map_insert(&mut rs.device_index_buffer_data, buf_ptr, v);
        proof {
            assert(rs.device_index_buffer_data@.dom() =~= old(rs).device_index_buffer_data@.dom().insert(
                buf_ptr,
            ));
        }
        if !had {
            rs.device_index_buffer_createtime.push((buf_ptr, now));
        }
    } else {
        let prev = fnv_map_remove(&mut rs.device_vertex_buffer_data, buf_ptr);
        let had = prev.is_some();
        let v = patch_bytes(prev, byte_width, offset, src);
        fnv_map_insert(&mut rs.device_vertex_buffer_data, buf_ptr, v);
        proof {
            assert(rs.device_vertex_buffer_data@.dom() =~= old(rs).device_vertex_buffer_data@.dom().insert(
                buf_ptr,
            ));
        }
        if !had {
            rs.device_vertex_buffer_createtime.push((buf_ptr, now));
        }
    }
}

/// The copy of buffer `ptr` came from the data the buffer was created with
/// (and is kept by `reset_captured_dynamic_buffers`).
pub open spec fn keeps(info: Map<usize, BufferCaptureInfo>, ptr: usize) -> bool {
    info.contains_key(ptr) && info[ptr].kind == BufferWriteKind::InitialData
}

pub open spec fn kept_keys(info: Map<usize, BufferCaptureInfo>) -> Set<usize> {
    Set::new(|k: usize| keeps(info, k))
}

/// The creation times of the copies that are kept, in order.
pub open spec fn kept_times(ct: Seq<(usize, i128)>, info: Map<usize, BufferCaptureInfo>) -> Seq<
    (usize, i128),
>
    decreases ct.len(),
{
    if ct.len() == 0 {
        Seq::empty()
    } else {
        kept_times(ct.drop_last(), info) + if keeps(info, ct.last().0) {
            seq![ct.last()]
        } else {
            Seq::<(usize, i128)>::empty()
        }
    }
}

/// `ks` lists the keys of `m`, each once.
pub open spec fn lists_keys<V>(ks: Seq<usize>, m: Map<usize, V>) -> bool {
    ks.no_duplicates() && forall|k: usize| #[trigger] ks.contains(k) <==> m.contains_key(k)
}

/// How many of the copies under the keys `ks` are dropped.
pub open spec fn dropped_count(ks: Seq<usize>, info: Map<usize, BufferCaptureInfo>) -> nat
    decreases ks.len(),
{
    if ks.len() == 0 {
        0
    } else {
        dropped_count(ks.drop_last(), info) + if keeps(info, ks.last()) {
            0nat
        } else {
            1nat
        }
    }
}

/// How many bytes the dropped copies under the keys `ks` hold.
pub open spec fn dropped_bytes(
    ks: Seq<usize>,
    m: Map<usize, Vec<u8>>,
    info: Map<usize, BufferCaptureInfo>,
) -> nat
    decreases ks.len(),
{
    if ks.len() == 0 {
        0
    } else {
        dropped_bytes(ks.drop_last(), m, info) + if keeps(info, ks.last()) {
            0nat
        } else {
            m[ks.last()]@.len()
        }
    }
}

fn keeps_exec(info: &FnvHashMap<usize, BufferCaptureInfo>, ptr: usize) -> (r: bool)
    ensures
        r == keeps(info@, ptr),
{
    match fnv_map_get(info, ptr) {
        Some(i) => i.kind == BufferWriteKind::InitialData,
        None => false,
    }
}

/// Drop the copies in `m` that are not kept; the number dropped and the
/// bytes they held.
fn drop_dynamic(m: &mut FnvHashMap<usize, Vec<u8>>, info: &FnvHashMap<usize, BufferCaptureInfo>) -> (r: (
    usize,
    u128,
))
    ensures
        final(m)@ == old(m)@.restrict(kept_keys(info@)),
        exists|ks: Seq<usize>|
            lists_keys(ks, old(m)@) && r.0 == dropped_count(ks, info@) && r.1 == dropped_bytes(
                ks,
                old(m)@,
                info@,
            ),
{
    let keys = fnv_map_keys(m);
    let ghost m0 = m@;
    let mut count: usize = 0;
    let mut bytes: u128 = 0;
    let mut i: usize = 0;
    proof {
        assert(keys@.take(0) =~= Seq::<usize>::empty());
    }
    while i < keys.len()
        invariant
            i <= keys@.len(),
            keys@.no_duplicates(),
            forall|k: usize| #[trigger] keys@.contains(k) <==> m0.contains_key(k),
            count == dropped_count(keys@.take(i as int), info@),
            bytes == dropped_bytes(keys@.take(i as int), m0, info@),
            count <= i,
            bytes <= i * (usize::MAX as int),
            forall|k: usize|
                #[trigger] m@.contains_key(k) <==> (m0.contains_key(k) && (keeps(info@, k)
                    || !keys@.take(i as int).contains(k))),
            forall|k: usize| #[trigger] m@.contains_key(k) ==> m@[k] == m0[k],
        decreases keys@.len() - i,
    {
        let k = keys[i];
        proof {
            assert(keys@.take(i + 1).drop_last() =~= keys@.take(i as int));
            assert(keys@.take(i + 1).last() == k);
            assert(keys@.contains(k));
            assert(!keys@.take(i as int).contains(k)) by {
                if keys@.take(i as int).contains(k) {
                    let j = choose|j: int| 0 <= j < i && #[trigger] keys@.take(i as int)[j] == k;
                    assert(keys@[j] == keys@[i as int]);
                }
            }
            assert forall|x: usize| #[trigger] keys@.take(i + 1).contains(x) <==> (keys@.take(i as int).contains(
                x,
            ) || x == k) by {
                if keys@.take(i + 1).contains(x) {
                    let j = choose|j: int| 0 <= j < i + 1 && #[trigger] keys@.take(i + 1)[j] == x;
                    if j < i {
                        assert(keys@.take(i as int)[j] == x);
                    }
                }
                if keys@.take(i as int).contains(x) {
                    let j = choose|j: int| 0 <= j < i && #[trigger] keys@.take(i as int)[j] == x;
                    assert(keys@.take(i + 1)[j] == x);
                }
                if x == k {
                    assert(keys@.take(i + 1)[i as int] == x);
                }
            }
        }
        let ghost b0 = bytes;
        if !keeps_exec(info, k) {
            let removed = fnv_map_remove(m, k);
            match removed {
                Some(v) => {
                    let l = v.len();
                    proof {
                        assert(b0 + l <= (i + 1) * (usize::MAX as int)) by (nonlinear_arith)
                            requires
                                b0 <= i * (usize::MAX as int),
                                l <= usize::MAX,
                        ;
                        assert((i + 1) * (usize::MAX as int) <= u128::MAX) by (nonlinear_arith)
                            requires
                                i + 1 <= usize::MAX,
                                usize::MAX <= 0xffff_ffff_ffff_ffff,
                        ;
                    }
                    bytes = bytes + l as u128;
                },
                None => {},
            }
            count = count + 1;
        }
        proof {
            assert(i * (usize::MAX as int) <= (i + 1) * (usize::MAX as int)) by (nonlinear_arith);
        }
        i = i + 1;
    }
    proof {
        assert(keys@.take(keys@.len() as int) =~= keys@);
        assert(m@ =~= m0.restrict(kept_keys(info@)));
    }
    (count, bytes)
}

/// Drop the kept creation times of copies that are not kept.
fn keep_times(ct: &Vec<(usize, i128)>, info: &FnvHashMap<usize, BufferCaptureInfo>) -> (r: Vec<(usize, i128)>)
    ensures
        r@ == kept_times(ct@, info@),
{
    let mut r: Vec<(usize, i128)> = Vec::new();
    let mut i: usize = 0;
    proof {
        assert(ct@.take(0) =~= Seq::<(usize, i128)>::empty());
    }
    while i < ct.len()
        invariant
            i <= ct@.len(),
            r@ == kept_times(ct@.take(i as int), info@),
        decreases ct@.len() - i,
    {
        let e = ct[i];
        proof {
            assert(ct@.take(i + 1).drop_last() =~= ct@.take(i as int));
            assert(ct@.take(i + 1).last() == e);
        }
        if keeps_exec(info, e.0) {
            r.push(e);
        }
        proof {
            assert(r@ =~= kept_times(ct@.take(i + 1), info@));
        }
        i = i + 1;
    }
    proof {
        assert(ct@.take(ct@.len() as int) =~= ct@);
    }
    r
}

/// What `reset_captured_dynamic_buffers` dropped, per kind of buffer.
pub struct DroppedBuffers {
    pub index_count: usize,
    pub index_bytes: u128,
    pub vertex_count: usize,
    pub vertex_bytes: u128,
}

/// Drop every buffer copy that did not come from the buffer's creation data,
/// together with its creation time and record, and forget the cached buffer
/// kinds and the writes in progress.  Buffer addresses may be reused after
/// a scene change, and an old copy may be stale; a dynamic buffer has to be
/// captured again before it can be snapshotted.
pub fn reset_captured_dynamic_buffers(rs: &mut DX11RenderState) -> (r: DroppedBuffers)
    ensures
        final(rs).device_index_buffer_data@ == old(rs).device_index_buffer_data@.restrict(
            kept_keys(old(rs).buffer_capture_info@),
        ),
        final(rs).device_vertex_buffer_data@ == old(rs).device_vertex_buffer_data@.restrict(
            kept_keys(old(rs).buffer_capture_info@),
        ),
        final(rs).device_index_buffer_createtime@ == kept_times(
            old(rs).device_index_buffer_createtime@,
            old(rs).buffer_capture_info@,
        ),
        final(rs).device_vertex_buffer_createtime@ == kept_times(
            old(rs).device_vertex_buffer_createtime@,
            old(rs).buffer_capture_info@,
        ),
        final(rs).buffer_capture_info@ == old(rs).buffer_capture_info@.restrict(
            kept_keys(old(rs).buffer_capture_info@),
        ),
        final(rs).device_buffer_meta@.dom() == Set::<usize>::empty(),
        final(rs).mapped_buffers@.dom() == Set::<usize>::empty(),
        same_layout_state(*final(rs), *old(rs)),
        exists|ks: Seq<usize>|
            lists_keys(ks, old(rs).device_index_buffer_data@) && r.index_count == dropped_count(
                ks,
                old(rs).buffer_capture_info@,
            ) && r.index_bytes == dropped_bytes(
                ks,
                old(rs).device_index_buffer_data@,
                old(rs).buffer_capture_info@,
            ),
        exists|ks: Seq<usize>|
            lists_keys(ks, old(rs).device_vertex_buffer_data@) && r.vertex_count == dropped_count(
                ks,
                old(rs).buffer_capture_info@,
            ) && r.vertex_bytes == dropped_bytes(
                ks,
                old(rs).device_vertex_buffer_data@,
                old(rs).buffer_capture_info@,
            ),
{
    let (ic, ib) = drop_dynamic(&mut rs.device_index_buffer_data, &rs.buffer_capture_info);
    let ict = keep_times(&rs.device_index_buffer_createtime, &rs.buffer_capture_info);
    rs.device_index_buffer_createtime = ict;
    let (vc, vb) = drop_dynamic(&mut rs.device_vertex_buffer_data, &rs.buffer_capture_info);
    let vct = keep_times(&rs.device_vertex_buffer_createtime, &rs.buffer_capture_info);
    rs.device_vertex_buffer_createtime = vct;
    let keys = fnv_map_keys(&rs.buffer_capture_info);
    let ghost info0 = rs.buffer_capture_info@;
    let ghost snap = *rs;
    let mut i: usize = 0;
    while i < keys.len()
        invariant
            i <= keys@.len(),
            same_layout_state(*rs, snap),
            rs.device_index_buffer_data == snap.device_index_buffer_data,
            rs.device_vertex_buffer_data == snap.device_vertex_buffer_data,
            rs.device_index_buffer_createtime == snap.device_index_buffer_createtime,
            rs.device_vertex_buffer_createtime == snap.device_vertex_buffer_createtime,
            rs.device_buffer_meta == snap.device_buffer_meta,
            rs.mapped_buffers == snap.mapped_buffers,
            forall|k: usize| #[trigger] keys@.contains(k) <==> info0.contains_key(k),
            forall|k: usize|
                #[trigger] rs.buffer_capture_info@.contains_key(k) <==> (info0.contains_key(k) && (
                keeps(info0, k) || !keys@.take(i as int).contains(k))),
            forall|k: usize|
                #[trigger] rs.buffer_capture_info@.contains_key(k) ==> rs.buffer_capture_info@[k]
                    == info0[k],
        decreases keys@.len() - i,
    {
        let k = keys[i];
        proof {
            assert(keys@.contains(k));
            assert forall|x: usize| #[trigger] keys@.take(i + 1).contains(x) <==> (keys@.take(i as int).contains(
                x,
            ) || x == k) by {
                if keys@.take(i + 1).contains(x) {
                    let j = choose|j: int| 0 <= j < i + 1 && #[trigger] keys@.take(i + 1)[j] == x;
                    if j < i {
                        assert(keys@.take(i as int)[j] == x);
                    }
                }
                if keys@.take(i as int).contains(x) {
                    let j = choose|j: int| 0 <= j < i && #[trigger] keys@.take(i as int)[j] == x;
                    assert(keys@.take(i + 1)[j] == x);
                }
                if x == k {
                    assert(keys@.take(i + 1)[i as int] == x);
                }
            }
        }
        let keep = match fnv_map_get(&rs.buffer_capture_info, k) {
            Some(info) => info.kind == BufferWriteKind::InitialData,
            None => true,
        };
        if !keep {
            fnv_map_remove(&mut rs.buffer_capture_info, k);
        }
        i = i + 1;
    }
    proof {
        assert(keys@.take(keys@.len() as int) =~= keys@);
        assert(rs.buffer_capture_info@ =~= info0.restrict(kept_keys(info0)));
    }
    fnv_map_clear(&mut rs.device_buffer_meta);
    fnv_map_clear(&mut rs.mapped_buffers);
    DroppedBuffers { index_count: ic, index_bytes: ib, vertex_count: vc, vertex_bytes: vb }
}


/// `D3D11_BIND_VERTEX_BUFFER`.
pub const D3D11_BIND_VERTEX_BUFFER: u32 = 0x1;

/// `D3D11_BIND_INDEX_BUFFER`.
pub const D3D11_BIND_INDEX_BUFFER: u32 = 0x2;

/// `D3D11_RESOURCE_DIMENSION_BUFFER`.
pub const D3D11_RESOURCE_DIMENSION_BUFFER: u32 = 1;

/// Buffers discovered through the update hooks that are logged.
pub const LAZY_MESH_BUFFER_LOG_LIMIT: usize = 20;

/// Whether buffer contents are copied as the game writes them: when the
/// configuration asks for it, and, if it asks for it only while snapping,
/// while a snapshot is in progress.
pub fn precopy_capture_active(precopy_data: bool, only_when_snapping: bool, is_snapping: bool) -> (r: bool)
    ensures
        r == (precopy_data && (!only_when_snapping || is_snapping)),
{
    precopy_data && (!only_when_snapping || is_snapping)
}

/// What a resource is, from its dimension (`None` for a null resource) and,
/// for a buffer, its description: a mesh buffer if it is bound as an index
/// or vertex buffer and not empty (an index buffer if bound as one).
pub open spec fn spec_buffer_meta(dimension: Option<u32>, bind_flags: u32, byte_width: u32) -> BufferMeta {
    let is_ib = bind_flags & D3D11_BIND_INDEX_BUFFER != 0;
    let is_vb = bind_flags & D3D11_BIND_VERTEX_BUFFER != 0;
    if dimension != Some(D3D11_RESOURCE_DIMENSION_BUFFER) {
        BufferMeta::Other
    } else if (is_ib || is_vb) && byte_width > 0 {
        BufferMeta::Mesh { is_index: is_ib, byte_width }
    } else {
        BufferMeta::Other
    }
}

/// Classifies a resource the game writes.
pub fn buffer_meta(dimension: Option<u32>, bind_flags: u32, byte_width: u32) -> (r: BufferMeta)
    ensures
        r == spec_buffer_meta(dimension, bind_flags, byte_width),
        r is Mesh <==> (dimension == Some(D3D11_RESOURCE_DIMENSION_BUFFER) && byte_width > 0 && (bind_flags
            & D3D11_BIND_INDEX_BUFFER != 0 || bind_flags & D3D11_BIND_VERTEX_BUFFER != 0)),
        r matches BufferMeta::Mesh { is_index, byte_width: w } ==> w == byte_width && (is_index <==> bind_flags
            & D3D11_BIND_INDEX_BUFFER != 0),
{
    if dimension != Some(D3D11_RESOURCE_DIMENSION_BUFFER) {
        return BufferMeta::Other;
    }
    let is_ib = bind_flags & D3D11_BIND_INDEX_BUFFER != 0;
    let is_vb = bind_flags & D3D11_BIND_VERTEX_BUFFER != 0;
    if (is_ib || is_vb) && byte_width > 0 {
        BufferMeta::Mesh { is_index: is_ib, byte_width }
    } else {
        BufferMeta::Other
    }
}

/// The classification kept for resource `key`, if it was classified before.
pub fn cached_buffer_meta(rs: &DX11RenderState, key: usize) -> (r: Option<BufferMeta>)
    ensures
        r == (if rs.device_buffer_meta@.contains_key(key) {
            Some(rs.device_buffer_meta@[key])
        } else {
            None
        }),
{
    match fnv_map_get(&rs.device_buffer_meta, key) {
        Some(m) => Some(*m),
        None => None,
    }
}

/// Keeps the classification of resource `key`.  When it is a mesh buffer and
/// `found_before` mesh buffers were discovered this way before, returns
/// whether to log the discovery (the first `LAZY_MESH_BUFFER_LOG_LIMIT`
/// are) and whether this is the last one logged.
pub fn record_buffer_meta(rs: &mut DX11RenderState, key: usize, meta: BufferMeta, found_before: usize) -> (r: (
    bool,
    bool,
))
    ensures
        final(rs).device_buffer_meta@ == old(rs).device_buffer_meta@.insert(key, meta),
        same_layout_state(*final(rs), *old(rs)),
        final(rs).device_index_buffer_data == old(rs).device_index_buffer_data,
        final(rs).device_vertex_buffer_data == old(rs).device_vertex_buffer_data,
        final(rs).device_index_buffer_createtime == old(rs).device_index_buffer_createtime,
        final(rs).device_vertex_buffer_createtime == old(rs).device_vertex_buffer_createtime,
        final(rs).mapped_buffers == old(rs).mapped_buffers,
        final(rs).buffer_capture_info == old(rs).buffer_capture_info,
        r.0 == (meta is Mesh && found_before < LAZY_MESH_BUFFER_LOG_LIMIT),
        r.1 == (r.0 && found_before == LAZY_MESH_BUFFER_LOG_LIMIT - 1),
{
    fnv_map_insert(&mut rs.device_buffer_meta, key, meta);
    let log = match meta {
        BufferMeta::Mesh { .. } => found_before < LAZY_MESH_BUFFER_LOG_LIMIT,
        BufferMeta::Other => false,
    };
    (log, log && found_before == LAZY_MESH_BUFFER_LOG_LIMIT - 1)
}

} // verus!
