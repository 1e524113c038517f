//! Per-device metrics of the D3D11 hooks.
use vstd::prelude::*;
use fnv::FnvHashMap;
use crate::fnv_maps::{fnv_map_new, fnv_map_clear};
use crate::mod_stats::{valid_time, time_since};

verus! {

/// What a recent draw of some geometry did about mods.
#[derive(Debug)]
pub enum MetricsDrawStatus {
    /// A mod of this type was referenced this many times.
    Referenced(i32, u32),
    /// Loading of the named mod was requested this many times.
    LoadReq(String, u32),
}

impl MetricsDrawStatus {
    pub open spec fn spec_count(&self) -> u32 {
        match self {
            MetricsDrawStatus::Referenced(_, c) => *c,
            MetricsDrawStatus::LoadReq(_, c) => *c,
        }
    }

    /// Count one more occurrence.
    pub fn incr_count(&mut self)
        requires
            old(self).spec_count() < u32::MAX,
        ensures
            final(self).spec_count() == old(self).spec_count() + 1,
            match (*old(self), *final(self)) {
                (MetricsDrawStatus::Referenced(t0, _), MetricsDrawStatus::Referenced(t1, _)) => t0 == t1,
                (MetricsDrawStatus::LoadReq(n0, _), MetricsDrawStatus::LoadReq(n1, _)) => n0 == n1,
                _ => false,
            },
    {
        match self {
            MetricsDrawStatus::Referenced(_, c) => *c = *c + 1,
            MetricsDrawStatus::LoadReq(_, c) => *c = *c + 1,
        }
    }
}

/// Counters of the D3D11 hooks since the last reset.
pub struct DX11Metrics {
    /// When the metrics were last reset.
    pub last_reset: i128,
    /// Calls of the `VSSetConstantBuffers` hook.
    pub vs_set_const_buffers_calls: u32,
    /// Calls of the `VSSetConstantBuffers` hook that rehooked at least one function.
    pub vs_set_const_buffers_hooks: u32,
    /// What recent draws of each (primitive, vertex) count did about mods.
    pub drawn_recently: FnvHashMap<(u32, u32), MetricsDrawStatus>,
    pub rehook_time_nanos: u64,
    pub rehook_calls: u32,
}

impl DX11Metrics {
    pub open spec fn is_cleared(&self, now: i128) -> bool {
        &&& self.last_reset == now
        &&& self.vs_set_const_buffers_calls == 0
        &&& self.vs_set_const_buffers_hooks == 0
        &&& self.drawn_recently@.dom() == Set::<(u32, u32)>::empty()
        &&& self.rehook_time_nanos == 0
        &&& self.rehook_calls == 0
    }

    /// Metrics with nothing counted, reset at `now`.
    pub fn new(now: i128) -> (m: DX11Metrics)
        ensures
            m.is_cleared(now),
    {
        DX11Metrics {
            last_reset: now,
            vs_set_const_buffers_calls: 0,
            vs_set_const_buffers_hooks: 0,
            drawn_recently: fnv_map_new(),
            rehook_time_nanos: 0,
            rehook_calls: 0,
        }
    }

    /// Forget everything counted; the metrics count as reset at `now`.
    pub fn reset(&mut self, now: i128)
        ensures
            final(self).is_cleared(now),
    {
        self.last_reset = now;
        self.vs_set_const_buffers_calls = 0;
        self.vs_set_const_buffers_hooks = 0;
        fnv_map_clear(&mut self.drawn_recently);
        self.rehook_time_nanos = 0;
        self.rehook_calls = 0;
    }

    /// Milliseconds since the last reset, as whole seconds times 1000 plus
    /// the whole milliseconds of the rest (zero if `now` is earlier).
    pub fn ms_since_reset(&self, now: i128) -> (r: u64)
        requires
            valid_time(now),
            valid_time(self.last_reset),
            time_since(now, self.last_reset) / 1000000000 * 1000 + 999 <= u64::MAX,
        ensures
            r == time_since(now, self.last_reset) / 1000000000 * 1000 + time_since(now, self.last_reset)
                % 1000000000 / 1000000,
    {
        if now < self.last_reset {
            return 0;
        }
        let d: u128 = (now - self.last_reset) as u128;
        let secs: u64 = (d / 1000000000) as u64;
        let millis: u64 = ((d % 1000000000) / 1000000) as u64;
        secs * 1000 + millis
    }
}

} // verus!
