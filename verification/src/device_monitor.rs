//! Decisions of the D3D9 device monitor: a background poller that watches
//! the cooperative level, reference count, back buffer size, `Ex` support
//! and the installed vtable hooks of the game's device, and reports what
//! changed.  The caller polls the device and writes the log; this module
//! keeps what was last seen and decides what is worth a line.
use vstd::prelude::*;

verus! {

/// `S_OK`.
pub const S_OK: i32 = 0;

/// `D3DERR_DEVICELOST` (0x88760868).
pub const D3DERR_DEVICELOST: i32 = -2005530520i32;

/// `D3DERR_DEVICENOTRESET` (0x88760869).
pub const D3DERR_DEVICENOTRESET: i32 = -2005530519i32;

/// `D3DERR_DRIVERINTERNALERROR` (0x88760827).
pub const D3DERR_DRIVERINTERNALERROR: i32 = -2005530585i32;

/// The name of a `TestCooperativeLevel` result.
pub open spec fn spec_tcl_status_str(hr: i32) -> Seq<char> {
    if hr == S_OK {
        "D3D_OK"@
    } else if hr == D3DERR_DEVICELOST {
        "D3DERR_DEVICELOST"@
    } else if hr == D3DERR_DEVICENOTRESET {
        "D3DERR_DEVICENOTRESET"@
    } else if hr == D3DERR_DRIVERINTERNALERROR {
        "D3DERR_DRIVERINTERNALERROR"@
    } else {
        "UNKNOWN"@
    }
}

/// Names a `TestCooperativeLevel` result.
pub fn tcl_status_str(hr: i32) -> (r: &'static str)
    ensures
        r@ == spec_tcl_status_str(hr),
{
    if hr == S_OK {
        "D3D_OK"
    } else if hr == D3DERR_DEVICELOST {
        "D3DERR_DEVICELOST"
    } else if hr == D3DERR_DEVICENOTRESET {
        "D3DERR_DEVICENOTRESET"
    } else if hr == D3DERR_DRIVERINTERNALERROR {
        "D3DERR_DRIVERINTERNALERROR"
    } else {
        "UNKNOWN"
    }
}

/// A `Release` on the device is logged when few references are left, or on
/// every 500th release.
pub fn should_log_release(release_count: usize, ref_count_after: u32) -> (r: bool)
    ensures
        r == (ref_count_after < 10 || release_count % 500 == 0),
{
    ref_count_after < 10 || release_count % 500 == 0
}

/// What the monitor remembers between polls.
#[derive(Clone, Copy, Debug, PartialEq, Eq, Structural)]
pub struct MonitorState {
    /// Number of polls made.
    pub iteration: u64,
    pub last_tcl: i32,
    pub last_refcount: u32,
    pub last_width: u32,
    pub last_height: u32,
    /// `Ex` support was queried at least once.
    pub ex_checked: bool,
}

impl MonitorState {
    /// The state before the first poll.
    pub fn new() -> (r: MonitorState)
        ensures
            r == (MonitorState {
                iteration: 0,
                last_tcl: S_OK,
                last_refcount: 0,
                last_width: 0,
                last_height: 0,
                ex_checked: false,
            }),
    {
        MonitorState {
            iteration: 0,
            last_tcl: S_OK,
            last_refcount: 0,
            last_width: 0,
            last_height: 0,
            ex_checked: false,
        }
    }
}

/// What the monitor does next.
#[derive(Clone, Copy, Debug, PartialEq, Eq, Structural)]
pub enum MonitorAction {
    /// Stop was requested: release the device reference and end.
    Exit,
    /// No device yet: sleep a second and look again.
    Wait,
    /// Poll the device; query `Ex` support when `query_ex`.
    Poll { iteration: u64, query_ex: bool },
}

/// The next step of the monitor: stop if asked, wait while there is no
/// device, otherwise count a poll.  `Ex` support is queried on the first poll
/// and then on every 60th.
pub open spec fn spec_monitor_step(s: MonitorState, stop: bool, device: usize) -> (MonitorState, MonitorAction) {
    if stop {
        (s, MonitorAction::Exit)
    } else if device == 0 {
        (s, MonitorAction::Wait)
    } else {
        let it = (s.iteration + 1) as u64;
        (
            MonitorState { iteration: it, ..s },
            MonitorAction::Poll { iteration: it, query_ex: !s.ex_checked || it % 60 == 1 },
        )
    }
}

/// Starts the next step of the monitor.
pub fn monitor_step(s: &mut MonitorState, stop: bool, device: usize) -> (r: MonitorAction)
    requires
        old(s).iteration < u64::MAX,
    ensures
        (*final(s), r) == spec_monitor_step(*old(s), stop, device),
{
    if stop {
        return MonitorAction::Exit;
    }
    if device == 0 {
        return MonitorAction::Wait;
    }
    s.iteration = s.iteration + 1;
    MonitorAction::Poll { iteration: s.iteration, query_ex: !s.ex_checked || s.iteration % 60 == 1 }
}

/// The result of asking the device for its swap chain's present parameters.
#[derive(Clone, Copy, Debug, PartialEq, Eq, Structural)]
pub enum SwapChainQuery {
    /// `GetSwapChain(0)` failed (or gave no chain) with this result.
    NoSwapChain(i32),
    /// `GetPresentParameters` failed with this result.
    ParamsFailed(i32),
    /// The back buffer size.
    Params { width: u32, height: u32 },
}

/// One poll of the device.
#[derive(Clone, Copy, Debug, PartialEq, Eq, Structural)]
pub struct MonitorObservation {
    /// `TestCooperativeLevel`.
    pub tcl: i32,
    /// The count an `AddRef`/`Release` pair reported (the monitor holds one
    /// reference itself).
    pub raw_refcount: u32,
    pub swap_chain: SwapChainQuery,
    /// Whether the device answered the `Ex` query, if it was made.
    pub ex_supported: Option<bool>,
    /// Whether `Direct3DCreate9Ex` was ever called.
    pub create9ex_called: bool,
    /// The hooked vtable entries, if the vtable could be read.
    pub vtable: Option<HookAddrs>,
    /// The hook functions installed for those entries (0 where unknown).
    pub expected: HookAddrs,
}

/// The draw, present, reset and release entries of the device vtable.
#[derive(Clone, Copy, Debug, PartialEq, Eq, Structural)]
pub struct HookAddrs {
    pub draw_indexed_primitive: usize,
    pub present: usize,
    pub reset: usize,
    pub release: usize,
}

/// Per vtable entry, whether its hook was replaced.
#[derive(Clone, Copy, Debug, PartialEq, Eq, Structural)]
pub struct Unhooked {
    pub draw_indexed_primitive: bool,
    pub present: bool,
    pub reset: bool,
    pub release: bool,
}

/// A vtable entry is as hooked: its hook is unknown or installed.
pub open spec fn hook_intact(expected: usize, current: usize) -> bool {
    expected == 0 || current == expected
}

/// What the monitor logs for a poll.
#[derive(Clone, Copy, Debug, PartialEq, Eq, Structural)]
pub struct MonitorReport {
    pub log_tcl: bool,
    /// The reference count without the monitor's own.
    pub effective_refcount: u32,
    pub log_refcount: bool,
    pub log_present_params: bool,
    pub log_params_failed: bool,
    pub log_no_swap_chain: bool,
    pub log_ex_supported: bool,
    pub log_ex_unsupported: bool,
    pub log_create9ex: bool,
    /// Per vtable entry, whether its hook was replaced.
    pub unhooked: Unhooked,
    pub log_hooks_modified: bool,
    pub log_hooks_intact: bool,
    /// Only one or two references are left: the game may have dropped the device.
    pub warn_abandoned: bool,
}

/// The reference count without the monitor's own.
pub open spec fn effective_rc(raw: u32) -> u32 {
    if raw > 0 {
        (raw - 1) as u32
    } else {
        0
    }
}

/// Per entry, whether its hook was replaced (none when the vtable is unreadable).
pub open spec fn unhooked_entries(o: MonitorObservation) -> Unhooked {
    match o.vtable {
        Some(v) => Unhooked {
            draw_indexed_primitive: !hook_intact(o.expected.draw_indexed_primitive, v.draw_indexed_primitive),
            present: !hook_intact(o.expected.present, v.present),
            reset: !hook_intact(o.expected.reset, v.reset),
            release: !hook_intact(o.expected.release, v.release),
        },
        None => Unhooked { draw_indexed_primitive: false, present: false, reset: false, release: false },
    }
}

/// Some hook was replaced.
pub open spec fn any_unhooked(u: Unhooked) -> bool {
    u.draw_indexed_primitive || u.present || u.reset || u.release
}

/// The report of a poll, made at iteration `s.iteration`.  A value is logged
/// when it changed, and every 20th poll (the first included) in any case;
/// failures of the swap chain query are logged every 20th poll, those of
/// the present parameters always.  `Ex` support is logged when found, and
/// its absence only the first time.  The `Direct3DCreate9Ex` line comes on
/// the first poll, and then every 60th poll once the call was seen.
pub open spec fn spec_monitor_report(s: MonitorState, o: MonitorObservation) -> (MonitorState, MonitorReport) {
    let it = s.iteration;
    let periodic = it % 20 == 1;
    let rc = effective_rc(o.raw_refcount);
    let un = unhooked_entries(o);
    let (w, h, log_params, log_failed, log_no_chain) = match o.swap_chain {
        SwapChainQuery::Params { width, height } => {
            let log = width != s.last_width || height != s.last_height || periodic;
            (width, height, log, false, false)
        },
        SwapChainQuery::ParamsFailed(_) => (s.last_width, s.last_height, false, true, false),
        SwapChainQuery::NoSwapChain(_) => (s.last_width, s.last_height, false, false, periodic),
    };
    let report = MonitorReport {
        log_tcl: o.tcl != s.last_tcl || periodic,
        effective_refcount: rc,
        log_refcount: rc != s.last_refcount || periodic,
        log_present_params: log_params,
        log_params_failed: log_failed,
        log_no_swap_chain: log_no_chain,
        log_ex_supported: o.ex_supported == Some(true),
        log_ex_unsupported: o.ex_supported == Some(false) && !s.ex_checked,
        log_create9ex: it == 1 || (it % 60 == 0 && o.create9ex_called),
        unhooked: un,
        log_hooks_modified: any_unhooked(un),
        log_hooks_intact: o.vtable is Some && !any_unhooked(un) && periodic,
        warn_abandoned: rc <= 1 && rc != 0,
    };
    let next = MonitorState {
        iteration: it,
        last_tcl: o.tcl,
        last_refcount: rc,
        last_width: w,
        last_height: h,
        ex_checked: s.ex_checked || o.ex_supported is Some,
    };
    (next, report)
}

/// Records a poll and decides what to log about it.
pub fn monitor_report(s: &mut MonitorState, o: &MonitorObservation) -> (r: MonitorReport)
    ensures
        (*final(s), r) == spec_monitor_report(*old(s), *o),
{
    let it = s.iteration;
    let periodic = it % 20 == 1;
    let rc = if o.raw_refcount > 0 {
        o.raw_refcount - 1
    } else {
        0
    };
    let log_tcl = o.tcl != s.last_tcl || periodic;
    let log_refcount = rc != s.last_refcount || periodic;
    let mut log_present_params = false;
    let mut log_params_failed = false;
    let mut log_no_swap_chain = false;
    match o.swap_chain {
        SwapChainQuery::Params { width, height } => {
            log_present_params = width != s.last_width || height != s.last_height || periodic;
            s.last_width = width;
            s.last_height = height;
        },
        SwapChainQuery::ParamsFailed(_) => {
            log_params_failed = true;
        },
        SwapChainQuery::NoSwapChain(_) => {
            log_no_swap_chain = periodic;
        },
    }
    let log_ex_supported = match o.ex_supported {
        Some(b) => b,
        None => false,
    };
    let log_ex_unsupported = match o.ex_supported {
        Some(b) => !b && !s.ex_checked,
        None => false,
    };
    let e = o.expected;
    let unhooked = match o.vtable {
        Some(v) => Unhooked {
            draw_indexed_primitive: !(e.draw_indexed_primitive == 0 || v.draw_indexed_primitive
                == e.draw_indexed_primitive),
            present: !(e.present == 0 || v.present == e.present),
            reset: !(e.reset == 0 || v.reset == e.reset),
            release: !(e.release == 0 || v.release == e.release),
        },
        None => Unhooked { draw_indexed_primitive: false, present: false, reset: false, release: false },
    };
    let any_unhooked = unhooked.draw_indexed_primitive || unhooked.present || unhooked.reset
        || unhooked.release;
    let report = MonitorReport {
        log_tcl,
        effective_refcount: rc,
        log_refcount,
        log_present_params,
        log_params_failed,
        log_no_swap_chain,
        log_ex_supported,
        log_ex_unsupported,
        log_create9ex: it == 1 || (it % 60 == 0 && o.create9ex_called),
        unhooked,
        log_hooks_modified: any_unhooked,
        log_hooks_intact: o.vtable.is_some() && !any_unhooked && periodic,
        warn_abandoned: rc <= 1 && rc != 0,
    };
    s.last_tcl = o.tcl;
    s.last_refcount = rc;
    s.ex_checked = s.ex_checked || o.ex_supported.is_some();
    report
}

} // verus!
