use modelmod::device_monitor::{
    monitor_report, monitor_step, should_log_release, tcl_status_str, HookAddrs, MonitorAction,
    MonitorObservation, MonitorState, SwapChainQuery, D3DERR_DEVICELOST, D3DERR_DEVICENOTRESET,
};
use modelmod::dx11rs::{BufferMeta, DX11RenderState, InputElement, VertexFormat};
use modelmod::global_state::{HookState, RenderedPrimType};
use modelmod::hook_device_d3d11::{
    context_hooks_to_apply, vtable_copy_size, ContextHooks, VtableSizeError,
};
use modelmod::hook_dynamic_buffers::{
    buffer_meta, cached_buffer_meta, precopy_capture_active, record_buffer_meta,
};
use modelmod::dx11rs::BufferWriteKind;
use modelmod::global_state::VBChecksumStatus;
use modelmod::hook_render_d3d11::{note_vs_set_constant_buffers, set_vertex_buffers};
use modelmod::types::DX11Metrics;
use modelmod::hook_render::{forget_device_buffers, is_loading_mods, process_metrics, MetricsOutcome, ModLoadFlags};
use modelmod::mod_render::SelectedMod;
use modelmod::native_mod::NativeModData;
use modelmod::texture_tracking::texture_pool;
use modelmod::hook_snapshot::{
    note_snapshot_dir, snap_index_data, snap_layout, snap_vertex_data, texture2d_indices,
    SnapBufferError, DXGI_FORMAT_R16_UINT, DXGI_FORMAT_R32_UINT,
};
use modelmod::mod_load::{d3d9_vb_size, plan_d3d11_load, D3D11LoadError, D3D11LoadPlan};
use modelmod::native_mod::ModD3DState;
use modelmod::texture_tracking::{
    gc_after_release, gc_next_due, gc_pass_count, gc_purge, note_update_texture, UpdateTextureTracking,
};

const SEC: i128 = 1_000_000_000;

fn fresh_observation() -> MonitorObservation {
    MonitorObservation {
        tcl: 0,
        raw_refcount: 5,
        swap_chain: SwapChainQuery::Params { width: 800, height: 600 },
        ex_supported: Some(false),
        create9ex_called: false,
        vtable: Some(HookAddrs { draw_indexed_primitive: 1, present: 2, reset: 3, release: 4 }),
        expected: HookAddrs { draw_indexed_primitive: 1, present: 2, reset: 3, release: 4 },
    }
}

#[test]
fn tcl_names() {
    assert_eq!(tcl_status_str(0), "D3D_OK");
    assert_eq!(tcl_status_str(D3DERR_DEVICELOST), "D3DERR_DEVICELOST");
    assert_eq!(tcl_status_str(D3DERR_DEVICENOTRESET), "D3DERR_DEVICENOTRESET");
    assert_eq!(tcl_status_str(-1), "UNKNOWN");
}

#[test]
fn release_logging() {
    assert!(should_log_release(3, 9));
    assert!(should_log_release(1000, 50));
    assert!(!should_log_release(1001, 50));
}

#[test]
fn monitor_first_poll_logs_everything() {
    let mut s = MonitorState::new();
    assert_eq!(monitor_step(&mut s, true, 7), MonitorAction::Exit);
    assert_eq!(monitor_step(&mut s, false, 0), MonitorAction::Wait);
    assert_eq!(s.iteration, 0);
    assert_eq!(monitor_step(&mut s, false, 7), MonitorAction::Poll { iteration: 1, query_ex: true });
    let r = monitor_report(&mut s, &fresh_observation());
    assert!(r.log_tcl && r.log_refcount && r.log_present_params);
    assert_eq!(r.effective_refcount, 4);
    assert!(r.log_ex_unsupported && !r.log_ex_supported);
    assert!(r.log_create9ex);
    assert!(r.log_hooks_intact && !r.log_hooks_modified);
    assert!(!r.warn_abandoned);
    assert_eq!(s.last_width, 800);
    assert!(s.ex_checked);
}

#[test]
fn monitor_second_poll_logs_changes_only() {
    let mut s = MonitorState::new();
    monitor_step(&mut s, false, 7);
    monitor_report(&mut s, &fresh_observation());
    assert_eq!(monitor_step(&mut s, false, 7), MonitorAction::Poll { iteration: 2, query_ex: false });
    let mut o = fresh_observation();
    o.ex_supported = None;
    o.raw_refcount = 2;
    o.vtable = Some(HookAddrs { draw_indexed_primitive: 9, present: 2, reset: 3, release: 4 });
    let r = monitor_report(&mut s, &o);
    assert!(!r.log_tcl && !r.log_present_params && !r.log_create9ex);
    assert!(r.log_refcount);
    assert!(r.warn_abandoned);
    assert!(r.log_hooks_modified && r.unhooked.draw_indexed_primitive && !r.unhooked.present);
    assert!(!r.log_ex_unsupported);
}

#[test]
fn d3d11_load_plan() {
    let mut rs = DX11RenderState::new();
    rs.context_input_layouts_by_ptr.insert(0x100, VertexFormat { layout: vec![], size: 32 });
    rs.context_input_layouts_by_ptr.insert(0x200, VertexFormat { layout: vec![], size: 0 });
    assert_eq!(
        plan_d3d11_load(ModD3DState::Partial, Some(0x100), Some(&rs), 10),
        Ok(D3D11LoadPlan { layout_ptr: 0x100, vert_size: 32, vert_count: 30, vb_size: 960 })
    );
    assert_eq!(plan_d3d11_load(ModD3DState::Loaded, Some(0x100), Some(&rs), 10), Err(D3D11LoadError::AlreadyLoaded));
    assert_eq!(plan_d3d11_load(ModD3DState::Unloaded, None, Some(&rs), 10), Err(D3D11LoadError::NotPartiallyLoaded));
    assert_eq!(plan_d3d11_load(ModD3DState::Partial, Some(0), Some(&rs), 10), Err(D3D11LoadError::MissingLayout));
    assert_eq!(plan_d3d11_load(ModD3DState::Partial, Some(0x100), None, 10), Err(D3D11LoadError::NoHookState));
    assert_eq!(
        plan_d3d11_load(ModD3DState::Partial, Some(0x300), Some(&rs), 10),
        Err(D3D11LoadError::LayoutNotInRenderState)
    );
    assert_eq!(
        plan_d3d11_load(ModD3DState::Partial, Some(0x200), Some(&rs), 10),
        Err(D3D11LoadError::InvalidVertexSize(0))
    );
    assert_eq!(
        plan_d3d11_load(ModD3DState::Partial, Some(0x100), Some(&rs), -2),
        Err(D3D11LoadError::InvalidVertexCount(-6))
    );
    // Refused before any size arithmetic, however large the count.
    assert_eq!(
        plan_d3d11_load(ModD3DState::Loaded, Some(0x100), Some(&rs), i32::MAX),
        Err(D3D11LoadError::AlreadyLoaded)
    );
    assert_eq!(
        plan_d3d11_load(ModD3DState::Unloaded, Some(0x100), Some(&rs), i32::MAX),
        Err(D3D11LoadError::NotPartiallyLoaded)
    );
    assert_eq!(
        plan_d3d11_load(ModD3DState::Partial, Some(0), Some(&rs), i32::MIN),
        Err(D3D11LoadError::MissingLayout)
    );
}

#[test]
fn d3d9_vertex_buffer_size() {
    assert_eq!(d3d9_vb_size(ModD3DState::Unloaded, 10, 32), Some(960));
    assert_eq!(d3d9_vb_size(ModD3DState::Loaded, 10, 32), None);
}

#[test]
fn metrics_reports_every_ten_seconds() {
    let mut gs = HookState::new();
    let m = &mut gs.metrics;
    m.rendered_prims.push(RenderedPrimType::PrimVertCount(1, 3));
    m.dip_calls = 5;
    // not enough draws: prims kept only when asked
    assert!(matches!(process_metrics(m, true, 10, 0, false), MetricsOutcome::NotDue));
    assert_eq!(m.rendered_prims.len(), 1);
    assert!(matches!(process_metrics(m, false, 10, 0, false), MetricsOutcome::NotDue));
    assert_eq!(m.rendered_prims.len(), 0);
    m.dip_calls = 50;
    m.last_call_log = 5 * SEC;
    assert!(matches!(process_metrics(m, true, 10, 4 * SEC, false), MetricsOutcome::ElapsedError));
    assert!(matches!(process_metrics(m, true, 10, 14 * SEC, false), MetricsOutcome::TooSoon));
    assert_eq!(m.dip_calls, 50);
    match process_metrics(m, true, 10, 15 * SEC, true) {
        MetricsOutcome::Reported { elapsed_nanos, dip_calls, log_dip_rate, prims } => {
            assert_eq!(elapsed_nanos, 10 * SEC);
            assert_eq!(dip_calls, 50);
            assert!(!log_dip_rate);
            assert!(prims.is_empty());
        }
        _ => panic!("expected a report"),
    }
    assert_eq!(m.dip_calls, 0);
    assert_eq!(m.last_call_log, 15 * SEC);
}

fn texcoord_layout(size: u32) -> VertexFormat {
    VertexFormat {
        layout: vec![InputElement {
            semantic_name: Some(b"TexCoord".to_vec()),
            semantic_index: 0,
            format: 16,
            input_slot: 0,
            aligned_byte_offset: 0,
            input_slot_class: 0,
            instance_data_step_rate: 0,
        }],
        size,
    }
}

#[test]
fn snapshot_layout_checks() {
    let mut rs = DX11RenderState::new();
    assert_eq!(snap_layout(&rs).err(), Some(SnapBufferError::NoInputLayout));
    rs.context_input_layouts_by_ptr.insert(0x10, texcoord_layout(0));
    rs.context_input_layouts_by_ptr.insert(0x20, texcoord_layout(8));
    rs.context_input_layouts_by_ptr.insert(0x30, VertexFormat { layout: vec![], size: 8 });
    rs.current_input_layout = 0x10;
    assert_eq!(snap_layout(&rs).err(), Some(SnapBufferError::ZeroVertexSize));
    rs.current_input_layout = 0x30;
    assert_eq!(snap_layout(&rs).err(), Some(SnapBufferError::NoTexcoord));
    rs.current_input_layout = 0x20;
    assert_eq!(snap_layout(&rs).map(|vf| vf.size).ok(), Some(8));
}

#[test]
fn snapshot_index_and_vertex_data() {
    let mut rs = DX11RenderState::new();
    rs.device_index_buffer_data.insert(0x5, vec![0u8; 12]);
    rs.device_vertex_buffer_data.insert(0x7, vec![0u8; 64]);
    assert_eq!(snap_index_data(&rs, 0, DXGI_FORMAT_R16_UINT, 2).err(), Some(SnapBufferError::NoIndexBuffer));
    assert_eq!(snap_index_data(&rs, 0x6, DXGI_FORMAT_R16_UINT, 2).err(), Some(SnapBufferError::IndexDataMissing));
    assert_eq!(snap_index_data(&rs, 0x5, 99, 2).err(), Some(SnapBufferError::UnknownIndexFormat(99)));
    assert_eq!(snap_index_data(&rs, 0x5, DXGI_FORMAT_R16_UINT, 2).map(|(s, d)| (s, d.len())).ok(), Some((2, 12)));
    assert_eq!(
        snap_index_data(&rs, 0x5, DXGI_FORMAT_R32_UINT, 2).err(),
        Some(SnapBufferError::IndexSizeMismatch { expected: 24, got: 12 })
    );
    let slots = vec![0, 0x7, 0];
    assert_eq!(snap_vertex_data(&rs, &slots, 16, 4).map(|d| d.len()).ok(), Some(64));
    assert_eq!(
        snap_vertex_data(&rs, &slots, 16, 5).err(),
        Some(SnapBufferError::VertexCountMismatch { expected: 5, got: 4 })
    );
    assert_eq!(snap_vertex_data(&rs, &vec![0, 0], 16, 4).err(), Some(SnapBufferError::NoVertexBuffers));
    assert_eq!(snap_vertex_data(&rs, &vec![1, 2], 16, 4).err(), Some(SnapBufferError::TooManyVertexBuffers(2)));
    assert_eq!(snap_vertex_data(&rs, &vec![3], 16, 4).err(), Some(SnapBufferError::VertexDataMissing));
}

#[test]
fn snapshot_textures_and_dirs() {
    assert_eq!(texture2d_indices(&vec![None, Some(4), Some(3), Some(4)]), vec![1, 3]);
    let mut gs = HookState::new();
    assert!(note_snapshot_dir(&mut gs, "a".to_string()));
    assert!(!note_snapshot_dir(&mut gs, "a".to_string()));
    assert!(note_snapshot_dir(&mut gs, "b".to_string()));
    assert_eq!(gs.last_snapshot_dir, Some("b".to_string()));
}

#[test]
fn vtable_sizes() {
    let sizes = vec![1072, 1152, 1176, 1192];
    assert_eq!(vtable_copy_size(&sizes, Some(3), 64, 100), Ok(1192));
    assert_eq!(vtable_copy_size(&sizes, Some(1), 32, 100), Ok(576));
    assert_eq!(vtable_copy_size(&sizes, None, 64, 100), Ok(100));
    assert_eq!(vtable_copy_size(&sizes, Some(0), 16, 100), Err(VtableSizeError::UnsupportedPointerWidth(16)));
}

#[test]
fn context_hooks_patch_missing_entries() {
    let none = ContextHooks {
        query_interface: false,
        release: false,
        draw_indexed: false,
        ia_set_vertex_buffers: false,
        ia_set_input_layout: false,
        ia_set_primitive_topology: false,
        ps_set_shader_resources: false,
    };
    let (h, n) = context_hooks_to_apply(none, false);
    assert_eq!(n, 6);
    assert!(!h.draw_indexed && h.release);
    let (_, n) = context_hooks_to_apply(none, true);
    assert_eq!(n, 7);
    let all = ContextHooks { draw_indexed: true, ..h };
    let all = ContextHooks { query_interface: true, ..all };
    assert_eq!(context_hooks_to_apply(all, true).1, 0);
}

#[test]
fn buffer_classification() {
    assert_eq!(buffer_meta(Some(1), 0x2, 64), BufferMeta::Mesh { is_index: true, byte_width: 64 });
    assert_eq!(buffer_meta(Some(1), 0x1, 64), BufferMeta::Mesh { is_index: false, byte_width: 64 });
    assert_eq!(buffer_meta(Some(1), 0x4, 64), BufferMeta::Other);
    assert_eq!(buffer_meta(Some(1), 0x1, 0), BufferMeta::Other);
    assert_eq!(buffer_meta(Some(3), 0x1, 64), BufferMeta::Other);
    assert_eq!(buffer_meta(None, 0x1, 64), BufferMeta::Other);
    assert!(precopy_capture_active(true, false, false));
    assert!(!precopy_capture_active(true, true, false));
    assert!(precopy_capture_active(true, true, true));
    assert!(!precopy_capture_active(false, false, true));
}

#[test]
fn buffer_meta_cache() {
    let mut rs = DX11RenderState::new();
    assert_eq!(cached_buffer_meta(&rs, 0x9), None);
    let m = BufferMeta::Mesh { is_index: false, byte_width: 16 };
    assert_eq!(record_buffer_meta(&mut rs, 0x9, m, 0), (true, false));
    assert_eq!(cached_buffer_meta(&rs, 0x9), Some(m));
    assert_eq!(record_buffer_meta(&mut rs, 0xa, m, 19), (true, true));
    assert_eq!(record_buffer_meta(&mut rs, 0xb, m, 20), (false, false));
    assert_eq!(record_buffer_meta(&mut rs, 0xc, BufferMeta::Other, 0), (false, false));
}

#[test]
fn update_texture_tracking_refs_each_source_once() {
    let min = 60 * SEC;
    let mut t = UpdateTextureTracking::new();
    assert!(!note_update_texture(&mut t, 0, 5, 0));
    assert!(note_update_texture(&mut t, 0x10, 0x1, 0));
    assert!(!note_update_texture(&mut t, 0x10, 0x2, 1 * min));
    assert!(note_update_texture(&mut t, 0x20, 0x3, 2 * min));
    assert_eq!(t.map[&0x2], 0x10);
    assert_eq!(t.deque.len(), 2);
    assert_eq!(gc_pass_count(&t), 2);
    // nothing is five minutes old yet
    assert_eq!(gc_next_due(&mut t, 4 * min), None);
    let mut released = Vec::new();
    assert_eq!(gc_next_due(&mut t, 6 * min), Some(0x10));
    // still alive: queued again
    assert!(gc_after_release(&mut t, 0x10, 2, 6 * min, &mut released));
    assert_eq!(gc_next_due(&mut t, 8 * min), Some(0x20));
    // gone: forgotten
    assert!(!gc_after_release(&mut t, 0x20, 0, 8 * min, &mut released));
    assert_eq!(released, vec![0x20]);
    assert_eq!(gc_next_due(&mut t, 8 * min), None);
    gc_purge(&mut t, &released);
    assert!(!t.map.contains_key(&0x3));
    assert_eq!(t.map.len(), 2);
    assert!(!t.tracked_srcs.contains(&0x20));
    assert!(t.tracked_srcs.contains(&0x10));
}

#[test]
fn write_kind_descriptions() {
    assert_eq!(BufferWriteKind::InitialData.describe(), "CreateBuffer initial data");
    assert_eq!(BufferWriteKind::Mapped(4).describe(), "Map(WRITE_DISCARD)");
    assert_eq!(BufferWriteKind::Mapped(9).describe(), "Map(?)");
    assert_eq!(BufferWriteKind::UpdateSubresource.describe(), "UpdateSubresource");
    assert_eq!(BufferWriteKind::UpdateSubresourceBox(16, 48).describe(), "UpdateSubresource[16..48]");
}

#[test]
fn selected_mod_descriptions() {
    let mut a = NativeModData::new();
    a.name = "hat".to_string();
    let mut b = NativeModData::new();
    b.name = "coat".to_string();
    let mods = vec![a, b];
    assert_eq!(SelectedMod::One(1).describe(&mods), "SelectedMod::One { name: coat }");
    assert_eq!(
        SelectedMod::Many(vec![1, 0]).describe(&mods),
        "SelectedMod::Many [ { index: 0, name: coat }, { index: 1, name: hat } ]"
    );
}

#[test]
fn device_reset_and_load_flags() {
    let mut gs = HookState::new();
    gs.bound_vertex_buffer = 0x44;
    let mut m = fnv::FnvHashMap::default();
    m.insert(0x44usize, VBChecksumStatus::NotPossible);
    gs.vb_checksums = Some(m);
    forget_device_buffers(&mut gs);
    assert_eq!(gs.bound_vertex_buffer, 0);
    assert!(gs.vb_checksums.as_ref().unwrap().is_empty());
    assert_eq!(ModLoadFlags::cleared(), ModLoadFlags { loading_mods: false, done_loading_mods: true });
    assert_eq!(ModLoadFlags::reload(), ModLoadFlags { loading_mods: false, done_loading_mods: false });
    assert!(is_loading_mods(true, None));
    assert!(is_loading_mods(false, Some(53)));
    assert!(!is_loading_mods(false, Some(54)));
    assert!(!is_loading_mods(false, None));
}

#[test]
fn texture_pools() {
    assert_eq!(texture_pool(true, 0, 0), (1, true));
    assert_eq!(texture_pool(true, 0, 0x1), (0, false));
    assert_eq!(texture_pool(true, 0, 0x200), (0, false));
    assert_eq!(texture_pool(true, 2, 0), (2, false));
    assert_eq!(texture_pool(false, 0, 0), (0, false));
}

#[test]
fn vertex_buffer_binding() {
    let mut rs = DX11RenderState::new();
    rs.vb_state = vec![(5, 1, 1)];
    // a null buffer in slot 0 keeps the state
    set_vertex_buffers(&mut rs, Some(&vec![None]));
    assert_eq!(rs.vb_state, vec![(5, 1, 1)]);
    set_vertex_buffers(&mut rs, Some(&vec![Some((96, 32)), None, Some((48, 16))]));
    assert_eq!(rs.vb_state, vec![(0, 96, 32), (2, 48, 16)]);
    set_vertex_buffers(&mut rs, None);
    assert_eq!(rs.vb_state.len(), 2);
    set_vertex_buffers(&mut rs, Some(&vec![]));
    assert!(rs.vb_state.is_empty());
}

#[test]
fn constant_buffer_hook_counts() {
    let mut m = DX11Metrics::new(0);
    note_vs_set_constant_buffers(&mut m, Some(0));
    note_vs_set_constant_buffers(&mut m, Some(2));
    note_vs_set_constant_buffers(&mut m, None);
    assert_eq!(m.vs_set_const_buffers_calls, 3);
    assert_eq!(m.vs_set_const_buffers_hooks, 1);
}
