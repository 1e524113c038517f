use modelmod::debugmode::{DebugMode, DebugModeCalledFns};
use modelmod::dx11rs::{BufferWriteKind, DX11RenderState};
use modelmod::global_state::{vb_checksum_target_matches_with, HookState, VBChecksumStatus};
use modelmod::hook_dynamic_buffers::{
    capture_buffer_data, is_write_map, patch_captured_buffer, reset_captured_dynamic_buffers,
};
use modelmod::hook_render::{get_current_texture, get_selected_texture_stage, track_bound_vertex_buffer, track_set_texture};
use modelmod::input_commands::{
    begin_snapshot, clear_texture_lists, init_selection_state, select_next_texture, select_prev_texture,
    toggle_show_mods,
};
use modelmod::shader_capture::{check_hr, is_enabled};
use modelmod::error::HookError;
use modelmod::types::{DX11Metrics, MetricsDrawStatus};
use modelmod::snap_plugin::PluginError;

const SEC: i128 = 1_000_000_000;

#[test]
fn debug_mode_settings_file() {
    let mut dm = DebugMode::new();
    assert!(!dm.protect_mem());
    dm.enable(0, Some("# comment\nprotect_mem = false\r\ndefer_rehook=1\nDEFER_DRAW_HOOK= TRUE =x\n"));
    assert!(!dm.protect_mem());
    // defer_rehook on: nothing allowed yet
    assert!(!dm.is_rehook_allowed(DebugModeCalledFns::Hook_ContextDrawIndexed));
    assert!(!dm.draw_hook_enabled(10 * SEC));
    assert!(dm.draw_hook_enabled(36 * SEC));
    assert!(dm.is_draw_hooked());
    assert!(dm.draw_hook_enabled(1 * SEC));
}

#[test]
fn debug_mode_rehook_delays() {
    let mut dm = DebugMode::new();
    assert!(dm.rehook_enabled(DebugModeCalledFns::Hook_ContextDrawIndexed, 0));
    dm.enable(0, None);
    assert!(!dm.rehook_enabled(DebugModeCalledFns::Hook_DeviceCreateInputLayoutFn, 30 * SEC));
    assert!(dm.rehook_enabled(DebugModeCalledFns::Hook_DeviceCreateInputLayoutFn, 31 * SEC));
    assert!(dm.rehook_enabled(DebugModeCalledFns::Hook_DeviceCreateInputLayoutFn, 0));
    assert!(!dm.rehook_enabled(DebugModeCalledFns::Hook_ContextDrawIndexed, 100 * SEC));
    assert!(dm.rehook_enabled(DebugModeCalledFns::Hook_ContextDrawIndexed, 121 * SEC));
    assert!(!dm.rehook_enabled(DebugModeCalledFns::Hook_ContextRelease, 1000 * SEC));
    assert_eq!(dm.seconds_since_start(90 * SEC + 5), 90);
}

#[test]
fn debug_mode_rehook_not_deferred() {
    let mut dm = DebugMode::new();
    dm.enable(0, Some("defer_rehook=false"));
    assert!(dm.is_rehook_allowed(DebugModeCalledFns::Hook_ContextRelease));
    assert!(dm.rehook_enabled(DebugModeCalledFns::Hook_ContextDrawIndexed, 0));
    assert!(dm.protect_mem());
}

#[test]
fn debug_mode_counts_calls() {
    let mut dm = DebugMode::new();
    assert_eq!(dm.note_called(DebugModeCalledFns::Hook_ContextRelease), None);
    assert_eq!(dm.call_count(DebugModeCalledFns::Hook_ContextRelease), 0);
    dm.enable(0, None);
    assert_eq!(dm.note_called(DebugModeCalledFns::Hook_ContextRelease), Some(1));
    assert_eq!(dm.note_called(DebugModeCalledFns::Hook_ContextRelease), None);
    for _ in 3..1000 {
        assert_eq!(dm.note_called(DebugModeCalledFns::Hook_ContextRelease), None);
    }
    assert_eq!(dm.note_called(DebugModeCalledFns::Hook_ContextRelease), Some(1000));
    assert_eq!(dm.call_count(DebugModeCalledFns::Last), 0);
}

#[test]
fn texture_selection_cycle() {
    let mut gs = HookState::new();
    track_set_texture(5, 0, &mut gs);
    assert!(gs.active_texture_list.is_none());
    init_selection_state(&mut gs);
    assert!(track_set_texture(100, 0, &mut gs));
    assert!(track_set_texture(200, 1, &mut gs));
    assert!(track_set_texture(100, 2, &mut gs));
    assert_eq!(gs.active_texture_list, Some(vec![100, 200]));
    assert_eq!(get_current_texture(&gs), 100);
    // 100 is the current texture and is bound on stages 0 and 2
    assert_eq!(get_selected_texture_stage(&gs), Some(0));
    assert!(gs.selected_on_stage[2]);
    assert!(!gs.selected_on_stage[1]);
    assert!(!track_set_texture(100, 40, &mut gs));
    select_next_texture(&mut gs);
    assert_eq!(get_current_texture(&gs), 200);
    select_next_texture(&mut gs);
    assert_eq!(get_current_texture(&gs), 100);
    select_prev_texture(&mut gs);
    assert_eq!(get_current_texture(&gs), 200);
    track_set_texture(100, 0, &mut gs);
    track_set_texture(100, 2, &mut gs);
    assert_eq!(get_selected_texture_stage(&gs), None);
    track_set_texture(200, 3, &mut gs);
    assert_eq!(get_selected_texture_stage(&gs), Some(3));
    clear_texture_lists(&mut gs);
    assert!(!gs.making_selection);
    assert_eq!(gs.active_texture_list, Some(vec![]));
    assert_eq!(gs.curr_texture_index, 0);
}

#[test]
fn texture_selection_empty_list_does_nothing() {
    let mut gs = HookState::new();
    init_selection_state(&mut gs);
    select_next_texture(&mut gs);
    select_prev_texture(&mut gs);
    assert_eq!(gs.curr_texture_index, 0);
    assert_eq!(get_current_texture(&gs), 0);
}

#[test]
fn state_toggles() {
    let mut gs = HookState::new();
    assert!(gs.show_mods);
    toggle_show_mods(&mut gs);
    assert!(!gs.show_mods);
    assert!(begin_snapshot(&mut gs, 42));
    assert_eq!(gs.snap_start, 42);
    assert!(!begin_snapshot(&mut gs, 43));
    assert_eq!(gs.snap_start, 42);
    track_bound_vertex_buffer(77, 1, &mut gs);
    assert_eq!(gs.bound_vertex_buffer, 0);
    track_bound_vertex_buffer(77, 0, &mut gs);
    assert_eq!(gs.bound_vertex_buffer, 77);
}

#[test]
fn vb_checksums() {
    let mut gs = HookState::new();
    assert!(!vb_checksum_target_matches_with(&gs, 1, 2));
    let mut set = fnv::FnvHashSet::default();
    set.insert((1u32, 2u32));
    modelmod::global_state::set_vb_checksum_targets(&mut gs, set);
    assert!(vb_checksum_target_matches_with(&gs, 1, 2));
    assert!(!vb_checksum_target_matches_with(&gs, 2, 1));
    assert_eq!(VBChecksumStatus::Checksum(7).checksum(), Some(7));
    assert_eq!(VBChecksumStatus::NotPossible.checksum(), None);
}

#[test]
fn shader_capture_results() {
    assert!(is_enabled());
    assert!(check_hr(0, "x").is_ok());
    match check_hr(-2147467259, "CreateTexture") {
        Err(HookError::CaptureFailed(m)) => assert_eq!(m, "CreateTexture: failed HR: 80004005"),
        _ => panic!("expected a capture failure"),
    }
    match check_hr(255, "Lock") {
        Err(HookError::CaptureFailed(m)) => assert_eq!(m, "Lock: failed HR: FF"),
        _ => panic!("expected a capture failure"),
    }
}

#[test]
fn metrics() {
    let mut m = DX11Metrics::new(5 * SEC);
    m.vs_set_const_buffers_calls = 3;
    assert_eq!(m.ms_since_reset(5 * SEC + 2_500_000_000), 2500);
    assert_eq!(m.ms_since_reset(0), 0);
    m.reset(7 * SEC);
    assert_eq!(m.vs_set_const_buffers_calls, 0);
    assert_eq!(m.last_reset, 7 * SEC);
    let mut s = MetricsDrawStatus::Referenced(3, 1);
    s.incr_count();
    match s {
        MetricsDrawStatus::Referenced(t, c) => assert_eq!((t, c), (3, 2)),
        _ => panic!(),
    }
}

#[test]
fn plugin_error_text() {
    match PluginError::FailedToCaptureState("bad \"x\"".to_owned()).into_hook_error() {
        HookError::SnapshotPluginError(m) => assert_eq!(m, "FailedToCaptureState(\"bad \\\"x\\\"\")"),
        _ => panic!(),
    }
}

#[test]
fn dynamic_buffer_capture_and_reset() {
    let mut rs = DX11RenderState::new();
    assert!(is_write_map(4));
    assert!(!is_write_map(1));
    capture_buffer_data(&mut rs, true, 0x10, &[1, 2, 3], BufferWriteKind::InitialData, 1, 100);
    capture_buffer_data(&mut rs, true, 0x20, &[4, 5], BufferWriteKind::Mapped(4), 2, 200);
    capture_buffer_data(&mut rs, true, 0x20, &[6], BufferWriteKind::Mapped(4), 3, 300);
    assert_eq!(rs.device_index_buffer_data[&0x20], vec![6]);
    assert_eq!(rs.device_index_buffer_createtime, vec![(0x10, 100), (0x20, 200)]);
    assert_eq!(rs.buffer_capture_info[&0x20].count, 2);
    patch_captured_buffer(&mut rs, false, 0x30, 6, 2, &[9, 9], 4, 400);
    assert_eq!(rs.device_vertex_buffer_data[&0x30], vec![0, 0, 9, 9, 0, 0]);
    patch_captured_buffer(&mut rs, false, 0x30, 4, 5, &[7, 7], 5, 500);
    assert_eq!(rs.device_vertex_buffer_data[&0x30], vec![0, 0, 9, 9, 0, 0]);
    assert_eq!(rs.buffer_capture_info[&0x30].kind, BufferWriteKind::UpdateSubresourceBox(5, 7));
    let d = reset_captured_dynamic_buffers(&mut rs);
    assert_eq!((d.index_count, d.index_bytes), (1, 1));
    assert_eq!((d.vertex_count, d.vertex_bytes), (1, 6));
    assert_eq!(rs.device_index_buffer_data.len(), 1);
    assert!(rs.device_index_buffer_data.contains_key(&0x10));
    assert_eq!(rs.device_index_buffer_createtime, vec![(0x10, 100)]);
    assert!(rs.device_vertex_buffer_data.is_empty());
    assert_eq!(rs.buffer_capture_info.len(), 1);
}
