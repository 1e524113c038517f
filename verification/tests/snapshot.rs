use modelmod::anim_snap_state::{anim_captures_to_write, AnimConstants, AnimSnapState, AnimWriteError};
use modelmod::error::HookError;
use modelmod::hook_snapshot::{contains_bytes, needs_gpu_check, shader_has_simple_transform};
use modelmod::input_commands::{input_scheme, new_anim_snap_state, InputScheme};
use modelmod::snap_config::{AutoSnapMesh, SnapConfig};

#[test]
fn snap_config_defaults() {
    let c = SnapConfig::new();
    assert_eq!(c.snap_ms, 250);
    assert_eq!(c.vconsts_to_capture, 224);
    assert_eq!(c.max_const_sequences(), 4096);
    let c = SnapConfig { snap_ms: 3500, ..SnapConfig::new() };
    assert_eq!(c.max_const_sequences(), 3 * 4096);
}

#[test]
fn snap_config_description() {
    let c = SnapConfig::new();
    assert_eq!(
        c.describe(),
        "SnapConfig {\n  snap_ms: 250\n  clear_sd_on_reset: false\n  snap_anim: false\n  require gpu: None\n  \
         snap_anim_on_count: 1\n  vconsts_to_capture: 224\n  pconsts_to_capture: 224\n  no autosnap meshes\n  \
         plugins: None\n}\n"
    );
    let c = SnapConfig {
        snap_anim: true,
        autosnap: Some(vec![AutoSnapMesh::new(10, 20)]),
        plugins: Some(vec!["a".to_string(), "b\"c".to_string()]),
        ..SnapConfig::new()
    };
    assert_eq!(
        c.describe(),
        "SnapConfig {\n  snap_ms: 250\n  clear_sd_on_reset: false\n  snap_anim: true\n  require gpu: true (due to snap anim)\n  \
         snap_anim_on_count: 1\n  vconsts_to_capture: 224\n  pconsts_to_capture: 224\n  max sequences: 4096\n  \
         autosnap meshes:\n    10p 20v\n  plugins: Some([\"a\", \"b\\\"c\"])\n}\n"
    );
}

fn anim_conf() -> SnapConfig {
    SnapConfig {
        snap_anim: true,
        snap_anim_on_count: 2,
        autosnap: Some(vec![AutoSnapMesh::new(10, 20), AutoSnapMesh::new(30, 40), AutoSnapMesh::new(10, 20)]),
        ..SnapConfig::new()
    }
}

#[test]
fn new_anim_state_from_config() {
    assert!(new_anim_snap_state(&SnapConfig::new(), 5).is_none());
    let a = new_anim_snap_state(&anim_conf(), 5).expect("autosnap configured");
    assert_eq!(a.expected_primverts.len(), 2);
    assert!(a.expected_primverts.contains(&(30, 40)));
    assert!(a.seen_primverts.is_empty());
    assert_eq!(a.sequence_vconstants.len(), 4096);
    assert_eq!(a.sequence_vconstants[100].snap_on_count, 2);
    assert!(a.sequence_vconstants[100].player_transform.is_err());
    assert_eq!(a.sequence_start_time, 5);
    assert_eq!(a.next_vconst_idx, 0);
}

fn capture(frame: u64, count: u32, xform: Option<&str>) -> AnimConstants {
    AnimConstants {
        snapped_at: 0,
        prim_count: 10,
        vert_count: 20,
        sequence: 0,
        frame,
        capture_count: count,
        player_transform: match xform {
            Some(t) => Ok(t.to_string()),
            None => Err(HookError::SnapshotFailed(String::new())),
        },
        snap_on_count: 2,
    }
}

fn recorded(captures: Vec<AnimConstants>) -> AnimSnapState {
    let mut a = new_anim_snap_state(&anim_conf(), 0).unwrap();
    a.next_vconst_idx = captures.len();
    a.sequence_vconstants = captures;
    a.start_frame = 3;
    a.seen_all = true;
    a.snap_dir = "dir".to_string();
    a
}

#[test]
fn anim_write_selects_configured_draws_after_first_frame() {
    let a = recorded(vec![
        capture(3, 2, None),
        capture(4, 1, None),
        capture(4, 2, Some("1 2 3 4")),
        capture(5, 2, Some("1 2 3 4")),
    ]);
    assert_eq!(anim_captures_to_write(&a, 2), Ok(vec![2, 3]));
}

#[test]
fn anim_write_errors() {
    let mut a = recorded(vec![capture(4, 2, Some("x")), capture(6, 2, None)]);
    assert_eq!(anim_captures_to_write(&a, 2), Err(AnimWriteError::TransformUnavailable(3)));
    a.seen_all = false;
    assert_eq!(anim_captures_to_write(&a, 2), Err(AnimWriteError::NotAllSeen));
    a.snap_dir = String::new();
    assert_eq!(anim_captures_to_write(&a, 2), Err(AnimWriteError::NoSnapDir));
}

#[test]
fn input_schemes() {
    assert_eq!(input_scheme("FKeys"), (InputScheme::FKeys, true));
    assert_eq!(input_scheme("Punctuation"), (InputScheme::Punct, true));
    assert_eq!(input_scheme("wasd"), (InputScheme::FKeys, false));
}

#[test]
fn gpu_animation_check() {
    assert!(needs_gpu_check(true, None));
    assert!(needs_gpu_check(false, Some(true)));
    assert!(!needs_gpu_check(false, Some(false)));
    assert!(shader_has_simple_transform("vs_2_0\n    m4x4 oPos, v0, c0\n"));
    assert!(!shader_has_simple_transform("vs_2_0\n    m4x4 oPos, v0, c4\n"));
    assert!(contains_bytes(b"abcabd", b"abd"));
    assert!(!contains_bytes(b"ab", b"abc"));
    assert!(contains_bytes(b"ab", b""));
}
