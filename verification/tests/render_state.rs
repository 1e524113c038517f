use modelmod::dx11rs::{
    compute_prim_vert_count, get_format_size_bytes, vertex_format_from_layout, DX11RenderState, InputElement,
    Semantic, VertexFormat, D3D11_APPEND_ALIGNED_ELEMENT, DXGI_FORMAT_R16G16B16A16_SINT, DXGI_FORMAT_R32G32B32_FLOAT,
    DXGI_FORMAT_R32G32_FLOAT,
};
use modelmod::hook_render::{
    frame_load_step, should_load_deferred, FrameLoadEvent, FrameLoadStep, ModLoadFlags, ASYNC_LOAD_COMPLETE,
    ASYNC_LOAD_IN_PROGRESS, ASYNC_LOAD_NOT_STARTED, ASYNC_LOAD_PENDING,
};

fn elem(name: &str, index: u32, format: u32, offset: u32) -> InputElement {
    InputElement {
        semantic_name: Some(name.as_bytes().to_vec()),
        semantic_index: index,
        format,
        input_slot: 0,
        aligned_byte_offset: offset,
        input_slot_class: 0,
        instance_data_step_rate: 0,
    }
}

#[test]
fn semantic_names() {
    assert_eq!(Semantic::from_name_bytes(b"POSITION"), Some(Semantic::Position));
    assert_eq!(Semantic::from_name_bytes(b"texcoord"), Some(Semantic::TexCoord));
    assert_eq!(Semantic::from_name_bytes(b"PSIZE"), None);
}

#[test]
fn vertex_sizes_and_masks() {
    assert_eq!(get_format_size_bytes(&DXGI_FORMAT_R32G32B32_FLOAT), Some(12));
    assert_eq!(get_format_size_bytes(&DXGI_FORMAT_R16G16B16A16_SINT), Some(8));
    // a layout with appended elements has no computed size
    let appended = vertex_format_from_layout(vec![
        elem("POSITION", 0, DXGI_FORMAT_R32G32B32_FLOAT, 0),
        elem("NORMAL", 0, DXGI_FORMAT_R16G16B16A16_SINT, D3D11_APPEND_ALIGNED_ELEMENT),
    ]);
    assert_eq!(appended.size, 0);
    let vf = vertex_format_from_layout(vec![
        elem("POSITION", 0, DXGI_FORMAT_R32G32B32_FLOAT, 0),
        elem("TEXCOORD", 0, DXGI_FORMAT_R32G32_FLOAT, 20),
        elem("NORMAL", 0, DXGI_FORMAT_R16G16B16A16_SINT, 12),
    ]);
    // the size is the highest offset plus its element's size
    assert_eq!(vf.size, 28);
    let reordered = VertexFormat {
        layout: vec![
            elem("TEXCOORD", 0, DXGI_FORMAT_R32G32_FLOAT, 20),
            elem("POSITION", 0, DXGI_FORMAT_R32G32B32_FLOAT, 0),
            elem("NORMAL", 0, DXGI_FORMAT_R16G16B16A16_SINT, 12),
            elem("NORMAL", 0, DXGI_FORMAT_R16G16B16A16_SINT, 12),
        ],
        size: 28,
    };
    // the mask depends on the slots declared, not their order or repetition
    assert_eq!(vf.semantic_mask(), reordered.semantic_mask());
    assert!(!VertexFormat::has_extra_semantics(vf.semantic_mask(), reordered.semantic_mask()));
    let with_color = VertexFormat {
        layout: vec![elem("COLOR", 0, DXGI_FORMAT_R32G32_FLOAT, 0)],
        size: 8,
    };
    assert!(VertexFormat::has_extra_semantics(vf.semantic_mask(), with_color.semantic_mask()));
}

#[test]
fn prim_vert_counts() {
    let mut rs = DX11RenderState::new();
    rs.context_input_layouts_by_ptr.insert(0x1, VertexFormat { layout: vec![], size: 32 });
    rs.current_input_layout = 0x1;
    rs.vb_state = vec![(0, 3200, 32)];
    assert_eq!(compute_prim_vert_count(300, &rs), Some((100, 100)));
    assert_eq!(compute_prim_vert_count(6, &rs), None);
    rs.vb_state.push((1, 64, 16));
    assert_eq!(compute_prim_vert_count(300, &rs), None);
}

fn flags(loading: bool, done: bool) -> ModLoadFlags {
    ModLoadFlags { loading_mods: loading, done_loading_mods: done }
}

#[test]
fn frame_loading_starts_once_and_completes() {
    let f = flags(false, false);
    assert_eq!(frame_load_step(f, false, FrameLoadEvent::Begin), (f, FrameLoadStep::Done));
    assert_eq!(frame_load_step(f, true, FrameLoadEvent::Begin), (f, FrameLoadStep::AskStateBeforeStart));
    assert_eq!(
        frame_load_step(f, true, FrameLoadEvent::StateBeforeStart(ASYNC_LOAD_NOT_STARTED)),
        (f, FrameLoadStep::StartLoad)
    );
    assert_eq!(
        frame_load_step(f, true, FrameLoadEvent::StateBeforeStart(ASYNC_LOAD_PENDING)),
        (f, FrameLoadStep::Done)
    );
    assert_eq!(
        frame_load_step(f, true, FrameLoadEvent::StateBeforeStart(ASYNC_LOAD_IN_PROGRESS)),
        (flags(true, false), FrameLoadStep::AskStateForCompletion)
    );
    let loading = flags(true, false);
    assert_eq!(
        frame_load_step(f, true, FrameLoadEvent::LoadStarted(ASYNC_LOAD_PENDING)),
        (loading, FrameLoadStep::AskStateForCompletion)
    );
    assert_eq!(
        frame_load_step(loading, true, FrameLoadEvent::StateForCompletion(ASYNC_LOAD_IN_PROGRESS)),
        (loading, FrameLoadStep::Done)
    );
    assert_eq!(
        frame_load_step(loading, true, FrameLoadEvent::StateForCompletion(ASYNC_LOAD_COMPLETE)),
        (flags(false, true), FrameLoadStep::SetupMods)
    );
    // once done, a frame asks nothing
    assert_eq!(frame_load_step(flags(false, true), true, FrameLoadEvent::Begin), (flags(false, true), FrameLoadStep::Done));
    assert!(should_load_deferred(true, flags(false, true)));
    assert!(!should_load_deferred(true, loading));
    assert!(!should_load_deferred(false, flags(false, true)));
}
