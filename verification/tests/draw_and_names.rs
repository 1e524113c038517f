use modelmod::debugmode::apply_setting;
use modelmod::global_state::{set_vb_checksum_targets, HookState};
use modelmod::hook_render::{draws_input, plan_draw, CheckRenderModResult};
use modelmod::input_commands::{scheme_of_lowercase, InputScheme};
use modelmod::mesh_update::encoding_is_octa;
use modelmod::mod_load::{deletion_name, index_name_of, new_loaded_mod, ModRecord};
use modelmod::native_mod::{ModD3DState, ModData, ModNumbers};
use modelmod::strings::{is_white_space_char, split_words, trim};

#[test]
fn settings_apply_to_the_named_option() {
    let f = (true, true, true);
    assert_eq!(apply_setting(f, "protect_mem", "false"), (false, true, true));
    assert_eq!(apply_setting(f, "defer_rehook", "0"), (true, false, true));
    assert_eq!(apply_setting((false, false, false), "defer_draw_hook", "1"), (false, false, true));
    assert_eq!(apply_setting((false, false, false), "protect_mem", "true"), (true, false, false));
    // Anything but "true" or "1" switches the option off.
    assert_eq!(apply_setting(f, "protect_mem", "yes"), (false, true, true));
    // Unknown keys change nothing.
    assert_eq!(apply_setting(f, "verbose", "false"), f);
    assert_eq!(apply_setting((false, true, false), "", ""), (false, true, false));
}

#[test]
fn octa_encoding_name() {
    assert!(encoding_is_octa("octa"));
    assert!(!encoding_is_octa("packed"));
    assert!(!encoding_is_octa("octahedral"));
    assert!(!encoding_is_octa(""));
}

#[test]
fn schemes_of_lowercase_names() {
    assert_eq!(scheme_of_lowercase("fkeys"), (InputScheme::FKeys, true));
    assert_eq!(scheme_of_lowercase("punctuation"), (InputScheme::Punct, true));
    assert_eq!(scheme_of_lowercase("punct"), (InputScheme::Punct, true));
    assert_eq!(scheme_of_lowercase("pun"), (InputScheme::FKeys, false));
    assert_eq!(scheme_of_lowercase(""), (InputScheme::FKeys, false));
}

#[test]
fn deletion_index_names() {
    assert_eq!(deletion_name(&"tree".to_string(), 120, 64), "tree_120_64");
    assert_eq!(deletion_name(&"rock".to_string(), 0, -7), "rock_0_-7");
}

#[test]
fn draw_plans() {
    let mut gs = HookState::new();
    // Mods shown, normal frame rate, nothing bound.
    let p = plan_draw(&gs, 10, 20);
    assert!(!p.pass_through);
    assert!(!p.needs_vb_checksum);

    gs.show_mods = false;
    assert!(plan_draw(&gs, 10, 20).pass_through);
    gs.is_snapping = true;
    let p = plan_draw(&gs, 10, 20);
    assert!(!p.pass_through);
    assert!(!p.needs_vb_checksum);
    gs.bound_vertex_buffer = 0x1000;
    assert!(plan_draw(&gs, 10, 20).needs_vb_checksum);

    gs.is_snapping = false;
    gs.show_mods = true;
    gs.metrics.low_framerate = true;
    let p = plan_draw(&gs, 10, 20);
    assert!(p.pass_through);
    assert!(!p.needs_vb_checksum);

    let mut set = fnv::FnvHashSet::default();
    set.insert((10u32, 20u32));
    set_vb_checksum_targets(&mut gs, set);
    assert!(plan_draw(&gs, 10, 20).needs_vb_checksum);
    assert!(!plan_draw(&gs, 20, 10).needs_vb_checksum);
    gs.bound_vertex_buffer = 0;
    assert!(!plan_draw(&gs, 10, 20).needs_vb_checksum);
}

#[test]
fn input_drawn_after_mod_check() {
    assert!(draws_input(&CheckRenderModResult::NotRendered));
    assert!(draws_input(&CheckRenderModResult::NotRenderedButLoadRequested("m".to_string())));
    assert!(draws_input(&CheckRenderModResult::Rendered(4)));
    assert!(!draws_input(&CheckRenderModResult::Rendered(3)));
    assert!(!draws_input(&CheckRenderModResult::Deleted));
}

#[test]
fn trimming_matches_str_trim() {
    let cases = [
        "  name  ",
        "\t\r\nname\u{3000}",
        "\u{a0}\u{2009}a b\u{85}",
        "\u{200b}x\u{200b}",
        "   ",
        "",
        "x",
        "\u{1680}\u{202f}\u{205f}y\u{2028}\u{2029}",
    ];
    for c in cases.iter() {
        assert_eq!(trim(c), c.trim(), "{:?}", c);
    }
    assert_eq!(trim(" a\u{3000}"), "a");
    for u in 0u32..0x3100 {
        if let Some(ch) = char::from_u32(u) {
            assert_eq!(is_white_space_char(ch), ch.is_whitespace(), "{:x}", u);
        }
    }
}

fn record_of_type(mod_type: i32, ref_prims: i32, ref_verts: i32) -> ModRecord {
    let mut numbers = ModNumbers::zeroed();
    numbers.mod_type = mod_type;
    numbers.ref_prim_count = ref_prims;
    numbers.ref_vert_count = ref_verts;
    ModRecord {
        midx: 7,
        name: " Raw Name ".to_string(),
        parent_name: " Parent ".to_string(),
        data: ModData { numbers, tex_checksum_mask: 1, tex_checksums: [9, 0, 0, 0, 0, 0, 0, 0] },
    }
}

#[test]
fn index_names_of_normalized_names() {
    let name = "boulder".to_string();
    assert_eq!(index_name_of(&name, &record_of_type(5, 30, 40)), "boulder_30_40");
    assert_eq!(index_name_of(&name, &record_of_type(3, 30, 40)), "boulder");
    assert_eq!(index_name_of(&name, &record_of_type(4, 30, 40)), "boulder");
}

#[test]
fn loaded_mod_from_normalized_names() {
    let r = record_of_type(3, 30, 40);
    let m = new_loaded_mod(&r, "raw name".to_string(), vec!["parent".to_string()]);
    assert_eq!(m.midx, 7);
    assert_eq!(m.name, "raw name");
    assert_eq!(m.parent_mod_names, vec!["parent".to_string()]);
    assert_eq!(m.mod_data.numbers.ref_prim_count, 30);
    assert_eq!(m.mod_data.tex_checksum_mask, 1);
    assert_eq!(m.mod_data.tex_checksums[0], 9);
    assert!(!m.is_parent);
    assert!(m.d3d_data == ModD3DState::Unloaded);
    assert_eq!(m.last_frame_render, 0);
}

#[test]
fn words_of_text() {
    assert_eq!(split_words(" a  bc\td "), vec!["a", "bc", "d"]);
    assert_eq!(split_words("x"), vec!["x"]);
    assert!(split_words("   ").is_empty());
    assert!(split_words("").is_empty());
    assert_eq!(split_words("Mod4P\u{a0}Mod1P"), vec!["Mod4P", "Mod1P"]);
}
