use modelmod::mod_load::{get_mod_by_name, parent_names, setup_mod_data, ModRecord};
use modelmod::native_mod::{ModData, ModD3DState, ModNumbers, NativeModData};

fn record(midx: i32, name: &str, parent: &str, mod_type: i32, ref_prims: i32, ref_verts: i32) -> ModRecord {
    let mut numbers = ModNumbers::zeroed();
    numbers.mod_type = mod_type;
    numbers.ref_prim_count = ref_prims;
    numbers.ref_vert_count = ref_verts;
    ModRecord {
        midx,
        name: name.to_owned(),
        parent_name: parent.to_owned(),
        data: ModData { numbers, tex_checksum_mask: 0, tex_checksums: [0; 8] },
    }
}

#[test]
fn setup_builds_the_database() {
    let recs = vec![
        record(0, "  Body ", "", 3, 100, 200),
        record(1, "Hat", "BODY", 3, 10, 20),
        record(2, "Ignored", "", 1, 10, 20),
        record(3, "Gone", "", 5, 7, 8),
        record(4, "body", "", 4, 1, 2),
    ];
    assert!(setup_mod_data(0, &recs).is_none());
    assert!(setup_mod_data(-1, &recs).is_none());
    let s = setup_mod_data(recs.len() as i32, &recs).expect("mods were reported");
    let body_key = NativeModData::mod_key(200, 100);
    let hat_key = NativeModData::mod_key(20, 10);
    let gone_key = NativeModData::mod_key(8, 7);
    let dup_key = NativeModData::mod_key(2, 1);
    assert_eq!(s.mods.len(), 4);
    let body = &s.mods[&body_key][0];
    assert_eq!(body.name, "body");
    assert!(body.is_parent);
    assert_eq!(body.d3d_data, ModD3DState::Unloaded);
    let hat = &s.mods[&hat_key];
    assert_eq!(hat.len(), 1);
    assert_eq!(hat[0].name, "hat");
    assert_eq!(hat[0].parent_mod_names, vec!["body".to_string()]);
    assert!(!hat[0].is_parent);
    assert_eq!(hat[0].midx, 1);
    // the deletion mod is indexed with its reference counts
    assert_eq!(s.mods_by_name.get("gone_7_8"), Some(&gone_key));
    assert_eq!(s.mods[&gone_key][0].name, "gone");
    // the duplicate name keeps the first mod's key; the second mod is stored but not a parent
    assert_eq!(s.mods_by_name.get("body"), Some(&body_key));
    assert!(!s.mods[&dup_key][0].is_parent);
    assert!(s.selected_variant.is_empty());

    let lms = Some(s);
    assert_eq!(get_mod_by_name("hat", &lms), Some((hat_key, 0)));
    assert_eq!(get_mod_by_name("gone_7_8", &lms), None);
    assert_eq!(get_mod_by_name("nothing", &lms), None);
    assert_eq!(get_mod_by_name("hat", &None), None);
}

#[test]
fn signed_decimal_text() {
    let mut s = String::from("x");
    modelmod::text::push_i32_decimal(&mut s, -3);
    modelmod::text::push_i32_decimal(&mut s, 0);
    modelmod::text::push_i32_decimal(&mut s, i32::MIN);
    assert_eq!(s, "x-30-2147483648");
    assert_eq!(modelmod::text::u64_to_decimal(18446744073709551615), "18446744073709551615");
    assert_eq!(modelmod::text::u32_to_hex_upper(0xBEEF), "BEEF");
}

#[test]
fn several_parents_make_an_or_list() {
    let recs = vec![
        record(0, "Mod1P", "", 3, 100, 200),
        record(1, "Mod4P", "", 3, 100, 200),
        record(2, "ModC", "  Mod4P \t MOD1P ", 3, 101, 201),
        record(3, "Solo", "   ", 3, 5, 6),
    ];
    let s = setup_mod_data(recs.len() as i32, &recs).expect("mods were reported");
    let pkey = NativeModData::mod_key(200, 100);
    let ckey = NativeModData::mod_key(201, 101);
    let child = &s.mods[&ckey][0];
    assert_eq!(child.parent_mod_names, vec!["mod4p".to_string(), "mod1p".to_string()]);
    assert!(s.mods[&pkey].iter().all(|m| m.is_parent));
    assert!(s.mods[&NativeModData::mod_key(6, 5)][0].parent_mod_names.is_empty());
}

#[test]
fn parent_texts_split_into_names() {
    assert_eq!(parent_names("A B"), vec!["a".to_string(), "b".to_string()]);
    assert_eq!(parent_names("  One\u{3000}Two\nthree  "), vec!["one", "two", "three"]);
    assert_eq!(parent_names(""), Vec::<String>::new());
    assert_eq!(parent_names(" \t "), Vec::<String>::new());
    assert_eq!(parent_names("Single"), vec!["single".to_string()]);
}
