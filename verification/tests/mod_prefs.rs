use fnv::FnvHashMap;
use modelmod::mod_prefs::{apply_variants, build_prefs, default_version, prefs_file_name, ModPrefs, VariantPref, PREFS_VERSION};
use modelmod::native_mod::NativeModData;

type LoadedModsMap = FnvHashMap<u32, Vec<NativeModData>>;
type SelectedVariantMap = FnvHashMap<u32, usize>;

fn new_mod(ref_prims: i32, ref_verts: i32) -> NativeModData {
    let mut m = NativeModData::new();
    m.mod_data.numbers.ref_prim_count = ref_prims;
    m.mod_data.numbers.ref_vert_count = ref_verts;
    m
}

fn add_mods(mmap: &mut LoadedModsMap, ref_prims: i32, ref_verts: i32, count: usize) {
    let mk = NativeModData::mod_key(ref_verts as u32, ref_prims as u32);
    let v = mmap.entry(mk).or_insert_with(|| vec![]);
    for _ in 0..count {
        v.push(new_mod(ref_prims, ref_verts));
    }
}

#[test]
fn new_and_default_use_current_version() {
    let p = ModPrefs::new();
    assert_eq!(p.version, PREFS_VERSION);
    assert!(p.variants.is_empty());

    let d = ModPrefs::default();
    assert_eq!(d.version, PREFS_VERSION);
    assert!(d.variants.is_empty());
}

#[test]
fn apply_variants_sets_selection_when_in_range() {
    let mut mods: LoadedModsMap = FnvHashMap::default();
    add_mods(&mut mods, 7, 13, 3);
    let mut prefs = ModPrefs::new();
    prefs.variants.push(VariantPref { ref_prim_count: 7, ref_vert_count: 13, index: 2 });
    let mut sel: SelectedVariantMap = FnvHashMap::default();
    let (applied, total) = apply_variants(&prefs, &mods, &mut sel);
    assert_eq!(applied, 1);
    assert_eq!(total, 1);
    let mk = NativeModData::mod_key(13, 7);
    assert_eq!(sel.get(&mk), Some(&2));
}

#[test]
fn apply_variants_skips_out_of_range_index() {
    let mut mods: LoadedModsMap = FnvHashMap::default();
    add_mods(&mut mods, 7, 13, 2);
    let mut prefs = ModPrefs::new();
    prefs.variants.push(VariantPref { ref_prim_count: 7, ref_vert_count: 13, index: 5 });
    let mut sel: SelectedVariantMap = FnvHashMap::default();
    let (applied, total) = apply_variants(&prefs, &mods, &mut sel);
    assert_eq!(applied, 0);
    assert_eq!(total, 1);
    assert!(sel.is_empty(), "out-of-range index must not be applied");
}

#[test]
fn apply_variants_skips_unknown_ref_geometry() {
    let mods: LoadedModsMap = FnvHashMap::default();
    let mut prefs = ModPrefs::new();
    prefs.variants.push(VariantPref { ref_prim_count: 1, ref_vert_count: 2, index: 0 });
    let mut sel: SelectedVariantMap = FnvHashMap::default();
    let (applied, total) = apply_variants(&prefs, &mods, &mut sel);
    assert_eq!(applied, 0);
    assert_eq!(total, 1);
    assert!(sel.is_empty());
}

#[test]
fn apply_variants_handles_mixed_entries() {
    let mut mods: LoadedModsMap = FnvHashMap::default();
    add_mods(&mut mods, 7, 13, 3);
    add_mods(&mut mods, 8, 14, 2);
    let mut prefs = ModPrefs::new();
    prefs.variants.push(VariantPref { ref_prim_count: 7, ref_vert_count: 13, index: 1 });
    prefs.variants.push(VariantPref { ref_prim_count: 8, ref_vert_count: 14, index: 9 });
    prefs.variants.push(VariantPref { ref_prim_count: 99, ref_vert_count: 99, index: 0 });
    let mut sel: SelectedVariantMap = FnvHashMap::default();
    let (applied, total) = apply_variants(&prefs, &mods, &mut sel);
    assert_eq!(applied, 1);
    assert_eq!(total, 3);
    let good = NativeModData::mod_key(13, 7);
    assert_eq!(sel.get(&good), Some(&1));
    assert_eq!(sel.len(), 1);
}

#[test]
fn build_prefs_omits_zero_indices() {
    let mut mods: LoadedModsMap = FnvHashMap::default();
    add_mods(&mut mods, 5, 10, 2);
    let mut sel: SelectedVariantMap = FnvHashMap::default();
    let mk = NativeModData::mod_key(10, 5);
    sel.insert(mk, 0);
    let prefs = build_prefs(&mods, &sel);
    assert!(prefs.variants.is_empty());
    assert_eq!(prefs.version, PREFS_VERSION);
}

#[test]
fn build_prefs_records_nonzero_index() {
    let mut mods: LoadedModsMap = FnvHashMap::default();
    add_mods(&mut mods, 5, 10, 3);
    let mut sel: SelectedVariantMap = FnvHashMap::default();
    let mk = NativeModData::mod_key(10, 5);
    sel.insert(mk, 2);
    let prefs = build_prefs(&mods, &sel);
    assert_eq!(prefs.variants.len(), 1);
    let v = &prefs.variants[0];
    assert_eq!(v.ref_prim_count, 5);
    assert_eq!(v.ref_vert_count, 10);
    assert_eq!(v.index, 2);
}

#[test]
fn build_prefs_sorts_by_ref_counts() {
    let mut mods: LoadedModsMap = FnvHashMap::default();
    add_mods(&mut mods, 10, 5, 2);
    add_mods(&mut mods, 5, 50, 2);
    add_mods(&mut mods, 5, 10, 2);
    let mut sel: SelectedVariantMap = FnvHashMap::default();
    sel.insert(NativeModData::mod_key(5, 10), 1);
    sel.insert(NativeModData::mod_key(50, 5), 1);
    sel.insert(NativeModData::mod_key(10, 5), 1);
    let prefs = build_prefs(&mods, &sel);
    let keys: Vec<(u32, u32)> = prefs.variants.iter().map(|v| (v.ref_prim_count, v.ref_vert_count)).collect();
    assert_eq!(keys, vec![(5, 10), (5, 50), (10, 5)]);
}

#[test]
fn build_prefs_skips_selection_with_no_loaded_mods() {
    let mods: LoadedModsMap = FnvHashMap::default();
    let mut sel: SelectedVariantMap = FnvHashMap::default();
    sel.insert(NativeModData::mod_key(1, 2), 1);
    let prefs = build_prefs(&mods, &sel);
    assert!(prefs.variants.is_empty());
}

#[test]
fn build_then_apply_round_trip() {
    let mut mods: LoadedModsMap = FnvHashMap::default();
    add_mods(&mut mods, 5, 10, 3);
    add_mods(&mut mods, 20, 40, 4);
    let mut sel_src: SelectedVariantMap = FnvHashMap::default();
    sel_src.insert(NativeModData::mod_key(10, 5), 2);
    sel_src.insert(NativeModData::mod_key(40, 20), 3);
    let prefs = build_prefs(&mods, &sel_src);
    let prefs2 = prefs.clone();
    let mut sel_dst: SelectedVariantMap = FnvHashMap::default();
    let (applied, total) = apply_variants(&prefs2, &mods, &mut sel_dst);
    assert_eq!(applied, 2);
    assert_eq!(total, 2);
    assert_eq!(sel_dst.get(&NativeModData::mod_key(10, 5)), Some(&2));
    assert_eq!(sel_dst.get(&NativeModData::mod_key(40, 20)), Some(&3));
    assert_eq!(prefs, prefs2);
}

#[test]
fn default_version_is_current() {
    assert_eq!(default_version(), PREFS_VERSION);
    assert_eq!(PREFS_VERSION, 1);
}

#[test]
fn prefs_file_name_appends_extension() {
    assert_eq!(prefs_file_name("game"), "game.prefs.yaml");
}

#[test]
fn later_entry_for_same_geometry_wins() {
    let mut mods: LoadedModsMap = FnvHashMap::default();
    add_mods(&mut mods, 7, 13, 3);
    let mut prefs = ModPrefs::new();
    prefs.variants.push(VariantPref { ref_prim_count: 7, ref_vert_count: 13, index: 1 });
    prefs.variants.push(VariantPref { ref_prim_count: 7, ref_vert_count: 13, index: 2 });
    let mut sel: SelectedVariantMap = FnvHashMap::default();
    let (applied, total) = apply_variants(&prefs, &mods, &mut sel);
    assert_eq!((applied, total), (2, 2));
    assert_eq!(sel.get(&NativeModData::mod_key(13, 7)), Some(&2));
}
