use fnv::FnvHashMap;
use std::collections::HashMap;
use modelmod::loaded_mods::LoadedModState;
use modelmod::mod_render::{select, select_next_variant, BoundTextures, SelectedMod};
use modelmod::native_mod::{NativeModData, MAX_CHECKSUM_STAGES, MAX_RECENT_RENDER_PARENT_THRESH};

type LoadedModsMap = FnvHashMap<u32, Vec<NativeModData>>;

fn new_mod(name: &str, prims: i32, verts: i32) -> NativeModData {
    let mut m = NativeModData::new();
    m.mod_data.numbers.prim_count = prims;
    m.mod_data.numbers.vert_count = verts;
    m.name = name.to_owned();
    m
}

/// Adds a mod under its geometry's key, keeping mods without parents ahead of
/// mods with parents (stable otherwise).
fn add_mod(mmap: &mut LoadedModsMap, nmod: NativeModData) {
    let mk = NativeModData::mod_key(
        nmod.mod_data.numbers.vert_count as u32,
        nmod.mod_data.numbers.prim_count as u32,
    );
    let mvec = mmap.entry(mk).or_insert_with(|| vec![]);
    mvec.push(nmod);
    mvec.sort_by_key(|m| !m.parent_mod_names.is_empty());
}

fn find_parent<'a>(name: &str, mvec: &'a mut Vec<NativeModData>) -> Option<&'a mut NativeModData> {
    mvec.iter_mut().find(|m| m.name == name)
}

fn new_state(mmap: LoadedModsMap) -> LoadedModState {
    let mut mods_by_name: FnvHashMap<String, u32> = FnvHashMap::default();
    let mut parent_mods: std::collections::HashSet<String> = std::collections::HashSet::new();
    let mut mmap = mmap;
    for (mk, nmdv) in mmap.iter_mut() {
        for nmod in nmdv.iter_mut() {
            nmod.name = nmod.name.to_lowercase();
            mods_by_name.insert(nmod.name.to_owned(), *mk);
            nmod.parent_mod_names.iter_mut().for_each(|pmod| {
                *pmod = pmod.to_lowercase();
                parent_mods.insert(pmod.to_owned());
            });
        }
    }
    for parent in parent_mods {
        let pmk = *mods_by_name.get(&parent).expect("no parent");
        let pmods = mmap.get_mut(&pmk).expect("no parent mods");
        let pmod = find_parent(&parent, pmods).expect("no parent");
        pmod.is_parent = true;
    }
    LoadedModState { mods: mmap, mods_by_name, selected_variant: FnvHashMap::default() }
}

fn get_parent<'a>(mstate: &'a mut LoadedModState, pname: &str) -> &'a mut NativeModData {
    let pname = pname.to_lowercase();
    let pkey = *mstate.mods_by_name.get(&pname).expect("no parent");
    let pmods = mstate.mods.get_mut(&pkey).expect("no parent");
    find_parent(&pname, pmods).expect("no parent")
}

fn names_of(mstate: &LoadedModState, prims: u32, verts: u32, r: &Option<SelectedMod>) -> Option<Vec<String>> {
    let key = NativeModData::mod_key(verts, prims);
    r.as_ref().map(|s| {
        s.indices().iter().map(|i| mstate.mods[&key][*i].name.clone()).collect()
    })
}

fn assert_selected_mod_name(mstate: &LoadedModState, prims: u32, verts: u32, r: Option<SelectedMod>, expected_name: &str) {
    match &r {
        Some(SelectedMod::One(_)) => {
            assert_eq!(names_of(mstate, prims, verts, &r).unwrap(), vec![expected_name.to_string()]);
        },
        _ => panic!("Expected SelectedMod::One with name: {}; got: {:?}", expected_name, names_of(mstate, prims, verts, &r)),
    }
}

#[test]
fn test_select_basic() {
    let mut modmap: LoadedModsMap = FnvHashMap::default();
    add_mod(&mut modmap, new_mod("Mod1", 100, 200));
    add_mod(&mut modmap, new_mod("Mod2", 101, 201));
    let mut mstate = new_state(modmap);
    let r = select(&mut mstate, 99, 100, 1, &BoundTextures::empty());
    assert!(r.is_none());
    let r = select(&mut mstate, 100, 202, 1, &BoundTextures::empty());
    assert!(r.is_none());
    let r = select(&mut mstate, 100, 200, 1, &BoundTextures::empty());
    match &r {
        Some(SelectedMod::One(_)) => assert_eq!(names_of(&mstate, 100, 200, &r).unwrap(), vec!["mod1".to_string()]),
        _ => panic!("Expected SelectedMod::One"),
    }
    let r = select(&mut mstate, 101, 201, 1, &BoundTextures::empty());
    match &r {
        Some(SelectedMod::One(_)) => assert_eq!(names_of(&mstate, 101, 201, &r).unwrap(), vec!["mod2".to_string()]),
        _ => panic!("Expected SelectedMod::One"),
    }
}

#[test]
fn test_select_parent() {
    let mut modmap: LoadedModsMap = FnvHashMap::default();
    add_mod(&mut modmap, new_mod("Mod1P", 100, 200));
    add_mod(&mut modmap, new_mod("Mod4P", 99, 200));
    let mut child = new_mod("Mod2C", 101, 201);
    child.parent_mod_names.push("Mod1P".to_string());
    add_mod(&mut modmap, child);
    let mut child = new_mod("Mod3C", 101, 201);
    child.parent_mod_names.push("Mod4P".to_string());
    add_mod(&mut modmap, child);
    let mut mstate = new_state(modmap);
    let r = select(&mut mstate, 101, 201, 1, &BoundTextures::empty());
    assert!(r.is_none());
    let pmod = get_parent(&mut mstate, "Mod1P");
    let frame = MAX_RECENT_RENDER_PARENT_THRESH + 10;
    pmod.last_frame_render = frame;
    let r = select(&mut mstate, 101, 201, frame, &BoundTextures::empty());
    assert_selected_mod_name(&mstate, 101, 201, r, "mod2c");
    let frame = frame + MAX_RECENT_RENDER_PARENT_THRESH + 10;
    let r = select(&mut mstate, 101, 201, frame, &BoundTextures::empty());
    assert!(r.is_none());
    let r = select(&mut mstate, 100, 200, frame + 60, &BoundTextures::empty());
    match r {
        Some(SelectedMod::One(i)) => {
            let key = NativeModData::mod_key(200, 100);
            let nmod = &mstate.mods[&key][i];
            assert_eq!(nmod.name, "mod1p".to_string());
            assert_eq!(nmod.last_frame_render, frame + 60);
        },
        _ => panic!("unexpected result failed"),
    }
}

#[test]
fn test_exact_parent() {
    let mut modmap: LoadedModsMap = FnvHashMap::default();
    add_mod(&mut modmap, new_mod("Mod1P", 100, 200));
    add_mod(&mut modmap, new_mod("Mod4P", 100, 200));
    let mut child = new_mod("ModC", 101, 201);
    child.parent_mod_names.push("Mod4P".to_string());
    add_mod(&mut modmap, child);
    let mut mstate = new_state(modmap);
    let pmod = get_parent(&mut mstate, "Mod1P");
    let frame = MAX_RECENT_RENDER_PARENT_THRESH + 10;
    pmod.last_frame_render = frame;
    let r = select(&mut mstate, 101, 201, frame, &BoundTextures::empty());
    assert!(r.is_none());
    let pmod = get_parent(&mut mstate, "Mod4P");
    pmod.last_frame_render = frame;
    let r = select(&mut mstate, 101, 201, frame, &BoundTextures::empty());
    match &r {
        Some(SelectedMod::One(_)) => assert_eq!(names_of(&mstate, 101, 201, &r).unwrap(), vec!["modc".to_string()]),
        _ => panic!("Expected SelectedMod::One"),
    }
}

#[test]
fn test_multi_parent() {
    let mut modmap: LoadedModsMap = FnvHashMap::default();
    add_mod(&mut modmap, new_mod("Mod1P", 100, 200));
    add_mod(&mut modmap, new_mod("mod4P", 100, 200));
    let mut child = new_mod("ModC", 101, 201);
    child.parent_mod_names.push("Mod4P".to_string());
    child.parent_mod_names.push("Mod1P".to_string());
    add_mod(&mut modmap, child);
    let mut mstate = new_state(modmap);
    let r = select(&mut mstate, 101, 201, 0, &BoundTextures::empty());
    assert!(r.is_none());
    let pmod = get_parent(&mut mstate, "Mod4p");
    let frame = MAX_RECENT_RENDER_PARENT_THRESH + 10;
    pmod.last_frame_render = frame;
    let r = select(&mut mstate, 101, 201, frame, &BoundTextures::empty());
    match &r {
        Some(SelectedMod::One(_)) => assert_eq!(names_of(&mstate, 101, 201, &r).unwrap(), vec!["modc".to_string()]),
        _ => panic!("Expected SelectedMod::One"),
    }
    let pmod = get_parent(&mut mstate, "Mod1P");
    let frame = frame + MAX_RECENT_RENDER_PARENT_THRESH + 10;
    pmod.last_frame_render = frame;
    let r = select(&mut mstate, 101, 201, frame, &BoundTextures::empty());
    match &r {
        Some(SelectedMod::One(_)) => assert_eq!(names_of(&mstate, 101, 201, &r).unwrap(), vec!["modc".to_string()]),
        _ => panic!("Expected SelectedMod::One"),
    }
}

#[test]
fn variants() {
    let mut modmap: LoadedModsMap = FnvHashMap::default();
    add_mod(&mut modmap, new_mod("Mod1", 100, 200));
    add_mod(&mut modmap, new_mod("Mod2", 100, 200));
    add_mod(&mut modmap, new_mod("ModP", 101, 201));
    let mut child = new_mod("ModC", 100, 200);
    child.parent_mod_names.push("ModP".to_string());
    add_mod(&mut modmap, child);
    let mut mstate = new_state(modmap);
    let r = select(&mut mstate, 100, 200, 0, &BoundTextures::empty());
    assert_selected_mod_name(&mstate, 100, 200, r, "modc");
    let frame = MAX_RECENT_RENDER_PARENT_THRESH + 10;
    let r = select(&mut mstate, 100, 200, frame, &BoundTextures::empty());
    assert_selected_mod_name(&mstate, 100, 200, r, "mod1");
    let mk = NativeModData::mod_key(200, 100);
    mstate.selected_variant.insert(mk, 0);
    let r = select(&mut mstate, 100, 200, frame, &BoundTextures::empty());
    assert_selected_mod_name(&mstate, 100, 200, r, "mod1");
    *mstate.selected_variant.get_mut(&mk).expect("oops") = 1;
    let r = select(&mut mstate, 100, 200, frame, &BoundTextures::empty());
    assert_selected_mod_name(&mstate, 100, 200, r, "mod2");
    *mstate.selected_variant.get_mut(&mk).expect("oops") = 2;
    let r = select(&mut mstate, 100, 200, frame, &BoundTextures::empty());
    assert!(r.is_none(), "unexpected mod");
    *mstate.selected_variant.get_mut(&mk).expect("oops") = 3;
    let r = select(&mut mstate, 100, 200, frame, &BoundTextures::empty());
    assert!(r.is_none(), "unexpected mod");
}

#[test]
fn test_variant_cycling() {
    let mut modmap: LoadedModsMap = FnvHashMap::default();
    add_mod(&mut modmap, new_mod("Variant1", 100, 200));
    add_mod(&mut modmap, new_mod("Variant2", 100, 200));
    add_mod(&mut modmap, new_mod("ParentB", 101, 201));
    let mut child = new_mod("Child", 100, 200);
    child.parent_mod_names.push("ParentB".to_string());
    add_mod(&mut modmap, child);
    let mut child = new_mod("ChildOfV3", 100, 200);
    child.parent_mod_names.push("Variant3".to_string());
    add_mod(&mut modmap, child);
    add_mod(&mut modmap, new_mod("Variant3", 100, 200));
    let mut mstate = new_state(modmap);
    let frame = MAX_RECENT_RENDER_PARENT_THRESH + 10;

    let r = select(&mut mstate, 100, 200, frame, &BoundTextures::empty());
    assert_selected_mod_name(&mstate, 100, 200, r, "variant1");
    select_next_variant(&mut mstate, frame);
    let r = select(&mut mstate, 100, 200, frame, &BoundTextures::empty());
    assert_selected_mod_name(&mstate, 100, 200, r, "variant2");
    select_next_variant(&mut mstate, frame);
    let r = select(&mut mstate, 100, 200, frame, &BoundTextures::empty());
    match &r {
        None => panic!("expected return for variant 3 case, got none"),
        Some(SelectedMod::One(_)) => panic!("expected many but got: {:?}", names_of(&mstate, 100, 200, &r)),
        Some(SelectedMod::Many(_)) => {
            let names = names_of(&mstate, 100, 200, &r).unwrap();
            assert_eq!(names, vec!["variant3", "childofv3"])
        },
    }
    select_next_variant(&mut mstate, frame);
    let r = select(&mut mstate, 100, 200, frame, &BoundTextures::empty());
    assert_selected_mod_name(&mstate, 100, 200, r, "variant1");
}

fn new_constrained_mod(name: &str, prims: i32, verts: i32, slot: usize, crc: u32) -> NativeModData {
    let mut m = new_mod(name, prims, verts);
    m.mod_data.tex_checksums[slot] = crc;
    m.mod_data.tex_checksum_mask |= 1u8 << slot;
    m
}

fn bound_with<'a>(stage: usize, ptr: usize, cmap: &'a FnvHashMap<usize, u32>) -> BoundTextures<'a> {
    let mut per_stage = [0usize; MAX_CHECKSUM_STAGES];
    per_stage[stage] = ptr;
    BoundTextures { per_stage, checksums: Some(cmap) }
}

#[test]
fn test_checksum_constrained_wins() {
    let mut modmap: LoadedModsMap = FnvHashMap::default();
    add_mod(&mut modmap, new_constrained_mod("ModA", 100, 200, 0, 0xAAAA_1111));
    add_mod(&mut modmap, new_constrained_mod("ModB", 100, 200, 0, 0xBBBB_2222));
    let mut mstate = new_state(modmap);
    let mut cmap: FnvHashMap<usize, u32> = FnvHashMap::default();
    cmap.insert(0xAAAA_0000usize, 0xAAAA_1111);
    cmap.insert(0xBBBB_0000usize, 0xBBBB_2222);
    let bound_a = bound_with(0, 0xAAAA_0000usize, &cmap);
    let r = select(&mut mstate, 100, 200, 1, &bound_a);
    assert_selected_mod_name(&mstate, 100, 200, r, "moda");
    let bound_b = bound_with(0, 0xBBBB_0000usize, &cmap);
    let r = select(&mut mstate, 100, 200, 2, &bound_b);
    assert_selected_mod_name(&mstate, 100, 200, r, "modb");
    let unknown = bound_with(0, 0xCCCC_0000usize, &cmap);
    let r = select(&mut mstate, 100, 200, 3, &unknown);
    assert!(r.is_none(), "expected no mod for unknown bound texture");
}

#[test]
fn test_checksum_fallback_to_unconstrained() {
    let mut modmap: LoadedModsMap = FnvHashMap::default();
    add_mod(&mut modmap, new_constrained_mod("ModCons", 100, 200, 0, 0xDEAD_BEEF));
    add_mod(&mut modmap, new_mod("ModUncons", 100, 200));
    let mut mstate = new_state(modmap);
    let mut cmap: FnvHashMap<usize, u32> = FnvHashMap::default();
    cmap.insert(0x1000usize, 0xDEAD_BEEF);
    let matching = bound_with(0, 0x1000usize, &cmap);
    let r = select(&mut mstate, 100, 200, 1, &matching);
    assert_selected_mod_name(&mstate, 100, 200, r, "modcons");
    let nonmatching = bound_with(0, 0x9999usize, &cmap);
    let r = select(&mut mstate, 100, 200, 2, &nonmatching);
    assert_selected_mod_name(&mstate, 100, 200, r, "moduncons");
    let r = select(&mut mstate, 100, 200, 3, &BoundTextures::empty());
    assert_selected_mod_name(&mstate, 100, 200, r, "moduncons");
}

#[test]
fn test_checksum_multi_stage_requires_all() {
    let mut modmap: LoadedModsMap = FnvHashMap::default();
    let mut m = new_mod("ModMulti", 100, 200);
    m.mod_data.tex_checksums[0] = 0x1111_1111;
    m.mod_data.tex_checksums[2] = 0x3333_3333;
    m.mod_data.tex_checksum_mask = 0b0000_0101;
    add_mod(&mut modmap, m);
    let mut mstate = new_state(modmap);
    let mut cmap: FnvHashMap<usize, u32> = FnvHashMap::default();
    cmap.insert(0xA0usize, 0x1111_1111);
    cmap.insert(0xC0usize, 0x3333_3333);
    cmap.insert(0xBADusize, 0xDEAD_DEAD);

    let mut per_stage = [0usize; MAX_CHECKSUM_STAGES];
    per_stage[0] = 0xA0;
    per_stage[2] = 0xC0;
    let bound = BoundTextures { per_stage, checksums: Some(&cmap) };
    let r = select(&mut mstate, 100, 200, 1, &bound);
    assert_selected_mod_name(&mstate, 100, 200, r, "modmulti");

    let mut per_stage = [0usize; MAX_CHECKSUM_STAGES];
    per_stage[0] = 0xA0;
    per_stage[2] = 0xBAD;
    let bound = BoundTextures { per_stage, checksums: Some(&cmap) };
    let r = select(&mut mstate, 100, 200, 2, &bound);
    assert!(r.is_none(), "partial checksum match should not select");

    let mut per_stage = [0usize; MAX_CHECKSUM_STAGES];
    per_stage[0] = 0xBAD;
    per_stage[2] = 0xC0;
    let bound = BoundTextures { per_stage, checksums: Some(&cmap) };
    let r = select(&mut mstate, 100, 200, 3, &bound);
    assert!(r.is_none(), "partial checksum match should not select");
}

#[test]
fn test_checksum_missing_map_fails_constraint() {
    let mut modmap: LoadedModsMap = FnvHashMap::default();
    add_mod(&mut modmap, new_constrained_mod("ModCons", 100, 200, 0, 0xDEAD_BEEF));
    add_mod(&mut modmap, new_mod("ModUncons", 100, 200));
    let mut mstate = new_state(modmap);
    let r = select(&mut mstate, 100, 200, 1, &BoundTextures::empty());
    assert_selected_mod_name(&mstate, 100, 200, r, "moduncons");
}

#[test]
fn test_checksum_all_constrained_no_match_yields_none() {
    let mut modmap: LoadedModsMap = FnvHashMap::default();
    add_mod(&mut modmap, new_constrained_mod("ModA", 100, 200, 0, 0xAAAA));
    add_mod(&mut modmap, new_constrained_mod("ModB", 100, 200, 0, 0xBBBB));
    let mut mstate = new_state(modmap);
    let mut cmap: FnvHashMap<usize, u32> = FnvHashMap::default();
    cmap.insert(0x10usize, 0xCCCC);
    let bound = bound_with(0, 0x10usize, &cmap);
    let r = select(&mut mstate, 100, 200, 1, &bound);
    assert!(r.is_none(), "no constrained match and no unconstrained fallback => None");
}

#[test]
fn uniq_keys() {
    let mut seen_keys: HashMap<u32, (i32, i32)> = HashMap::new();
    for prim in 0..1000 {
        for vert in 0..1000 {
            let mk = NativeModData::mod_key(vert as u32, prim as u32);
            if seen_keys.contains_key(&mk) {
                let existing = seen_keys.get(&mk).unwrap();
                panic!("key for {} already exists; curr {}p,{}v, existing: {:?}", mk, prim, vert, existing);
            }
            seen_keys.insert(mk, (prim, vert));
        }
    }
}

#[test]
fn mod_key_is_cantor_pairing() {
    // (v + p)(v + p + 1)/2 + p
    assert_eq!(NativeModData::mod_key(0, 0), 0);
    assert_eq!(NativeModData::mod_key(1, 0), 1);
    assert_eq!(NativeModData::mod_key(0, 1), 2);
    assert_eq!(NativeModData::mod_key(200, 100), 45250);
}

#[test]
fn recently_rendered_window() {
    let mut m = NativeModData::new();
    m.last_frame_render = 100;
    assert!(m.recently_rendered(100));
    assert!(m.recently_rendered(110));
    assert!(!m.recently_rendered(111));
    assert!(m.recently_rendered(50));
}

#[test]
fn child_with_two_active_parents_is_ambiguous() {
    let mut modmap: LoadedModsMap = FnvHashMap::default();
    add_mod(&mut modmap, new_mod("Mod1P", 100, 200));
    add_mod(&mut modmap, new_mod("Mod4P", 100, 200));
    let mut child = new_mod("ModC", 101, 201);
    child.parent_mod_names.push("Mod4P".to_string());
    child.parent_mod_names.push("Mod1P".to_string());
    add_mod(&mut modmap, child);
    let mut mstate = new_state(modmap);
    let frame = MAX_RECENT_RENDER_PARENT_THRESH + 10;
    get_parent(&mut mstate, "Mod1P").last_frame_render = frame;
    get_parent(&mut mstate, "Mod4P").last_frame_render = frame;
    let snapshot = |st: &LoadedModState| -> Vec<(u32, String, u64)> {
        let mut v: Vec<(u32, String, u64)> = st
            .mods
            .iter()
            .flat_map(|(k, ms)| ms.iter().map(move |m| (*k, m.name.clone(), m.last_frame_render)))
            .collect();
        v.sort();
        v
    };
    let before = snapshot(&mstate);
    let r = select(&mut mstate, 101, 201, frame, &BoundTextures::empty());
    assert!(r.is_none());
    assert_eq!(snapshot(&mstate), before);
}

#[test]
fn exactly_the_returned_mods_are_marked_drawn() {
    let mut modmap: LoadedModsMap = FnvHashMap::default();
    add_mod(&mut modmap, new_mod("Var", 50, 60));
    let mut child = new_mod("VarDetail", 50, 60);
    child.parent_mod_names.push("Var".to_string());
    add_mod(&mut modmap, child);
    add_mod(&mut modmap, new_mod("Other", 70, 80));
    let mut mstate = new_state(modmap);
    let frame = 10 * MAX_RECENT_RENDER_PARENT_THRESH + 7;
    let r = select(&mut mstate, 50, 60, frame, &BoundTextures::empty());
    let key = NativeModData::mod_key(60, 50);
    let picked = match &r {
        Some(SelectedMod::Many(v)) => v.clone(),
        _ => panic!("expected the variant and its child"),
    };
    assert_eq!(picked, vec![0, 1]);
    assert_eq!(names_of(&mstate, 50, 60, &r).unwrap(), vec!["var".to_string(), "vardetail".to_string()]);
    for (i, m) in mstate.mods[&key].iter().enumerate() {
        assert_eq!(m.last_frame_render == frame, picked.contains(&i));
    }
    let other = NativeModData::mod_key(80, 70);
    assert_eq!(mstate.mods[&other][0].last_frame_render, 0);
}
