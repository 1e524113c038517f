//! Building the database of loaded mods from the records the managed side
//! loaded.
//!
//! Mod names are trimmed and lowercased (names are case insensitive).  A
//! mod's parent text is a list of parent names separated by white space (the
//! mod may be drawn under any one of them); each is lowercased.  Each
//! mod is stored under the key of the reference geometry it applies to.  A
//! deletion mod is indexed by its name followed by its reference primitive and
//! vertex counts, since one mod may delete several pieces of geometry.  A name
//! that was already indexed keeps its first mod.  A mod whose name some mod
//! lists as its parent, and that the name index leads to, is marked as a
//! parent.
use vstd::prelude::*;
use fnv::FnvHashMap;
use crate::native_mod::{NativeModData, ModData, ModD3DState, ModType, cantor, mod_key_fits};
use crate::loaded_mods::LoadedModState;
use crate::fnv_maps::{
    fnv_map_new,
    fnv_map_get,
    fnv_map_insert,
    fnv_map_remove,
    fnv_map_keys,
    name_map_new,
    name_map_get,
    name_map_insert,
    name_index,
};
use crate::strings::{trim, to_lowercase, trimmed, lowercase, words, split_words};
use crate::text::{signed_decimal, push_i32_decimal};
use crate::dx11rs::DX11RenderState;

verus! {

/// A mod as the managed side hands it over: its index, its name and the
/// name of its parent (as text), and its data.
pub struct ModRecord {
    pub midx: i32,
    pub name: String,
    pub parent_name: String,
    pub data: ModData,
}

/// Mod types the renderer supports: GPU replacement, GPU additive and deletion.
pub open spec fn supported_type(t: i32) -> bool {
    t == ModType::GPUReplacement.spec_code() || t == ModType::GPUPertubation.spec_code() || t
        == ModType::Deletion.spec_code()
}

/// The record's mod name: trimmed and lowercased.
pub open spec fn rec_name(r: ModRecord) -> Seq<char> {
    lowercase(trimmed(r.name@))
}

/// The record's parent names: the words of its parent text (separated by
/// white space), each lowercased; none if the text is blank.
pub open spec fn rec_parents(r: ModRecord) -> Seq<Seq<char>> {
    words(r.parent_name@).map_values(|w: Seq<char>| lowercase(w))
}

/// The name the record is indexed by: a deletion mod's name gets its
/// reference primitive and vertex counts appended.
pub open spec fn index_name(r: ModRecord) -> Seq<char> {
    index_name_for(rec_name(r), r)
}

/// The name a record whose normalized name is `name` is indexed by.
pub open spec fn index_name_for(name: Seq<char>, r: ModRecord) -> Seq<char> {
    if r.data.numbers.mod_type == ModType::Deletion.spec_code() {
        name + "_"@ + signed_decimal(r.data.numbers.ref_prim_count as int) + "_"@ + signed_decimal(
            r.data.numbers.ref_vert_count as int,
        )
    } else {
        name
    }
}

/// The key of the reference geometry the record's mod applies to.
pub open spec fn rec_key(r: ModRecord) -> u32 {
    cantor(
        r.data.numbers.ref_vert_count as u32 as int,
        r.data.numbers.ref_prim_count as u32 as int,
    ) as u32
}

/// What a loaded mod is made of: index, data, name and parent names.
pub open spec fn summary(n: NativeModData) -> (i32, ModData, Seq<char>, Seq<Seq<char>>) {
    (n.midx, n.mod_data, n.name@, n.parent_mod_names@.map_values(|s: String| s@))
}

pub open spec fn rec_summary(r: ModRecord) -> (i32, ModData, Seq<char>, Seq<Seq<char>>) {
    (r.midx, r.data, rec_name(r), rec_parents(r))
}

/// The database being built: the mods by key, the name index and the names
/// referenced as parents.
pub type SetupState = (
    Map<u32, Seq<(i32, ModData, Seq<char>, Seq<Seq<char>>)>>,
    Map<Seq<char>, u32>,
    Set<Seq<char>>,
);

/// The database after one more record.
pub open spec fn setup_step(st: SetupState, r: ModRecord) -> SetupState {
    if !supported_type(r.data.numbers.mod_type) {
        st
    } else {
        let k = rec_key(r);
        let prev = if st.0.contains_key(k) {
            st.0[k]
        } else {
            Seq::empty()
        };
        let names = if rec_name(r).len() > 0 && !st.1.contains_key(index_name(r)) {
            st.1.insert(index_name(r), k)
        } else {
            st.1
        };
        (st.0.insert(k, prev.push(rec_summary(r))), names, st.2 + rec_parents(r).to_set())
    }
}

/// The database after the records, in order.
pub open spec fn setup_fold(records: Seq<ModRecord>) -> SetupState
    decreases records.len(),
{
    if records.len() == 0 {
        (Map::empty(), Map::empty(), Set::empty())
    } else {
        setup_step(setup_fold(records.drop_last()), records.last())
    }
}

/// The mod named `name` stored under key `k` is a parent: some mod names it
/// as its parent and the name index leads to `k`.
pub open spec fn marked_parent(st: SetupState, k: u32, name: Seq<char>) -> bool {
    st.2.contains(name) && st.1.contains_key(name) && st.1[name] == k
}

/// Every supported record's key can be computed within `u32`.
pub open spec fn keys_fit(records: Seq<ModRecord>) -> bool {
    forall|i: int|
        0 <= i < records.len() && supported_type(#[trigger] records[i].data.numbers.mod_type)
            ==> mod_key_fits(
            records[i].data.numbers.ref_vert_count as u32,
            records[i].data.numbers.ref_prim_count as u32,
        )
}

/// `s` holds the database built from `records`.
pub open spec fn built_from(s: LoadedModState, records: Seq<ModRecord>) -> bool {
    let st = setup_fold(records);
    &&& forall|k: u32| #[trigger] s.mods@.contains_key(k) <==> st.0.contains_key(k)
    &&& forall|k: u32|
        #[trigger] st.0.contains_key(k) ==> {
            &&& s.mods@[k]@.len() == st.0[k].len()
            &&& forall|j: int|
                0 <= j < st.0[k].len() ==> {
                    &&& summary(#[trigger] s.mods@[k]@[j]) == st.0[k][j]
                    &&& s.mods@[k]@[j].is_parent == marked_parent(st, k, st.0[k][j].2)
                    &&& s.mods@[k]@[j].d3d_data == ModD3DState::Unloaded
                    &&& s.mods@[k]@[j].last_frame_render == 0
                }
        }
    &&& name_index(s.mods_by_name) == st.1
    &&& s.selected_variant@.dom() == Set::<u32>::empty()
}

/// The mods in `m` are those of `st0`, not yet marked as parents.
pub open spec fn mods_match(
    m: Map<u32, Vec<NativeModData>>,
    st0: Map<u32, Seq<(i32, ModData, Seq<char>, Seq<Seq<char>>)>>,
) -> bool {
    &&& forall|k: u32| #[trigger] m.contains_key(k) <==> st0.contains_key(k)
    &&& forall|k: u32|
        #[trigger] st0.contains_key(k) ==> {
            &&& m[k]@.len() == st0[k].len()
            &&& forall|j: int|
                0 <= j < st0[k].len() ==> {
                    &&& summary(#[trigger] m[k]@[j]) == st0[k][j]
                    &&& !m[k]@[j].is_parent
                    &&& m[k]@[j].d3d_data == ModD3DState::Unloaded
                    &&& m[k]@[j].last_frame_render == 0
                }
        }
}

pub open spec fn string_views(s: Seq<String>) -> Seq<Seq<char>> {
    s.map_values(|x: String| x@)
}

/// The deletion mod's index name, from its name (already trimmed and
/// lowercased): name, `_`, reference primitive count, `_`, reference vertex
/// count, the counts in decimal.
pub fn deletion_name(name: &String, ref_prim: i32, ref_vert: i32) -> (r: String)
    ensures
        r@ == name@ + "_"@ + signed_decimal(ref_prim as int) + "_"@ + signed_decimal(ref_vert as int),
{
    let mut s = name.clone();
    s.append("_");
    push_i32_decimal(&mut s, ref_prim);
    s.append("_");
    push_i32_decimal(&mut s, ref_vert);
    s
}

/// The name a record whose name, already trimmed and lowercased, is `name`
/// is indexed by: a deletion mod's name gets its reference counts appended.
pub fn index_name_of(name: &String, r: &ModRecord) -> (s: String)
    ensures
        s@ == index_name_for(name@, *r),
{
    if r.data.numbers.mod_type == ModType::Deletion.code() {
        deletion_name(name, r.data.numbers.ref_prim_count, r.data.numbers.ref_vert_count)
    } else {
        name.clone()
    }
}

/// The loaded mod made from a record, given its name and parent names
/// already trimmed and lowercased: not marked as a parent, without device
/// resources, never drawn.
pub fn new_loaded_mod(r: &ModRecord, name: String, parents: Vec<String>) -> (m: NativeModData)
    ensures
        summary(m) == (r.midx, r.data, name@, string_views(parents@)),
        !m.is_parent,
        m.d3d_data == ModD3DState::Unloaded,
        m.last_frame_render == 0,
{
    NativeModData {
        midx: r.midx,
        mod_data: r.data,
        d3d_data: ModD3DState::Unloaded,
        is_parent: false,
        parent_mod_names: parents,
        last_frame_render: 0,
        name,
    }
}

/// The parent names of a parent text: its words (separated by white space),
/// each lowercased, in order.
pub fn parent_names(text: &str) -> (r: Vec<String>)
    ensures
        string_views(r@) == words(text@).map_values(|w: Seq<char>| lowercase(w)),
{
    let ws = split_words(text);
    let mut out: Vec<String> = Vec::new();
    let mut i: usize = 0;
    while i < ws.len()
        invariant
            i <= ws@.len(),
            ws@.map_values(|w: String| w@) == words(text@),
            string_views(out@) == words(text@).take(i as int).map_values(|w: Seq<char>| lowercase(w)),
        decreases ws@.len() - i,
    {
        let l = to_lowercase(ws[i].as_str());
        let ghost before = string_views(out@);
        out.push(l);
        proof {
            let wv = words(text@);
            assert(wv[i as int] == ws@[i as int]@);
            assert(string_views(out@) =~= before.push(lowercase(wv[i as int])));
            assert(wv.take(i + 1).map_values(|w: Seq<char>| lowercase(w)) =~= wv.take(i as int).map_values(
                |w: Seq<char>| lowercase(w),
            ).push(lowercase(wv[i as int])));
        }
        i = i + 1;
    }
    proof {
        assert(words(text@).take(ws@.len() as int) =~= words(text@));
    }
    out
}

/// Appends copies of `names` to `v`.
fn append_names(v: &mut Vec<String>, names: &Vec<String>)
    ensures
        string_views(final(v)@) == string_views(old(v)@) + string_views(names@),
{
    let ghost v0 = string_views(v@);
    let mut i: usize = 0;
    while i < names.len()
        invariant
            i <= names@.len(),
            string_views(v@) == v0 + string_views(names@).take(i as int),
        decreases names@.len() - i,
    {
        let ghost before = string_views(v@);
        v.push(names[i].clone());
        proof {
            assert(string_views(v@) =~= before.push(names@[i as int]@));
            assert(string_views(names@).take(i + 1) =~= string_views(names@).take(i as int).push(
                names@[i as int]@,
            ));
            assert(v0 + string_views(names@).take(i + 1) =~= (v0 + string_views(names@).take(
                i as int,
            )).push(names@[i as int]@));
        }
        i = i + 1;
    }
    proof {
        assert(string_views(names@).take(names@.len() as int) =~= string_views(names@));
    }
}

fn contains_name(v: &Vec<String>, name: &String) -> (r: bool)
    ensures
        r == string_views(v@).contains(name@),
{
    let mut i: usize = 0;
    while i < v.len()
        invariant
            i <= v@.len(),
            forall|j: int| 0 <= j < i ==> v@[j]@ != name@,
        decreases v@.len() - i,
    {
        if v[i] == *name {
            proof {
                assert(string_views(v@)[i as int] == name@);
            }
            return true;
        }
        i = i + 1;
    }
    proof {
        if string_views(v@).contains(name@) {
            let j = choose|j: int| 0 <= j < string_views(v@).len() && string_views(v@)[j] == name@;
            assert(v@[j]@ == name@);
        }
    }
    false
}

/// The mods of the records by key, the name index and the parent names.
fn collect_mods(records: &Vec<ModRecord>) -> (r: (
    FnvHashMap<u32, Vec<NativeModData>>,
    FnvHashMap<String, u32>,
    Vec<String>,
))
    requires
        keys_fit(records@),
    ensures
        mods_match(r.0@, setup_fold(records@).0),
        name_index(r.1) == setup_fold(records@).1,
        string_views(r.2@).to_set() == setup_fold(records@).2,
{
    let mut mods: FnvHashMap<u32, Vec<NativeModData>> = fnv_map_new();
    let mut names: FnvHashMap<String, u32> = name_map_new();
    let mut parents: Vec<String> = Vec::new();
    let mut i: usize = 0;
    proof {
        assert(records@.take(0) =~= Seq::<ModRecord>::empty());
        assert(string_views(parents@).to_set() =~= Set::<Seq<char>>::empty());
        assert(mods_match(mods@, Map::empty()));
        assert(name_index(names) =~= Map::<Seq<char>, u32>::empty());
    }
    while i < records.len()
        invariant
            i <= records@.len(),
            keys_fit(records@),
            mods_match(mods@, setup_fold(records@.take(i as int)).0),
            name_index(names) == setup_fold(records@.take(i as int)).1,
            string_views(parents@).to_set() == setup_fold(records@.take(i as int)).2,
        decreases records@.len() - i,
    {
        let ghost st = setup_fold(records@.take(i as int));
        let r = &records[i];
        proof {
            assert(records@.take(i + 1).drop_last() =~= records@.take(i as int));
            assert(records@.take(i + 1).last() == *r);
        }
        let t = r.data.numbers.mod_type;
        if t == 3 || t == 4 || t == 5 {
            proof {
                assert(supported_type(records@[i as int].data.numbers.mod_type));
            }
            let name = to_lowercase(trim(r.name.as_str()));
            let plist = parent_names(r.parent_name.as_str());
            let key = NativeModData::mod_key(
                r.data.numbers.ref_vert_count as u32,
                r.data.numbers.ref_prim_count as u32,
            );
            proof {
                assert(key == rec_key(*r));
            }
            if !name.as_str().is_empty() {
                let iname = index_name_of(&name, r);
                proof {
                    assert(iname@ == index_name(*r));
                }
                if name_map_get(&names, iname.as_str()).is_none() {
                    name_map_insert(&mut names, iname, key);
                }
            }
            let ghost pv0 = string_views(parents@);
            append_names(&mut parents, &plist);
            proof {
                let nv = string_views(parents@);
                let ps = rec_parents(*r);
                assert(nv =~= pv0 + ps);
                assert(nv.to_set() =~= st.2 + ps.to_set()) by {
                    assert forall|x: Seq<char>| nv.to_set().contains(x) <==> (st.2
                        + ps.to_set()).contains(x) by {
                        assert(st.2.contains(x) <==> pv0.contains(x));
                        if nv.contains(x) {
                            let j = choose|j: int| 0 <= j < nv.len() && nv[j] == x;
                            if j < pv0.len() {
                                assert(pv0[j] == x);
                            } else {
                                assert(ps[j - pv0.len()] == x);
                            }
                        }
                        if pv0.contains(x) {
                            let j = choose|j: int| 0 <= j < pv0.len() && pv0[j] == x;
                            assert(nv[j] == x);
                        }
                        if ps.contains(x) {
                            let j = choose|j: int| 0 <= j < ps.len() && ps[j] == x;
                            assert(nv[pv0.len() + j] == x);
                        }
                    }
                }
            }
            let nmd = new_loaded_mod(r, name, plist);
            proof {
                assert(summary(nmd) == rec_summary(*r));
            }
            let ghost m0 = mods@;
            let prev = fnv_map_remove(&mut mods, key);
            let mut v = match prev {
                Some(v) => v,
                None => Vec::new(),
            };
            let ghost vprev = v@;
            v.push(nmd);
            fnv_map_insert(&mut mods, key, v);
            proof {
                let st1 = setup_fold(records@.take(i + 1));
                assert(st1 == setup_step(st, *r));
                let pseq = if st.0.contains_key(key) {
                    st.0[key]
                } else {
                    Seq::empty()
                };
                assert(vprev.len() == pseq.len());
                assert(mods@ == m0.remove(key).insert(key, v));
                assert forall|k: u32| #[trigger] st1.0.contains_key(k) implies {
                    &&& mods@[k]@.len() == st1.0[k].len()
                    &&& forall|j: int|
                        0 <= j < st1.0[k].len() ==> {
                            &&& summary(#[trigger] mods@[k]@[j]) == st1.0[k][j]
                            &&& !mods@[k]@[j].is_parent
                            &&& mods@[k]@[j].d3d_data == ModD3DState::Unloaded
                            &&& mods@[k]@[j].last_frame_render == 0
                        }
                } by {
                    if k == key {
                        assert forall|j: int| 0 <= j < st1.0[k].len() implies {
                            &&& summary(#[trigger] mods@[k]@[j]) == st1.0[k][j]
                            &&& !mods@[k]@[j].is_parent
                            &&& mods@[k]@[j].d3d_data == ModD3DState::Unloaded
                            &&& mods@[k]@[j].last_frame_render == 0
                        } by {
                            if j < pseq.len() {
                                assert(mods@[k]@[j] == vprev[j]);
                                assert(st1.0[k][j] == pseq[j]);
                                assert(st.0.contains_key(k));
                                assert(vprev[j] == m0[k]@[j]);
                            }
                        }
                    }
                }
                assert(mods_match(mods@, st1.0));
            }
        } else {
            proof {
                assert(!supported_type(records@[i as int].data.numbers.mod_type));
            }
        }
        i = i + 1;
    }
    proof {
        assert(records@.take(records@.len() as int) =~= records@);
    }
    (mods, names, parents)
}

/// The mods stored under `k` in `v` are those of the database, marked as
/// parents (or not) as `marked` says.
pub open spec fn key_done(v: Seq<NativeModData>, st: SetupState, k: u32, marked: bool) -> bool {
    &&& v.len() == st.0[k].len()
    &&& forall|j: int|
        0 <= j < st.0[k].len() ==> {
            &&& summary(#[trigger] v[j]) == st.0[k][j]
            &&& v[j].is_parent == (marked && marked_parent(st, k, st.0[k][j].2))
            &&& v[j].d3d_data == ModD3DState::Unloaded
            &&& v[j].last_frame_render == 0
        }
}

fn mark_parents(
    mods: &mut FnvHashMap<u32, Vec<NativeModData>>,
    names: &FnvHashMap<String, u32>,
    parents: &Vec<String>,
    Ghost(st): Ghost<SetupState>,
)
    requires
        mods_match(old(mods)@, st.0),
        name_index(*names) == st.1,
        string_views(parents@).to_set() == st.2,
    ensures
        forall|k: u32| #[trigger] final(mods)@.contains_key(k) <==> st.0.contains_key(k),
        forall|k: u32| #[trigger] st.0.contains_key(k) ==> key_done(final(mods)@[k]@, st, k, true),
{
    let keys = fnv_map_keys(mods);
    let mut i: usize = 0;
    proof {
        assert forall|k: u32| #[trigger] st.0.contains_key(k) implies key_done(mods@[k]@, st, k, false) by {}
    }
    while i < keys.len()
        invariant
            i <= keys@.len(),
            keys@.no_duplicates(),
            forall|k: u32| #[trigger] keys@.contains(k) <==> st.0.contains_key(k),
            forall|k: u32| #[trigger] mods@.contains_key(k) <==> st.0.contains_key(k),
            name_index(*names) == st.1,
            string_views(parents@).to_set() == st.2,
            forall|k: u32|
                #[trigger] st.0.contains_key(k) ==> key_done(
                    mods@[k]@,
                    st,
                    k,
                    keys@.take(i as int).contains(k),
                ),
        decreases keys@.len() - i,
    {
        let k = keys[i];
        proof {
            assert(keys@.contains(k));
            assert(!keys@.take(i as int).contains(k)) by {
                if keys@.take(i as int).contains(k) {
                    let j = choose|j: int| 0 <= j < i && #[trigger] keys@.take(i as int)[j] == k;
                    assert(keys@[j] == keys@[i as int]);
                }
            }
            assert forall|x: u32| #[trigger] keys@.take(i + 1).contains(x) <==> (keys@.take(i as int).contains(
                x,
            ) || x == k) by {
                if keys@.take(i + 1).contains(x) {
                    let j = choose|j: int| 0 <= j < i + 1 && #[trigger] keys@.take(i + 1)[j] == x;
                    if j < i {
                        assert(keys@.take(i as int)[j] == x);
                    }
                }
                if keys@.take(i as int).contains(x) {
                    let j = choose|j: int| 0 <= j < i && #[trigger] keys@.take(i as int)[j] == x;
                    assert(keys@.take(i + 1)[j] == x);
                }
                if x == k {
                    assert(keys@.take(i + 1)[i as int] == x);
                }
            }
        }
        let ghost m0 = mods@;
        let removed = fnv_map_remove(mods, k);
        let mut v = match removed {
            Some(v) => v,
            None => Vec::new(),
        };
        let ghost v0 = v@;
        proof {
            assert(v0 == m0[k]@);
            assert(key_done(v0, st, k, false));
        }
        let mut nv: Vec<NativeModData> = Vec::new();
        let n = v.len();
        let mut j: usize = 0;
        while j < n
            invariant
                n == v0.len(),
                j <= n,
                v@ == v0.skip(j as int),
                nv@.len() == j,
                key_done(v0, st, k, false),
                st.0.contains_key(k),
                name_index(*names) == st.1,
                string_views(parents@).to_set() == st.2,
                forall|q: int|
                    0 <= q < j ==> {
                        &&& summary(#[trigger] nv@[q]) == st.0[k][q]
                        &&& nv@[q].is_parent == marked_parent(st, k, st.0[k][q].2)
                        &&& nv@[q].d3d_data == ModD3DState::Unloaded
                        &&& nv@[q].last_frame_render == 0
                    },
            decreases n - j,
        {
            let mut m = v.remove(0);
            proof {
                assert(m == v0[j as int]);
                assert(v@ =~= v0.skip(j + 1));
                assert(summary(v0[j as int]) == st.0[k][j as int]);
            }
            let in_parents = contains_name(parents, &m.name);
            let indexed_here = match name_map_get(names, m.name.as_str()) {
                Some(kk) => kk == k,
                None => false,
            };
            proof {
                assert(string_views(parents@).contains(m.name@) == st.2.contains(m.name@));
            }
            m.is_parent = in_parents && indexed_here;
            nv.push(m);
            j = j + 1;
        }
        fnv_map_insert(mods, k, nv);
        proof {
            assert forall|k2: u32| #[trigger] st.0.contains_key(k2) implies key_done(
                mods@[k2]@,
                st,
                k2,
                keys@.take(i + 1).contains(k2),
            ) by {
                if k2 != k {
                    assert(mods@[k2] == m0[k2]);
                }
            }
        }
        i = i + 1;
    }
    proof {
        assert(keys@.take(keys@.len() as int) =~= keys@);
    }
}

/// The database of the loaded mods, given the number of mods the managed
/// side reports and, in order, the records it handed over for them (the
/// ones it had data for).  A count of zero or less means there are no mods
/// and no database (`None`); otherwise the database is built from the
/// records as the module's description says; unsupported mod types are
/// skipped.
pub fn setup_mod_data(mod_count: i32, records: &Vec<ModRecord>) -> (r: Option<LoadedModState>)
    requires
        mod_count > 0 ==> keys_fit(records@),
    ensures
        mod_count <= 0 ==> r is None,
        mod_count > 0 ==> (r matches Some(s) && built_from(s, records@)),
{
    if mod_count <= 0 {
        return None;
    }
    Some(build_mod_data(records))
}

fn build_mod_data(records: &Vec<ModRecord>) -> (s: LoadedModState)
    requires
        keys_fit(records@),
    ensures
        built_from(s, records@),
{
    let (mut mods, names, parents) = collect_mods(records);
    let ghost st = setup_fold(records@);
    mark_parents(&mut mods, &names, &parents, Ghost(st));
    let s = LoadedModState { mods, mods_by_name: names, selected_variant: fnv_map_new() };
    proof {
        assert forall|k: u32| #[trigger] st.0.contains_key(k) implies {
            &&& s.mods@[k]@.len() == st.0[k].len()
            &&& forall|j: int|
                0 <= j < st.0[k].len() ==> {
                    &&& summary(#[trigger] s.mods@[k]@[j]) == st.0[k][j]
                    &&& s.mods@[k]@[j].is_parent == marked_parent(st, k, st.0[k][j].2)
                    &&& s.mods@[k]@[j].d3d_data == ModD3DState::Unloaded
                    &&& s.mods@[k]@[j].last_frame_render == 0
                }
        } by {
            assert(key_done(s.mods@[k]@, st, k, true));
        }
    }
    s
}

/// Position of the first mod named `name` in `v`, or -1.
pub open spec fn first_named(v: Seq<NativeModData>, name: Seq<char>) -> int
    decreases v.len(),
{
    if v.len() == 0 {
        -1
    } else {
        let i = first_named(v.drop_last(), name);
        if i >= 0 {
            i
        } else if v.last().name@ == name {
            v.len() - 1
        } else {
            -1
        }
    }
}

proof fn lemma_first_named(v: Seq<NativeModData>, name: Seq<char>)
    ensures
        -1 <= first_named(v, name) < v.len(),
        first_named(v, name) >= 0 ==> v[first_named(v, name)].name@ == name,
        forall|j: int|
            0 <= j < v.len() && (first_named(v, name) < 0 || j < first_named(v, name)) ==> v[j].name@
                != name,
    decreases v.len(),
{
    if v.len() > 0 {
        lemma_first_named(v.drop_last(), name);
        assert forall|j: int| 0 <= j < v.len() - 1 implies v.drop_last()[j] == v[j] by {}
    }
}

/// The mod named `name` in the database, if the name index and the mods
/// under its key lead to one (see `get_mod_by_name`).
pub open spec fn find_spec(name: Seq<char>, s: LoadedModState) -> Option<(u32, usize)> {
    let idx = name_index(s.mods_by_name);
    if idx.contains_key(name) && s.mods@.contains_key(idx[name]) && first_named(
        s.mods@[idx[name]]@,
        name,
    ) >= 0 {
        Some((idx[name], first_named(s.mods@[idx[name]]@, name) as usize))
    } else {
        None
    }
}

fn find_mod(name: &str, s: &LoadedModState) -> (r: Option<(u32, usize)>)
    ensures
        r == find_spec(name@, *s),
        r matches Some((k, j)) ==> s.mods@.contains_key(k) && j < s.mods@[k]@.len(),
{
    let k = match name_map_get(&s.mods_by_name, name) {
        Some(k) => k,
        None => {
            return None;
        },
    };
    let v = match fnv_map_get(&s.mods, k) {
        Some(v) => v,
        None => {
            return None;
        },
    };
    let target = String::from_str(name);
    let mut j: usize = 0;
    while j < v.len()
        invariant
            j <= v@.len(),
            target@ == name@,
            name_index(s.mods_by_name).contains_key(name@),
            name_index(s.mods_by_name)[name@] == k,
            s.mods@.contains_key(k),
            *v == s.mods@[k],
            forall|q: int| 0 <= q < j ==> v@[q].name@ != name@,
        decreases v@.len() - j,
    {
        if v[j].name == target {
            proof {
                lemma_first_named(v@, name@);
                let f = first_named(v@, name@);
                if f < 0 || f > j {
                    assert(v@[j as int].name@ != name@);
                }
                if 0 <= f < j {
                    assert(v@[f].name@ == name@);
                }
                assert(f == j);
            }
            return Some((k, j));
        }
        j = j + 1;
    }
    proof {
        lemma_first_named(v@, name@);
        let f = first_named(v@, name@);
        if f >= 0 {
            assert(v@[f].name@ == name@);
        }
    }
    None
}

/// Where the mod named `name` is: the key the name index gives for it, and
/// the position of the first mod with that name under the key.  `None` if
/// there is no database, the name is not indexed, or no mod under its key
/// has that name.
pub fn get_mod_by_name(name: &str, loaded_mods: &Option<LoadedModState>) -> (r: Option<(u32, usize)>)
    ensures
        match loaded_mods {
            None => r is None,
            Some(s) => r == find_spec(name@, *s),
        },
{
    match loaded_mods {
        Some(s) => find_mod(name, s),
        None => None,
    }
}

/// The positions of the named mods that still need their D3D resources
/// created, in the order of `names`: each name that is found (see
/// `find_spec`), unless that mod is loaded already.
pub open spec fn to_load(names: Seq<Seq<char>>, s: LoadedModState) -> Seq<(u32, usize)>
    decreases names.len(),
{
    if names.len() == 0 {
        Seq::empty()
    } else {
        let prev = to_load(names.drop_last(), s);
        match find_spec(names.last(), s) {
            Some((k, j)) => if s.mods@[k]@[j as int].d3d_data != ModD3DState::Loaded {
                prev.push((k, j))
            } else {
                prev
            },
            None => prev,
        }
    }
}

/// What is loaded for the queued names: every entry is a named mod that was
/// found and is not loaded yet (unloaded or only partly loaded), and every
/// name that is found and not loaded yet gets its entry.
pub proof fn lemma_to_load_meaning(names: Seq<Seq<char>>, s: LoadedModState)
    ensures
        forall|q: int|
            0 <= q < to_load(names, s).len() ==> s.mods@[(#[trigger] to_load(names, s)[q]).0]@[to_load(
                names,
                s,
            )[q].1 as int].d3d_data != ModD3DState::Loaded,
        forall|i: int|
            0 <= i < names.len() ==> (#[trigger] find_spec(names[i], s) matches Some(p) ==> (
            s.mods@[p.0]@[p.1 as int].d3d_data != ModD3DState::Loaded ==> to_load(names, s).contains(p))),
        forall|q: int|
            0 <= q < to_load(names, s).len() ==> exists|i: int|
                0 <= i < names.len() && find_spec(names[i], s) == Some(#[trigger] to_load(names, s)[q]),
    decreases names.len(),
{
    if names.len() > 0 {
        let prev_names = names.drop_last();
        lemma_to_load_meaning(prev_names, s);
        let prev = to_load(prev_names, s);
        let cur = to_load(names, s);
        let last = names.len() - 1;
        assert forall|q: int| 0 <= q < cur.len() implies s.mods@[(#[trigger] cur[q]).0]@[cur[q].1 as int].d3d_data
            != ModD3DState::Loaded by {
            if q < prev.len() {
                assert(cur[q] == prev[q]);
            }
        }
        assert forall|i: int| 0 <= i < names.len() implies (#[trigger] find_spec(names[i], s) matches Some(
            p,
        ) ==> (s.mods@[p.0]@[p.1 as int].d3d_data != ModD3DState::Loaded ==> cur.contains(p))) by {
            if i < last {
                assert(names[i] == prev_names[i]);
                match find_spec(names[i], s) {
                    Some(p) => {
                        if s.mods@[p.0]@[p.1 as int].d3d_data != ModD3DState::Loaded {
                            assert(prev.contains(p));
                            let k = choose|k: int| 0 <= k < prev.len() && prev[k] == p;
                            assert(cur[k] == p);
                        }
                    },
                    None => {},
                }
            } else {
                match find_spec(names[i], s) {
                    Some(p) => {
                        if s.mods@[p.0]@[p.1 as int].d3d_data != ModD3DState::Loaded {
                            assert(cur[prev.len() as int] == p);
                        }
                    },
                    None => {},
                }
            }
        }
        assert forall|q: int| 0 <= q < cur.len() implies exists|i: int|
            0 <= i < names.len() && find_spec(names[i], s) == Some(#[trigger] cur[q]) by {
            if q < prev.len() {
                assert(cur[q] == prev[q]);
                let i = choose|i: int| 0 <= i < prev_names.len() && find_spec(prev_names[i], s) == Some(prev[q]);
                assert(names[i] == prev_names[i]);
            } else {
                assert(find_spec(names[last], s) == Some(cur[q]));
            }
        }
    }
}

/// The mods to load for the names queued for loading (see `to_load`).
pub fn mods_to_load(names: &Vec<String>, s: &LoadedModState) -> (r: Vec<(u32, usize)>)
    ensures
        r@ == to_load(string_views(names@), *s),
        forall|q: int|
            0 <= q < r@.len() ==> s.mods@.contains_key(#[trigger] r@[q].0) && r@[q].1 < s.mods@[r@[q].0]@.len(),
        forall|q: int|
            0 <= q < r@.len() ==> s.mods@[(#[trigger] r@[q]).0]@[r@[q].1 as int].d3d_data
                != ModD3DState::Loaded,
        forall|i: int|
            0 <= i < names@.len() ==> (#[trigger] find_spec(names@[i]@, *s) matches Some(p) ==> (
            s.mods@[p.0]@[p.1 as int].d3d_data != ModD3DState::Loaded ==> r@.contains(p))),
        forall|q: int|
            0 <= q < r@.len() ==> exists|i: int|
                0 <= i < names@.len() && find_spec(names@[i]@, *s) == Some(#[trigger] r@[q]),
{
    proof {
        lemma_to_load_meaning(string_views(names@), *s);
    }
    let mut r: Vec<(u32, usize)> = Vec::new();
    let mut i: usize = 0;
    proof {
        assert(string_views(names@).take(0) =~= Seq::<Seq<char>>::empty());
    }
    while i < names.len()
        invariant
            i <= names@.len(),
            r@ == to_load(string_views(names@).take(i as int), *s),
            forall|q: int|
                0 <= q < r@.len() ==> s.mods@.contains_key(#[trigger] r@[q].0) && r@[q].1 < s.mods@[r@[q].0]@.len(),
        decreases names@.len() - i,
    {
        proof {
            assert(string_views(names@).take(i + 1).drop_last() =~= string_views(names@).take(i as int));
            assert(string_views(names@).take(i + 1).last() == names@[i as int]@);
        }
        match find_mod(names[i].as_str(), s) {
            Some((k, j)) => {
                let v = match fnv_map_get(&s.mods, k) {
                    Some(v) => v,
                    None => {
                        proof {
                            assert(false);
                        }
                        return r;
                    },
                };
                if !v[j].is_loaded() {
                    r.push((k, j));
                }
            },
            None => {},
        }
        i = i + 1;
    }
    proof {
        assert(string_views(names@).take(names@.len() as int) =~= string_views(names@));
        assert forall|i: int| 0 <= i < names@.len() implies (#[trigger] find_spec(names@[i]@, *s) matches Some(
            p,
        ) ==> (s.mods@[p.0]@[p.1 as int].d3d_data != ModD3DState::Loaded ==> r@.contains(p))) by {
            assert(string_views(names@)[i] == names@[i]@);
        }
        assert forall|q: int| 0 <= q < r@.len() implies exists|i: int|
            0 <= i < names@.len() && find_spec(names@[i]@, *s) == Some(#[trigger] r@[q]) by {
            let i = choose|i: int|
                0 <= i < string_views(names@).len() && find_spec(string_views(names@)[i], *s) == Some(r@[q]);
            assert(string_views(names@)[i] == names@[i]@);
        }
    }
    r
}

/// Record how far the D3D resources of mod `j` under key `k` have been
/// created.
pub fn set_mod_d3d_state(s: &mut LoadedModState, k: u32, j: usize, st: ModD3DState)
    requires
        old(s).mods@.contains_key(k),
        j < old(s).mods@[k]@.len(),
    ensures
        final(s).mods@.dom() == old(s).mods@.dom(),
        forall|k2: u32| k2 != k && #[trigger] old(s).mods@.contains_key(k2) ==> final(s).mods@[k2] == old(s).mods@[k2],
        final(s).mods@[k]@.len() == old(s).mods@[k]@.len(),
        forall|q: int|
            0 <= q < old(s).mods@[k]@.len() && q != j ==> #[trigger] final(s).mods@[k]@[q] == old(s).mods@[k]@[q],
        final(s).mods@[k]@[j as int] == (NativeModData { d3d_data: st, ..old(s).mods@[k]@[j as int] }),
        final(s).mods_by_name == old(s).mods_by_name,
        final(s).selected_variant == old(s).selected_variant,
{
    let mut v = match fnv_map_remove(&mut s.mods, k) {
        Some(v) => v,
        None => Vec::new(),
    };
    let ghost v0 = v@;
    let mut m = v.remove(j);
    m.d3d_data = st;
    v.insert(j, m);
    proof {
        assert(v@ =~= v0.update(j as int, NativeModData { d3d_data: st, ..v0[j as int] }));
    }
    fnv_map_insert(&mut s.mods, k, v);
    proof {
        assert(s.mods@.dom() =~= old(s).mods@.dom());
    }
}

/// The resource count after mods were cleared: the device's reference count
/// dropped from `pre_rc` to `post_rc`, and that many of the counted
/// resources are gone.  `None` if that would take the count below zero (it
/// is then left as it was).
pub fn resources_released(count: u32, pre_rc: u32, post_rc: u32) -> (r: Option<u32>)
    requires
        post_rc <= pre_rc,
    ensures
        count >= pre_rc - post_rc ==> r == Some((count - (pre_rc - post_rc)) as u32),
        count < pre_rc - post_rc ==> r is None,
{
    let diff = pre_rc - post_rc;
    if count < diff {
        None
    } else {
        Some(count - diff)
    }
}

/// The resource count after mods were loaded: the device's reference count
/// grew from `pre_rc` to `post_rc`, by the resources created.
pub fn resources_added(count: u32, pre_rc: u32, post_rc: u32) -> (r: u32)
    requires
        pre_rc <= post_rc,
        count + (post_rc - pre_rc) <= u32::MAX,
    ensures
        r == count + (post_rc - pre_rc),
{
    count + (post_rc - pre_rc)
}

/// The first supported, named record indexed under a name keeps it: later
/// records with the same index name do not take it over.
pub proof fn lemma_first_name_wins(records: Seq<ModRecord>, i: int)
    requires
        0 <= i < records.len(),
        supported_type(records[i].data.numbers.mod_type),
        rec_name(records[i]).len() > 0,
        forall|j: int|
            0 <= j < i ==> !(supported_type(#[trigger] records[j].data.numbers.mod_type) && rec_name(
                records[j],
            ).len() > 0 && index_name(records[j]) == index_name(records[i])),
    ensures
        setup_fold(records).1.contains_key(index_name(records[i])),
        setup_fold(records).1[index_name(records[i])] == rec_key(records[i]),
    decreases records.len(),
{
    let n = index_name(records[i]);
    if i == records.len() - 1 {
        let t = records.drop_last();
        lemma_name_absent(t, n);
        assert forall|j: int| 0 <= j < t.len() implies !(supported_type(
            #[trigger] t[j].data.numbers.mod_type,
        ) && rec_name(t[j]).len() > 0 && index_name(t[j]) == n) by {
            assert(t[j] == records[j]);
        }
    } else {
        let t = records.drop_last();
        assert(t[i] == records[i]);
        assert forall|j: int| 0 <= j < i implies !(supported_type(
            #[trigger] t[j].data.numbers.mod_type,
        ) && rec_name(t[j]).len() > 0 && index_name(t[j]) == index_name(t[i])) by {
            assert(t[j] == records[j]);
        }
        lemma_first_name_wins(t, i);
    }
}

/// A name no supported, named record is indexed by is not in the index.
proof fn lemma_name_absent(records: Seq<ModRecord>, n: Seq<char>)
    requires
        forall|j: int|
            0 <= j < records.len() ==> !(supported_type(#[trigger] records[j].data.numbers.mod_type)
                && rec_name(records[j]).len() > 0 && index_name(records[j]) == n),
    ensures
        !setup_fold(records).1.contains_key(n),
    decreases records.len(),
{
    if records.len() > 0 {
        let t = records.drop_last();
        assert forall|j: int| 0 <= j < t.len() implies !(supported_type(
            #[trigger] t[j].data.numbers.mod_type,
        ) && rec_name(t[j]).len() > 0 && index_name(t[j]) == n) by {
            assert(t[j] == records[j]);
        }
        lemma_name_absent(t, n);
        assert(!(supported_type(records[records.len() - 1].data.numbers.mod_type) && rec_name(
            records[records.len() - 1],
        ).len() > 0 && index_name(records[records.len() - 1]) == n));
    }
}


/// Why the D3D11 resources of a mod are not created.
#[derive(Clone, Copy, Debug, PartialEq, Eq, Structural)]
pub enum D3D11LoadError {
    /// Its resources exist already (they should have been released first).
    AlreadyLoaded,
    /// The mod has no partially created D3D11 data.
    NotPartiallyLoaded,
    /// The partial data has no vertex layout.
    MissingLayout,
    /// There is no D3D11 render state to look the layout up in.
    NoHookState,
    /// The render state does not know the layout.
    LayoutNotInRenderState,
    InvalidVertexSize(u32),
    InvalidVertexCount(i32),
}

/// The vertex buffer to fill for a mod: its layout, vertex size, count and
/// byte size.
#[derive(Clone, Copy, Debug, PartialEq, Eq, Structural)]
pub struct D3D11LoadPlan {
    pub layout_ptr: usize,
    pub vert_size: u32,
    pub vert_count: u32,
    pub vb_size: u32,
}

/// The D3D11 load of a mod whose resources are in `state`, whose partial D3D11
/// data carries the layout pointer `partial_layout` (`None` if there is no
/// such data), with the render state `rs`: three vertices per primitive, of
/// the layout's size.
pub open spec fn spec_plan_d3d11_load(
    state: ModD3DState,
    partial_layout: Option<usize>,
    rs: Option<Map<usize, u32>>,
    prim_count: i32,
) -> Result<D3D11LoadPlan, D3D11LoadError> {
    if state == ModD3DState::Loaded {
        Err(D3D11LoadError::AlreadyLoaded)
    } else if state != ModD3DState::Partial || partial_layout is None {
        Err(D3D11LoadError::NotPartiallyLoaded)
    } else if partial_layout->0 == 0 {
        Err(D3D11LoadError::MissingLayout)
    } else if rs is None {
        Err(D3D11LoadError::NoHookState)
    } else if !rs->0.contains_key(partial_layout->0) {
        Err(D3D11LoadError::LayoutNotInRenderState)
    } else if rs->0[partial_layout->0] == 0 {
        Err(D3D11LoadError::InvalidVertexSize(0))
    } else if prim_count * 3 <= 0 {
        Err(D3D11LoadError::InvalidVertexCount((prim_count * 3) as i32))
    } else {
        Ok(
            D3D11LoadPlan {
                layout_ptr: partial_layout->0,
                vert_size: rs->0[partial_layout->0],
                vert_count: (prim_count * 3) as u32,
                vb_size: (prim_count * 3 * rs->0[partial_layout->0]) as u32,
            },
        )
    }
}

/// The sizes of the layouts a render state knows, by layout pointer.
pub open spec fn layout_sizes(rs: DX11RenderState) -> Map<usize, u32> {
    rs.context_input_layouts_by_ptr@.map_values(|vf: crate::dx11rs::VertexFormat| vf.size)
}

/// The layout sizes of the render state, if there is one.
pub open spec fn known_layout_sizes(rs: Option<&DX11RenderState>) -> Option<Map<usize, u32>> {
    match rs {
        Some(rs) => Some(layout_sizes(*rs)),
        None => None,
    }
}

/// The plan gets as far as counting vertices: the mod's resources are only
/// partly created, its partial data has a layout the render state knows, and
/// that layout has a vertex size.
pub open spec fn reaches_vertex_count(
    state: ModD3DState,
    partial_layout: Option<usize>,
    rs: Option<Map<usize, u32>>,
) -> bool {
    match (rs, partial_layout) {
        (Some(m), Some(p)) => state == ModD3DState::Partial && p != 0 && m.contains_key(p) && m[p] != 0,
        _ => false,
    }
}

/// Where the plan counts vertices, the count (three per primitive) fits an
/// `i32`, and, where it is positive, the buffer's byte size fits a `u32`.
pub open spec fn d3d11_load_fits(
    state: ModD3DState,
    partial_layout: Option<usize>,
    rs: Option<Map<usize, u32>>,
    prim_count: i32,
) -> bool {
    reaches_vertex_count(state, partial_layout, rs) ==> {
        &&& i32::MIN <= prim_count * 3 <= i32::MAX
        &&& prim_count > 0 ==> prim_count * 3 * rs->0[partial_layout->0] <= u32::MAX
    }
}

/// Decides whether and how the D3D11 vertex buffer of a mod is created.  The
/// vertex and byte counts, where they are computed, must fit their integer
/// types.
pub fn plan_d3d11_load(
    state: ModD3DState,
    partial_layout: Option<usize>,
    rs: Option<&DX11RenderState>,
    prim_count: i32,
) -> (r: Result<D3D11LoadPlan, D3D11LoadError>)
    requires
        d3d11_load_fits(state, partial_layout, known_layout_sizes(rs), prim_count),
    ensures
        r == spec_plan_d3d11_load(state, partial_layout, known_layout_sizes(rs), prim_count),
        r is Ok <==> (state == ModD3DState::Partial && partial_layout is Some && partial_layout->0 != 0
            && rs is Some && rs->0.context_input_layouts_by_ptr@.contains_key(partial_layout->0)
            && rs->0.context_input_layouts_by_ptr@[partial_layout->0].size != 0 && prim_count > 0),
        r matches Ok(plan) ==> {
            &&& partial_layout == Some(plan.layout_ptr)
            &&& rs is Some
            &&& plan.vert_size == rs->0.context_input_layouts_by_ptr@[plan.layout_ptr].size
            &&& plan.vert_count == 3 * prim_count
            &&& plan.vb_size == plan.vert_count * plan.vert_size
        },
{
    if state == ModD3DState::Loaded {
        return Err(D3D11LoadError::AlreadyLoaded);
    }
    let p = match partial_layout {
        Some(p) => {
            if state != ModD3DState::Partial {
                return Err(D3D11LoadError::NotPartiallyLoaded);
            }
            p
        },
        None => {
            return Err(D3D11LoadError::NotPartiallyLoaded);
        },
    };
    if p == 0 {
        return Err(D3D11LoadError::MissingLayout);
    }
    let rs = match rs {
        Some(rs) => rs,
        None => {
            return Err(D3D11LoadError::NoHookState);
        },
    };
    let vf = match fnv_map_get(&rs.context_input_layouts_by_ptr, p) {
        Some(vf) => vf,
        None => {
            proof {
                assert(!layout_sizes(*rs).contains_key(p));
            }
            return Err(D3D11LoadError::LayoutNotInRenderState);
        },
    };
    proof {
        assert(layout_sizes(*rs).contains_key(p));
        assert(layout_sizes(*rs)[p] == vf.size);
    }
    let vert_size = vf.size;
    if vert_size == 0 {
        return Err(D3D11LoadError::InvalidVertexSize(vert_size));
    }
    let vert_count = prim_count * 3;
    if vert_count <= 0 {
        return Err(D3D11LoadError::InvalidVertexCount(vert_count));
    }
    let vert_count = vert_count as u32;
    Ok(D3D11LoadPlan { layout_ptr: p, vert_size, vert_count, vb_size: vert_count * vert_size })
}

/// The D3D9 vertex buffer of a mod is created unless its resources exist
/// already; it holds three vertices per primitive.
pub open spec fn spec_d3d9_vb_size(state: ModD3DState, prim_count: i32, vert_size_bytes: i32) -> Option<i32> {
    if state == ModD3DState::Loaded {
        None
    } else {
        Some((prim_count * 3 * vert_size_bytes) as i32)
    }
}

/// The byte size of the D3D9 vertex buffer to create for a mod, or `None`
/// if its resources were not released first.  The size must fit an `i32`.
pub fn d3d9_vb_size(state: ModD3DState, prim_count: i32, vert_size_bytes: i32) -> (r: Option<i32>)
    requires
        i32::MIN <= prim_count * 3 <= i32::MAX,
        i32::MIN <= prim_count * 3 * vert_size_bytes <= i32::MAX,
    ensures
        r == spec_d3d9_vb_size(state, prim_count, vert_size_bytes),
        r is None <==> state == ModD3DState::Loaded,
        r matches Some(b) ==> b == prim_count * 3 * vert_size_bytes,
{
    if state == ModD3DState::Loaded {
        None
    } else {
        Some(prim_count * 3 * vert_size_bytes)
    }
}

} // verus!
