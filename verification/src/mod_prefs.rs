//! Per-game user preferences: which variant index is selected for each
//! reference geometry that has several non-parented mods.  The on-disk form is
//! a versioned YAML document; reading and writing it happens outside this
//! library, which builds the preference record from the selections and applies
//! a record back to them.
use vstd::prelude::*;
use fnv::FnvHashMap;
use crate::fnv_maps::{fnv_map_get, fnv_map_insert, fnv_map_keys};
use crate::native_mod::{NativeModData, mod_key_fits, cantor};

verus! {

/// Current version of the preferences document.
pub const PREFS_VERSION: u32 = 1;

/// The selected variant index for one reference geometry.
#[derive(Clone, Copy, Debug, PartialEq, Eq, Structural)]
pub struct VariantPref {
    pub ref_prim_count: u32,
    pub ref_vert_count: u32,
    pub index: usize,
}

/// The preferences document.
#[derive(Clone, Debug, PartialEq, Eq)]
pub struct ModPrefs {
    pub version: u32,
    pub variants: Vec<VariantPref>,
}

/// The version a document without a `version` field is read as.
pub fn default_version() -> (v: u32)
    ensures
        v == PREFS_VERSION,
{
    PREFS_VERSION
}

impl ModPrefs {
    /// An empty document of the current version.
    pub fn new() -> (p: ModPrefs)
        ensures
            p.version == PREFS_VERSION,
            p.variants@.len() == 0,
    {
        ModPrefs { version: PREFS_VERSION, variants: Vec::new() }
    }
}

impl Default for ModPrefs {
    fn default() -> (p: ModPrefs)
        ensures
            p.version == PREFS_VERSION,
            p.variants@.len() == 0,
    {
        ModPrefs::new()
    }
}

/// Name of the preferences file for a game whose executable base name is `stem`.
pub fn prefs_file_name(stem: &str) -> (r: String)
    ensures
        r@ == stem@ + "."@ + "prefs.yaml"@,
{
    let mut s = String::from_str(stem);
    s.append(".");
    s.append("prefs.yaml");
    s
}

/// The mod key a preference entry refers to.
pub open spec fn pref_key(e: VariantPref) -> u32 {
    cantor(e.ref_vert_count as int, e.ref_prim_count as int) as u32
}

/// Every entry's key can be computed.
pub open spec fn prefs_keys_fit(prefs: Seq<VariantPref>) -> bool {
    forall|i: int| 0 <= i < prefs.len() ==> mod_key_fits(#[trigger] prefs[i].ref_vert_count, prefs[i].ref_prim_count)
}

/// The selections and applied count after the first `i` entries are applied.
pub open spec fn apply_upto(
    prefs: Seq<VariantPref>,
    mods: Map<u32, Vec<NativeModData>>,
    sel: Map<u32, usize>,
    i: int,
) -> (Map<u32, usize>, nat)
    decreases i,
{
    if i <= 0 {
        (sel, 0)
    } else {
        let (s, n) = apply_upto(prefs, mods, sel, i - 1);
        let e = prefs[i - 1];
        let k = pref_key(e);
        if mods.contains_key(k) && e.index < mods[k]@.len() {
            (s.insert(k, e.index), n + 1)
        } else {
            (s, n)
        }
    }
}

/// Apply `prefs` entries to `selected_variant`, in order, for each entry whose
/// index is in range for the mods loaded under its reference geometry.  Other
/// entries are skipped.  Returns `(applied, total)`.
pub fn apply_variants(
    prefs: &ModPrefs,
    mods: &FnvHashMap<u32, Vec<NativeModData>>,
    selected_variant: &mut FnvHashMap<u32, usize>,
) -> (r: (usize, usize))
    requires
        prefs_keys_fit(prefs.variants@),
    ensures
        ({
            let (s, n) = apply_upto(prefs.variants@, mods@, old(selected_variant)@, prefs.variants@.len() as int);
            &&& final(selected_variant)@ == s
            &&& r.0 == n
        }),
        r.1 == prefs.variants@.len(),
{
    let mut applied: usize = 0;
    let len = prefs.variants.len();
    let mut i: usize = 0;
    while i < len
        invariant
            len == prefs.variants@.len(),
            i <= len,
            prefs_keys_fit(prefs.variants@),
            ({
                let (s, n) = apply_upto(prefs.variants@, mods@, old(selected_variant)@, i as int);
                &&& selected_variant@ == s
                &&& applied == n
            }),
            applied <= i,
        decreases len - i,
    {
        let entry = prefs.variants[i];
        assert(mod_key_fits(prefs.variants@[i as int].ref_vert_count, prefs.variants@[i as int].ref_prim_count));
        let mod_key = NativeModData::mod_key(entry.ref_vert_count, entry.ref_prim_count);
        match fnv_map_get(mods, mod_key) {
            Some(nmdv) => {
                if entry.index < nmdv.len() {
                    fnv_map_insert(selected_variant, mod_key, entry.index);
                    applied = applied + 1;
                }
            },
            None => {},
        }
        i = i + 1;
    }
    (applied, len)
}

/// `a` sorts no later than `b` (by primitive count, then vertex count).
pub open spec fn pref_le(a: VariantPref, b: VariantPref) -> bool {
    a.ref_prim_count < b.ref_prim_count || (a.ref_prim_count == b.ref_prim_count
        && a.ref_vert_count <= b.ref_vert_count)
}

pub open spec fn prefs_sorted(s: Seq<VariantPref>) -> bool {
    forall|i: int, j: int| 0 <= i < j < s.len() ==> pref_le(#[trigger] s[i], #[trigger] s[j])
}

/// The key is worth persisting: a non-default selection for geometry that has
/// loaded mods.
pub open spec fn persisted(mods: Map<u32, Vec<NativeModData>>, sel: Map<u32, usize>, k: u32) -> bool {
    sel.contains_key(k) && sel[k] != 0 && mods.contains_key(k) && mods[k]@.len() > 0
}

/// The preference entry recorded for key `k`: the reference counts of the
/// first mod under `k`, and the selected index.
pub open spec fn pref_entry(mods: Map<u32, Vec<NativeModData>>, sel: Map<u32, usize>, k: u32) -> VariantPref {
    VariantPref {
        ref_prim_count: mods[k]@[0].mod_data.numbers.ref_prim_count as u32,
        ref_vert_count: mods[k]@[0].mod_data.numbers.ref_vert_count as u32,
        index: sel[k],
    }
}

fn pref_le_exec(a: &VariantPref, b: &VariantPref) -> (r: bool)
    ensures
        r == pref_le(*a, *b),
{
    a.ref_prim_count < b.ref_prim_count || (a.ref_prim_count == b.ref_prim_count
        && a.ref_vert_count <= b.ref_vert_count)
}

/// `prefs` holds exactly one entry per persisted key (in some order).
pub open spec fn built_from(
    prefs: Seq<VariantPref>,
    mods: Map<u32, Vec<NativeModData>>,
    sel: Map<u32, usize>,
) -> bool {
    exists|ks: Seq<u32>|
        #![trigger ks.no_duplicates()]
        ks.no_duplicates() && (forall|k: u32| #[trigger] ks.contains(k) <==> persisted(mods, sel, k))
            && prefs.to_multiset() == ks.map_values(|k: u32| pref_entry(mods, sel, k)).to_multiset()
}

/// Insert `e` into the sorted vector `v`, after any entries that sort equal.
fn insert_sorted(v: &mut Vec<VariantPref>, e: VariantPref)
    requires
        prefs_sorted(old(v)@),
    ensures
        prefs_sorted(final(v)@),
        final(v)@.to_multiset() == old(v)@.to_multiset().insert(e),
        final(v)@.len() == old(v)@.len() + 1,
{
    let mut pos: usize = 0;
    while pos < v.len() && pref_le_exec(&v[pos], &e)
        invariant
            pos <= v@.len(),
            v@ == old(v)@,
            forall|q: int| 0 <= q < pos ==> pref_le(#[trigger] v@[q], e),
        decreases v@.len() - pos,
    {
        pos = pos + 1;
    }
    let ghost s = v@;
    v.insert(pos, e);
    proof {
        let t = v@;
        assert(t =~= s.insert(pos as int, e));
        assert(t.remove(pos as int) =~= s);
        broadcast use vstd::seq_lib::group_to_multiset_ensures;

        assert(t.remove(pos as int).to_multiset() =~= t.to_multiset().remove(t[pos as int]));
        assert(t.to_multiset().count(e) > 0);
        assert(t.to_multiset() =~= s.to_multiset().insert(e));
        assert forall|i: int, j: int| 0 <= i < j < t.len() implies pref_le(#[trigger] t[i], #[trigger] t[j]) by {
            if j < pos {
            } else if j == pos {
            } else if i < pos {
                // t[i] <= e and e <= t[j]... t[j] == s[j-1] with j-1 >= pos
                if pos < s.len() {
                    assert(!pref_le(s[pos as int], e));
                    assert(pref_le(s[pos as int], s[j - 1]) || pos as int == j - 1);
                }
            } else if i == pos {
                assert(!pref_le(s[pos as int], e));
                assert(pref_le(s[pos as int], s[j - 1]) || pos as int == j - 1);
            } else {
            }
        }
    }
}

/// Build a `ModPrefs` from the current non-zero `selected_variant` entries
/// whose geometry has loaded mods, recording the reference counts of the first
/// mod under each key.  The entries are sorted by (primitive count, vertex
/// count) for stable output.
pub fn build_prefs(mods: &FnvHashMap<u32, Vec<NativeModData>>, selected_variant: &FnvHashMap<u32, usize>) -> (p: ModPrefs)
    ensures
        p.version == PREFS_VERSION,
        prefs_sorted(p.variants@),
        built_from(p.variants@, mods@, selected_variant@),
{
    let mut prefs = ModPrefs::new();
    let keys = fnv_map_keys(selected_variant);
    let ghost sv = selected_variant@;
    let ghost m = mods@;
    let ghost mut ks: Seq<u32> = Seq::empty();
    assert(prefs.variants@ =~= ks.map_values(|k: u32| pref_entry(m, sv, k)));
    let mut i: usize = 0;
    while i < keys.len()
        invariant
            i <= keys@.len(),
            keys@.no_duplicates(),
            forall|k: u32| #[trigger] keys@.contains(k) <==> sv.contains_key(k),
            sv == selected_variant@,
            m == mods@,
            prefs.version == PREFS_VERSION,
            prefs_sorted(prefs.variants@),
            ks.no_duplicates(),
            forall|k: u32| #[trigger] ks.contains(k) <==> (keys@.take(i as int).contains(k) && persisted(m, sv, k)),
            prefs.variants@.to_multiset() == ks.map_values(|k: u32| pref_entry(m, sv, k)).to_multiset(),
        decreases keys@.len() - i,
    {
        let k = keys[i];
        let ghost done = keys@.take(i as int);
        assert(keys@.take(i + 1) =~= done.push(k));
        assert(!done.contains(k)) by {
            if done.contains(k) {
                let q = choose|q: int| 0 <= q < done.len() && done[q] == k;
                assert(keys@[q] == keys@[i as int]);
            }
        }
        assert(keys@.contains(k));
        let index: usize = match fnv_map_get(selected_variant, k) {
            Some(x) => *x,
            None => 0,
        };
        let mut added = false;
        let ghost ks_prev = ks;
        if index != 0 {
            match fnv_map_get(mods, k) {
                Some(nmdv) => {
                    if nmdv.len() > 0 {
                        let first = &nmdv[0];
                        let e = VariantPref {
                            ref_prim_count: first.mod_data.numbers.ref_prim_count as u32,
                            ref_vert_count: first.mod_data.numbers.ref_vert_count as u32,
                            index: index,
                        };
                        assert(e == pref_entry(m, sv, k));
                        insert_sorted(&mut prefs.variants, e);
                        proof {
                            broadcast use vstd::seq_lib::group_to_multiset_ensures;

                            let f = |k: u32| pref_entry(m, sv, k);
                            assert(ks.push(k).map_values(f) =~= ks.map_values(f).push(f(k)));
                            ks = ks.push(k);
                        }
                        added = true;
                    }
                },
                None => {},
            }
        }
        proof {
            if added {
                assert(persisted(m, sv, k));
            } else {
                assert(!persisted(m, sv, k));
            }
            assert forall|k2: u32| #[trigger] ks.contains(k2) <==> (keys@.take(i + 1).contains(k2)
                && persisted(m, sv, k2)) by {
                lemma_push_contains_u32(done, k, k2);
                if added {
                    lemma_push_contains_u32(ks_prev, k, k2);
                }
            }
            if added {
                assert(ks.no_duplicates()) by {
                    let prev = ks_prev;
                    assert(!prev.contains(k));
                    assert forall|a: int, b: int| 0 <= a < b < ks.len() implies ks[a] != ks[b] by {
                        if b == ks.len() - 1 {
                            assert(prev[a] == ks[a]);
                        } else {
                            assert(prev[a] == ks[a] && prev[b] == ks[b]);
                        }
                    }
                }
            }
        }
        i = i + 1;
    }
    proof {
        assert(keys@.take(keys@.len() as int) =~= keys@);
        assert(ks.no_duplicates() && (forall|k: u32| #[trigger] ks.contains(k) <==> persisted(m, sv, k))
            && prefs.variants@.to_multiset() == ks.map_values(|k: u32| pref_entry(m, sv, k)).to_multiset());
    }
    prefs
}

proof fn lemma_push_contains_u32(s: Seq<u32>, x: u32, y: u32)
    ensures
        s.push(x).contains(y) == (s.contains(y) || y == x),
{
    if s.contains(y) {
        let q = choose|q: int| 0 <= q < s.len() && s[q] == y;
        assert(s.push(x)[q] == y);
    }
    if y == x {
        assert(s.push(x)[s.len() as int] == y);
    }
    if s.push(x).contains(y) {
        let q = choose|q: int| 0 <= q < s.push(x).len() && s.push(x)[q] == y;
        if q < s.len() {
            assert(s[q] == y);
        }
    }
}

/// Every stored mod sits under the key of its (non-negative) reference counts.
pub open spec fn mods_keyed_by_ref(mods: Map<u32, Vec<NativeModData>>) -> bool {
    forall|k: u32, j: int|
        mods.contains_key(k) && 0 <= j < mods[k]@.len() ==> {
            let n = #[trigger] mods[k]@[j].mod_data.numbers;
            &&& n.ref_vert_count >= 0
            &&& n.ref_prim_count >= 0
            &&& mod_key_fits(n.ref_vert_count as u32, n.ref_prim_count as u32)
            &&& cantor(n.ref_vert_count as int, n.ref_prim_count as int) as u32 == k
        }
}

/// Every recorded selection is in range for the mods under its key.
pub open spec fn selections_in_range(mods: Map<u32, Vec<NativeModData>>, sel: Map<u32, usize>) -> bool {
    forall|k: u32| #[trigger] sel.contains_key(k) && mods.contains_key(k) ==> sel[k] < mods[k]@.len()
}

/// The selections worth persisting.
pub open spec fn persisted_selections(mods: Map<u32, Vec<NativeModData>>, sel: Map<u32, usize>) -> Map<u32, usize> {
    Map::new(|k: u32| persisted(mods, sel, k), |k: u32| sel[k])
}

proof fn lemma_entry_key(mods: Map<u32, Vec<NativeModData>>, sel: Map<u32, usize>, k: u32)
    requires
        mods_keyed_by_ref(mods),
        persisted(mods, sel, k),
    ensures
        pref_key(pref_entry(mods, sel, k)) == k,
        mod_key_fits(pref_entry(mods, sel, k).ref_vert_count, pref_entry(mods, sel, k).ref_prim_count),
{
    let n = mods[k]@[0].mod_data.numbers;
    assert(n == mods[k]@[0].mod_data.numbers);
}

/// The keys of the first `i` entries.
pub open spec fn keys_upto(prefs: Seq<VariantPref>, i: int) -> Set<u32> {
    Set::new(|k: u32| exists|q: int| 0 <= q < i && #[trigger] pref_key(prefs[q]) == k)
}

proof fn lemma_apply_distinct(
    prefs: Seq<VariantPref>,
    mods: Map<u32, Vec<NativeModData>>,
    i: int,
)
    requires
        0 <= i <= prefs.len(),
        forall|a: int, b: int| 0 <= a < b < prefs.len() ==> pref_key(#[trigger] prefs[a]) != pref_key(#[trigger] prefs[b]),
        forall|q: int| 0 <= q < prefs.len() ==> mods.contains_key(pref_key(#[trigger] prefs[q])) && prefs[q].index
            < mods[pref_key(prefs[q])]@.len(),
    ensures
        ({
            let s = apply_upto(prefs, mods, Map::empty(), i).0;
            &&& s.dom() == keys_upto(prefs, i)
            &&& forall|q: int| 0 <= q < i ==> s[pref_key(#[trigger] prefs[q])] == prefs[q].index
        }),
    decreases i,
{
    if i > 0 {
        lemma_apply_distinct(prefs, mods, i - 1);
        let s0 = apply_upto(prefs, mods, Map::empty(), i - 1).0;
        let s = apply_upto(prefs, mods, Map::empty(), i).0;
        let e = prefs[i - 1];
        assert(mods.contains_key(pref_key(e)) && e.index < mods[pref_key(e)]@.len());
        assert(s == s0.insert(pref_key(e), e.index));
        assert(s.dom() =~= keys_upto(prefs, i)) by {
            assert forall|k: u32| s.dom().contains(k) <==> keys_upto(prefs, i).contains(k) by {
                if s.dom().contains(k) && k != pref_key(e) {
                    assert(keys_upto(prefs, i - 1).contains(k));
                    let q = choose|q: int| 0 <= q < i - 1 && #[trigger] pref_key(prefs[q]) == k;
                    assert(0 <= q < i && pref_key(prefs[q]) == k);
                }
                if keys_upto(prefs, i).contains(k) {
                    let q = choose|q: int| 0 <= q < i && #[trigger] pref_key(prefs[q]) == k;
                    if q < i - 1 {
                        assert(keys_upto(prefs, i - 1).contains(k));
                    }
                }
            }
        }
        assert forall|q: int| 0 <= q < i implies s[pref_key(#[trigger] prefs[q])] == prefs[q].index by {
            if q < i - 1 {
                assert(pref_key(prefs[q]) != pref_key(prefs[i - 1]));
            }
        }
    }
}

/// Building preferences from a selection and applying them to an empty
/// selection restores every non-default selection of geometry that has loaded
/// mods (and nothing else), provided the mods sit under the key of their
/// reference counts and the selections are in range.
pub proof fn lemma_build_then_apply_round_trip(
    mods: Map<u32, Vec<NativeModData>>,
    sel: Map<u32, usize>,
    prefs: Seq<VariantPref>,
)
    requires
        mods_keyed_by_ref(mods),
        selections_in_range(mods, sel),
        built_from(prefs, mods, sel),
    ensures
        prefs_keys_fit(prefs),
        apply_upto(prefs, mods, Map::empty(), prefs.len() as int).0 == persisted_selections(mods, sel),
        apply_upto(prefs, mods, Map::empty(), prefs.len() as int).1 == prefs.len(),
{
    broadcast use vstd::seq_lib::group_to_multiset_ensures;

    let ks = choose|ks: Seq<u32>|
        #![trigger ks.no_duplicates()]
        ks.no_duplicates() && (forall|k: u32| #[trigger] ks.contains(k) <==> persisted(mods, sel, k))
            && prefs.to_multiset() == ks.map_values(|k: u32| pref_entry(mods, sel, k)).to_multiset();
    let f = |k: u32| pref_entry(mods, sel, k);
    let em = ks.map_values(f);
    // every element of prefs is the entry of some persisted key
    assert forall|q: int| 0 <= q < prefs.len() implies exists|j: int|
        0 <= j < ks.len() && #[trigger] prefs[q] == f(ks[j]) by {
        assert(prefs.contains(prefs[q]));
        assert(prefs.to_multiset().count(prefs[q]) > 0);
        assert(em.contains(prefs[q]));
        let j = choose|j: int| 0 <= j < em.len() && em[j] == prefs[q];
        assert(prefs[q] == f(ks[j]));
    }
    // the entries of distinct persisted keys differ
    assert forall|a: int, b: int| 0 <= a < b < em.len() implies em[a] != em[b] by {
        assert(ks.contains(ks[a]) && ks.contains(ks[b]));
        lemma_entry_key(mods, sel, ks[a]);
        lemma_entry_key(mods, sel, ks[b]);
    }
    assert(em.no_duplicates());
    em.lemma_multiset_has_no_duplicates();
    prefs.lemma_multiset_has_no_duplicates_conv();
    // so entries of prefs have distinct keys
    assert forall|a: int, b: int| 0 <= a < b < prefs.len() implies pref_key(#[trigger] prefs[a])
        != pref_key(#[trigger] prefs[b]) by {
        let ja = choose|j: int| 0 <= j < ks.len() && #[trigger] prefs[a] == f(ks[j]);
        let jb = choose|j: int| 0 <= j < ks.len() && #[trigger] prefs[b] == f(ks[j]);
        assert(ks.contains(ks[ja]) && ks.contains(ks[jb]));
        lemma_entry_key(mods, sel, ks[ja]);
        lemma_entry_key(mods, sel, ks[jb]);
        if ks[ja] == ks[jb] {
            assert(prefs[a] == prefs[b]);
        }
    }
    assert forall|q: int| 0 <= q < prefs.len() implies mods.contains_key(pref_key(#[trigger] prefs[q]))
        && prefs[q].index < mods[pref_key(prefs[q])]@.len() && mod_key_fits(prefs[q].ref_vert_count, prefs[q].ref_prim_count)
        && persisted(mods, sel, pref_key(prefs[q])) && prefs[q].index == sel[pref_key(prefs[q])] by {
        let j = choose|j: int| 0 <= j < ks.len() && #[trigger] prefs[q] == f(ks[j]);
        assert(ks.contains(ks[j]));
        lemma_entry_key(mods, sel, ks[j]);
    }
    lemma_apply_distinct(prefs, mods, prefs.len() as int);
    let s = apply_upto(prefs, mods, Map::empty(), prefs.len() as int).0;
    assert forall|k: u32| persisted(mods, sel, k) implies keys_upto(prefs, prefs.len() as int).contains(k) by {
        assert(ks.contains(k));
        let j = choose|j: int| 0 <= j < ks.len() && ks[j] == k;
        assert(em.contains(f(k))) by {
            assert(em[j] == f(k));
        }
        assert(prefs.to_multiset().count(f(k)) > 0);
        let q = choose|q: int| 0 <= q < prefs.len() && prefs[q] == f(k);
        lemma_entry_key(mods, sel, k);
        assert(pref_key(prefs[q]) == k);
    }
    assert(s =~= persisted_selections(mods, sel)) by {
        assert forall|k: u32| s.dom().contains(k) implies s[k] == sel[k] by {
            let q = choose|q: int| 0 <= q < prefs.len() && #[trigger] pref_key(prefs[q]) == k;
        }
    }
    lemma_apply_count(prefs, mods, prefs.len() as int);
}

proof fn lemma_apply_count(prefs: Seq<VariantPref>, mods: Map<u32, Vec<NativeModData>>, i: int)
    requires
        0 <= i <= prefs.len(),
        forall|q: int| 0 <= q < prefs.len() ==> mods.contains_key(pref_key(#[trigger] prefs[q])) && prefs[q].index
            < mods[pref_key(prefs[q])]@.len(),
    ensures
        apply_upto(prefs, mods, Map::empty(), i).1 == i,
    decreases i,
{
    if i > 0 {
        lemma_apply_count(prefs, mods, i - 1);
        assert(mods.contains_key(pref_key(prefs[i - 1])));
    }
}

} // verus!
