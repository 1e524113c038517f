//! Choosing which loaded mod (or mods) to draw in place of a piece of game
//! geometry, and cycling through variants.
use vstd::prelude::*;
use fnv::FnvHashMap;
use crate::fnv_maps::{fnv_map_get, fnv_map_contains, fnv_map_insert, fnv_map_remove, fnv_map_keys, name_map_get, name_index};
use crate::loaded_mods::LoadedModState;
use crate::native_mod::{NativeModData, MAX_CHECKSUM_STAGES, mod_key_fits, cantor};
use crate::text::{decimal, u64_to_decimal};

verus! {

/// The textures bound on each stage when a draw happens, and the known
/// checksum of each texture (by texture pointer), if any are known.
pub struct BoundTextures<'a> {
    pub per_stage: [usize; 8],
    pub checksums: Option<&'a FnvHashMap<usize, u32>>,
}

impl<'a> BoundTextures<'a> {
    /// No textures bound and no checksums known.
    pub fn empty() -> (b: BoundTextures<'a>)
        ensures
            b.checksums.is_none(),
            forall|i: int| 0 <= i < 8 ==> b.per_stage[i] == 0,
    {
        BoundTextures { per_stage: [0usize; 8], checksums: None }
    }
}

/// What `select` chose: indices into the mod list stored under the drawn
/// geometry's key.
pub enum SelectedMod {
    One(usize),
    Many(Vec<usize>),
}

impl SelectedMod {
    pub open spec fn spec_indices(&self) -> Seq<usize> {
        match self {
            SelectedMod::One(i) => seq![*i],
            SelectedMod::Many(v) => v@,
        }
    }

    /// The selected indices, one or many, as a list.
    pub fn indices(&self) -> (r: Vec<usize>)
        ensures
            r@ == self.spec_indices(),
    {
        match self {
            SelectedMod::One(i) => {
                let mut v = Vec::new();
                v.push(*i);
                v
            },
            SelectedMod::Many(v) => v.clone(),
        }
    }
}

/// The listed mods, as `{ index: <position>, name: <name> }` items
/// separated by ", ".
pub open spec fn selected_items(idx: Seq<usize>, mods: Seq<NativeModData>) -> Seq<char>
    decreases idx.len(),
{
    if idx.len() == 0 {
        Seq::empty()
    } else {
        let k = idx.len() - 1;
        let item = "{ index: "@ + decimal(k as nat) + ", name: "@ + mods[idx[k] as int].name@ + " }"@;
        if k == 0 {
            item
        } else {
            selected_items(idx.drop_last(), mods) + ", "@ + item
        }
    }
}

impl SelectedMod {
    /// The selection as its log line shows it, with the names of the mods
    /// from `mods` (the list the indices refer to).
    pub open spec fn spec_describe(&self, mods: Seq<NativeModData>) -> Seq<char> {
        match self {
            SelectedMod::One(i) => "SelectedMod::One { name: "@ + mods[*i as int].name@ + " }"@,
            SelectedMod::Many(v) => "SelectedMod::Many [ "@ + selected_items(v@, mods) + " ]"@,
        }
    }

    /// Describes the selection.
    pub fn describe(&self, mods: &Vec<NativeModData>) -> (r: String)
        requires
            forall|q: int| 0 <= q < self.spec_indices().len() ==> #[trigger] self.spec_indices()[q] < mods@.len(),
        ensures
            r@ == self.spec_describe(mods@),
    {
        match self {
            SelectedMod::One(i) => {
                proof {
                    assert(self.spec_indices()[0] == *i);
                }
                let mut s = String::from_str("SelectedMod::One { name: ");
                s.append(mods[*i].name.as_str());
                s.append(" }");
                s
            },
            SelectedMod::Many(v) => {
                let mut items = String::new();
                proof {
                    assert forall|q: int| 0 <= q < v@.len() implies #[trigger] v@[q] < mods@.len() by {
                        assert(self.spec_indices()[q] == v@[q]);
                    }
                }
                let mut k: usize = 0;
                while k < v.len()
                    invariant
                        k <= v@.len(),
                        v@ == self.spec_indices(),
                        forall|q: int| 0 <= q < v@.len() ==> #[trigger] v@[q] < mods@.len(),
                        items@ == selected_items(v@.take(k as int), mods@),
                    decreases v@.len() - k,
                {
                    proof {
                        assert(v@.take(k + 1).drop_last() =~= v@.take(k as int));
                        assert(v@.take(k + 1)[k as int] == v@[k as int]);
                    }
                    if k > 0 {
                        items.append(", ");
                    }
                    items.append("{ index: ");
                    items.append(u64_to_decimal(k as u64).as_str());
                    items.append(", name: ");
                    items.append(mods[v[k]].name.as_str());
                    items.append(" }");
                    k = k + 1;
                }
                proof {
                    assert(v@.take(v@.len() as int) =~= v@);
                }
                let mut s = String::from_str("SelectedMod::Many [ ");
                s.append(items.as_str());
                s.append(" ]");
                s
            },
        }
    }
}

// ---------------------------------------------------------------------------
// Specification
// ---------------------------------------------------------------------------

/// Stage `i` is constrained by `mask`.
pub open spec fn stage_bit(mask: u8, i: u8) -> bool {
    (mask >> i) & 1u8 != 0u8
}

/// Every stage the mod constrains has a bound texture with the expected checksum.
pub open spec fn checksum_ok(m: NativeModData, bound: BoundTextures) -> bool {
    forall|i: int| 0 <= i < 8 ==> #[trigger] stage_ok(m, bound, i)
}

/// Stage `i` is unconstrained, or its bound texture has the expected checksum.
pub open spec fn stage_ok(m: NativeModData, bound: BoundTextures, i: int) -> bool {
    stage_bit(m.mod_data.tex_checksum_mask, i as u8) ==> match bound.checksums {
        Some(cm) => cm@.contains_key(bound.per_stage[i]) && cm@[bound.per_stage[i]]
            == m.mod_data.tex_checksums[i],
        None => false,
    }
}

pub open spec fn is_constrained(m: NativeModData) -> bool {
    m.mod_data.tex_checksum_mask != 0
}

/// The mod is constrained and its constraint is met.
pub open spec fn constraint_matched(m: NativeModData, bound: BoundTextures) -> bool {
    is_constrained(m) && checksum_ok(m, bound)
}

/// Which mods may be chosen: the constrained mods whose constraint is met if
/// there is any, otherwise the unconstrained mods.
pub open spec fn spec_allowed(nmods: Seq<NativeModData>, bound: BoundTextures) -> Seq<bool> {
    let has_match = exists|i: int| 0 <= i < nmods.len() && constraint_matched(nmods[i], bound);
    Seq::new(
        nmods.len(),
        |i: int|
            if has_match {
                constraint_matched(nmods[i], bound)
            } else {
                !is_constrained(nmods[i])
            },
    )
}

pub open spec fn count_true(s: Seq<bool>) -> nat
    decreases s.len(),
{
    if s.len() == 0 {
        0
    } else {
        count_true(s.drop_last()) + if s.last() {
            1nat
        } else {
            0nat
        }
    }
}

pub open spec fn first_true_from(s: Seq<bool>, i: int) -> int
    decreases s.len() - i,
{
    if i >= s.len() || i < 0 {
        0
    } else if s[i] {
        i
    } else {
        first_true_from(s, i + 1)
    }
}

/// Index of the first `true` (0 if there is none).
pub open spec fn first_true(s: Seq<bool>) -> int {
    first_true_from(s, 0)
}

pub open spec fn find_named_from(s: Seq<NativeModData>, name: Seq<char>, i: int) -> Option<int>
    decreases s.len() - i,
{
    if i >= s.len() || i < 0 {
        None
    } else if s[i].name@ == name {
        Some(i)
    } else {
        find_named_from(s, name, i + 1)
    }
}

/// Index of the first mod in `s` with the given name.
pub open spec fn find_named(s: Seq<NativeModData>, name: Seq<char>) -> Option<int> {
    find_named_from(s, name, 0)
}

/// The mod that the name `pname` refers to as a parent: looked up through the
/// name index, then the first mod of that name under the indexed key.
pub open spec fn parent_lookup(st: LoadedModState, pname: Seq<char>) -> Option<NativeModData> {
    let names = name_index(st.mods_by_name);
    if names.contains_key(pname) && st.mods@.contains_key(names[pname]) {
        let v = st.mods@[names[pname]]@;
        match find_named(v, pname) {
            Some(j) => Some(v[j]),
            None => None,
        }
    } else {
        None
    }
}

pub open spec fn has_no_parents(m: NativeModData) -> bool {
    m.parent_mod_names@.len() == 0
}

/// The last index before `i` of an allowed mod without parents named `name`.
pub open spec fn last_observed(
    nmods: Seq<NativeModData>,
    allowed: Seq<bool>,
    name: Seq<char>,
    i: int,
) -> Option<int>
    decreases i,
{
    if i <= 0 {
        None
    } else if allowed[i - 1] && has_no_parents(nmods[i - 1]) && nmods[i - 1].name@ == name {
        Some(i - 1)
    } else {
        last_observed(nmods, allowed, name, i - 1)
    }
}

/// The scan state: (target index, parent found in this list, active parents seen).
pub type Walk = (int, bool, nat);

/// One parent name of mod `m` examined.
pub open spec fn parent_step(
    st: LoadedModState,
    nmods: Seq<NativeModData>,
    allowed: Seq<bool>,
    n: nat,
    frame: u64,
    m: int,
    pname: Seq<char>,
    w: Walk,
) -> Walk {
    match parent_lookup(st, pname) {
        Some(p) => if p.spec_recently_rendered(frame) {
            let obs = last_observed(nmods, allowed, p.name@, m);
            let (t1, pil1) = if n > 1 && obs is Some {
                (obs->0, true)
            } else {
                (w.0, w.1)
            };
            let t2 = if !pil1 {
                m
            } else {
                t1
            };
            (t2, pil1, w.2 + 1)
        } else {
            w
        },
        None => w,
    }
}

/// The first `j` parent names of mod `m` examined, starting from `w`.
pub open spec fn parents_fold(
    st: LoadedModState,
    nmods: Seq<NativeModData>,
    allowed: Seq<bool>,
    n: nat,
    frame: u64,
    m: int,
    j: int,
    w: Walk,
) -> Walk
    decreases j,
{
    if j <= 0 {
        w
    } else {
        let w1 = parents_fold(st, nmods, allowed, n, frame, m, j - 1, w);
        parent_step(st, nmods, allowed, n, frame, m, nmods[m].parent_mod_names@[j - 1]@, w1)
    }
}

/// The first `i` mods examined.
pub open spec fn walk(
    st: LoadedModState,
    nmods: Seq<NativeModData>,
    allowed: Seq<bool>,
    n: nat,
    frame: u64,
    i: int,
) -> Walk
    decreases i,
{
    if i <= 0 {
        (first_true(allowed), false, 0)
    } else {
        let w = walk(st, nmods, allowed, n, frame, i - 1);
        let m = i - 1;
        if allowed[m] && !has_no_parents(nmods[m]) {
            parents_fold(
                st,
                nmods,
                allowed,
                n,
                frame,
                m,
                nmods[m].parent_mod_names@.len() as int,
                w,
            )
        } else {
            w
        }
    }
}

/// Which index to draw, once the scan is done.
pub open spec fn decide(
    st: LoadedModState,
    key: u32,
    nmods: Seq<NativeModData>,
    allowed: Seq<bool>,
    n: nat,
    w: Walk,
) -> Option<int> {
    if n > 1 && w.2 == 1 && !w.1 {
        Some(w.0)
    } else if n == 1 && (has_no_parents(nmods[w.0]) || w.2 == 1) {
        Some(w.0)
    } else if n > 1 {
        let sel = if st.selected_variant@.contains_key(key) {
            st.selected_variant@[key] as int
        } else {
            w.0
        };
        if 0 <= sel < nmods.len() && allowed[sel] && has_no_parents(nmods[sel]) {
            Some(sel)
        } else {
            None
        }
    } else {
        None
    }
}

/// The index (into `mods[key]`) of the mod chosen for drawing, if any.
pub open spec fn select_target(st: LoadedModState, key: u32, frame: u64, bound: BoundTextures) -> Option<int> {
    if !st.mods@.contains_key(key) {
        None
    } else {
        let nmods = st.mods@[key]@;
        let allowed = spec_allowed(nmods, bound);
        let n = count_true(allowed);
        if n == 0 {
            None
        } else {
            decide(st, key, nmods, allowed, n, walk(st, nmods, allowed, n, frame, nmods.len() as int))
        }
    }
}

/// Mod `m` is the variant named `vname` or one of its children.
pub open spec fn touched(m: NativeModData, vname: Seq<char>) -> bool {
    m.name@ == vname || exists|q: int|
        0 <= q < m.parent_mod_names@.len() && #[trigger] m.parent_mod_names@[q]@ == vname
}

/// Indices below `i` of the mods touched by `vname`, in order.
pub open spec fn touched_upto(nmods: Seq<NativeModData>, vname: Seq<char>, i: int) -> Seq<usize>
    decreases i,
{
    if i <= 0 {
        Seq::empty()
    } else if touched(nmods[i - 1], vname) {
        touched_upto(nmods, vname, i - 1).push((i - 1) as usize)
    } else {
        touched_upto(nmods, vname, i - 1)
    }
}

/// The mod list after drawing the variant `vname` in `frame`.
pub open spec fn mark_drawn(nmods: Seq<NativeModData>, vname: Seq<char>, frame: u64) -> Seq<NativeModData> {
    Seq::new(
        nmods.len(),
        |j: int|
            if touched(nmods[j], vname) {
                NativeModData { last_frame_render: frame, ..nmods[j] }
            } else {
                nmods[j]
            },
    )
}

// ---------------------------------------------------------------------------
// Implementation
// ---------------------------------------------------------------------------

/// True iff the mod either has no texture-checksum constraint, or every stage
/// it constrains has a bound texture with the expected checksum.
pub fn checksum_constraint_matches(nmod: &NativeModData, bound: &BoundTextures) -> (r: bool)
    ensures
        r == checksum_ok(*nmod, *bound),
{
    let mask = nmod.mod_data.tex_checksum_mask;
    if mask == 0 {
        assert forall|i: int| 0 <= i < 8 implies #[trigger] stage_ok(*nmod, *bound, i) by {
            let b = i as u8;
            assert((0u8 >> b) & 1u8 == 0u8) by (bit_vector);
        }
        return true;
    }
    let mut i: usize = 0;
    while i < MAX_CHECKSUM_STAGES
        invariant
            0 <= i <= 8,
            mask == nmod.mod_data.tex_checksum_mask,
            forall|s: int| 0 <= s < i ==> #[trigger] stage_ok(*nmod, *bound, s),
        decreases 8 - i,
    {
        let b: u8 = i as u8;
        if (mask >> b) & 1u8 == 0u8 {
            assert(stage_ok(*nmod, *bound, i as int));
            i = i + 1;
            continue;
        }
        assert(stage_bit(mask, (i as int) as u8));
        let expected = nmod.mod_data.tex_checksums[i];
        let ptr = bound.per_stage[i];
        let actual: Option<u32> = match bound.checksums {
            Some(m) => match fnv_map_get(m, ptr) {
                Some(c) => Some(*c),
                None => None,
            },
            None => None,
        };
        match actual {
            Some(a) => {
                if a != expected {
                    assert(!stage_ok(*nmod, *bound, i as int));
                    return false;
                }
            },
            None => {
                assert(!stage_ok(*nmod, *bound, i as int));
                return false;
            },
        }
        assert(stage_ok(*nmod, *bound, i as int));
        i = i + 1;
    }
    true
}

/// True if the mod carries a texture-checksum constraint.
pub fn has_checksum_constraint(nmod: &NativeModData) -> (r: bool)
    ensures
        r == is_constrained(*nmod),
{
    nmod.mod_data.tex_checksum_mask != 0
}

proof fn lemma_count_true_take(s: Seq<bool>, i: int)
    requires
        0 <= i < s.len(),
    ensures
        count_true(s.take(i + 1)) == count_true(s.take(i)) + if s[i] {
            1nat
        } else {
            0nat
        },
{
    assert(s.take(i + 1).drop_last() =~= s.take(i));
}

/// Which mods of the list may be chosen given the bound textures, and how many.
fn allowed_mods(nmods: &Vec<NativeModData>, bound: &BoundTextures) -> (r: (Vec<bool>, usize))
    ensures
        r.0@ == spec_allowed(nmods@, *bound),
        r.1 == count_true(r.0@),
{
    let len = nmods.len();
    let mut has_match = false;
    let mut cm: Vec<bool> = Vec::new();
    let mut i: usize = 0;
    while i < len
        invariant
            len == nmods@.len(),
            i <= len,
            cm@.len() == i,
            forall|j: int| 0 <= j < i ==> cm@[j] == constraint_matched(nmods@[j], *bound),
            has_match == exists|j: int| 0 <= j < i && constraint_matched(nmods@[j], *bound),
        decreases len - i,
    {
        let matched = has_checksum_constraint(&nmods[i]) && checksum_constraint_matches(
            &nmods[i],
            bound,
        );
        if matched {
            has_match = true;
        }
        cm.push(matched);
        i = i + 1;
    }
    let mut v: Vec<bool> = Vec::new();
    let mut n: usize = 0;
    let ghost target = spec_allowed(nmods@, *bound);
    let mut k: usize = 0;
    while k < len
        invariant
            len == nmods@.len(),
            k <= len,
            cm@.len() == len,
            forall|j: int| 0 <= j < len ==> cm@[j] == constraint_matched(nmods@[j], *bound),
            has_match == exists|j: int| 0 <= j < len && constraint_matched(nmods@[j], *bound),
            target == spec_allowed(nmods@, *bound),
            v@ == target.take(k as int),
            n == count_true(v@),
            n <= k,
        decreases len - k,
    {
        let b = if has_match {
            cm[k]
        } else {
            !has_checksum_constraint(&nmods[k])
        };
        proof {
            lemma_count_true_take(target, k as int);
        }
        v.push(b);
        if b {
            n = n + 1;
        }
        k = k + 1;
        assert(v@ =~= target.take(k as int));
    }
    assert(target.take(len as int) =~= target);
    (v, n)
}

/// Index of the first `true` in `s` (0 if there is none).
fn first_allowed(s: &Vec<bool>) -> (r: usize)
    ensures
        r == first_true(s@),
        s@.len() > 0 ==> r < s@.len(),
{
    let mut i: usize = 0;
    while i < s.len()
        invariant
            i <= s@.len(),
            first_true(s@) == first_true_from(s@, i as int),
        decreases s@.len() - i,
    {
        if s[i] {
            return i;
        }
        i = i + 1;
    }
    0
}

/// Index of the first mod in `v` named `name`.
fn find_named_index(v: &Vec<NativeModData>, name: &String) -> (r: Option<usize>)
    ensures
        match find_named(v@, name@) {
            Some(j) => r == Some(j as usize),
            None => r is None,
        },
        match r {
            Some(j) => j < v@.len() && find_named(v@, name@) == Some(j as int),
            None => find_named(v@, name@) is None,
        },
{
    proof {
        lemma_find_named_range(v@, name@, 0);
    }
    let mut i: usize = 0;
    while i < v.len()
        invariant
            i <= v@.len(),
            find_named(v@, name@) == find_named_from(v@, name@, i as int),
        decreases v@.len() - i,
    {
        if v[i].name == *name {
            return Some(i);
        }
        i = i + 1;
    }
    None
}

proof fn lemma_find_named_range(s: Seq<NativeModData>, name: Seq<char>, i: int)
    requires
        0 <= i,
    ensures
        match find_named_from(s, name, i) {
            Some(j) => i <= j < s.len(),
            None => true,
        },
    decreases s.len() - i,
{
    if i < s.len() && s[i].name@ != name {
        lemma_find_named_range(s, name, i + 1);
    }
}

/// Look up the mod a parent name refers to.
fn lookup_parent<'a>(mstate: &'a LoadedModState, pname: &String) -> (r: Option<&'a NativeModData>)
    ensures
        match r {
            Some(p) => parent_lookup(*mstate, pname@) == Some(*p),
            None => parent_lookup(*mstate, pname@) is None,
        },
{
    let pstr = pname.as_str();
    match name_map_get(&mstate.mods_by_name, pstr) {
        None => None,
        Some(k) => match fnv_map_get(&mstate.mods, k) {
            None => None,
            Some(v) => match find_named_index(v, pname) {
                Some(j) => {
                    assert(pstr@ == pname@);
                    let ghost names = name_index(mstate.mods_by_name);
                    assert(names.contains_key(pname@) && names[pname@] == k);
                    assert(mstate.mods@.contains_key(k));
                    assert(*v == mstate.mods@[k]);
                    assert(find_named(mstate.mods@[k]@, pname@) == Some(j as int));
                    assert(parent_lookup(*mstate, pname@) == Some(v@[j as int]));
                    Some(&v[j])
                },
                None => None,
            },
        },
    }
}

/// The last allowed no-parent mod before `i` with the given name.
fn find_observed(nmods: &Vec<NativeModData>, allowed: &Vec<bool>, name: &String, i: usize) -> (r: Option<usize>)
    requires
        i <= nmods@.len(),
        allowed@.len() == nmods@.len(),
    ensures
        match last_observed(nmods@, allowed@, name@, i as int) {
            Some(j) => r == Some(j as usize),
            None => r is None,
        },
{
    let mut k: usize = i;
    while k > 0
        invariant
            k <= i <= nmods@.len(),
            allowed@.len() == nmods@.len(),
            last_observed(nmods@, allowed@, name@, i as int) == last_observed(
                nmods@,
                allowed@,
                name@,
                k as int,
            ),
        decreases k,
    {
        let m = k - 1;
        if allowed[m] && nmods[m].parent_mod_names.len() == 0 && nmods[m].name == *name {
            return Some(m);
        }
        k = m;
    }
    None
}

proof fn lemma_walk_target_in_range(
    st: LoadedModState,
    nmods: Seq<NativeModData>,
    allowed: Seq<bool>,
    n: nat,
    frame: u64,
    i: int,
)
    requires
        0 <= i <= nmods.len(),
        nmods.len() > 0,
        allowed.len() == nmods.len(),
    ensures
        0 <= walk(st, nmods, allowed, n, frame, i).0 < nmods.len(),
    decreases i,
{
    if i <= 0 {
        lemma_first_true_from_range(allowed, 0);
    } else {
        lemma_walk_target_in_range(st, nmods, allowed, n, frame, i - 1);
        let m = i - 1;
        if allowed[m] && !has_no_parents(nmods[m]) {
            lemma_parents_fold_range(
                st,
                nmods,
                allowed,
                n,
                frame,
                m,
                nmods[m].parent_mod_names@.len() as int,
                walk(st, nmods, allowed, n, frame, i - 1),
            );
        }
    }
}

proof fn lemma_first_true_from_range(s: Seq<bool>, i: int)
    requires
        0 <= i,
        s.len() > 0,
    ensures
        0 <= first_true_from(s, i) < s.len(),
    decreases s.len() - i,
{
    if i >= s.len() {
    } else if s[i] {
    } else {
        lemma_first_true_from_range(s, i + 1);
    }
}

proof fn lemma_last_observed_range(nmods: Seq<NativeModData>, allowed: Seq<bool>, name: Seq<char>, i: int)
    ensures
        match last_observed(nmods, allowed, name, i) {
            Some(j) => 0 <= j < i,
            None => true,
        },
    decreases i,
{
    if i > 0 {
        lemma_last_observed_range(nmods, allowed, name, i - 1);
    }
}

proof fn lemma_parents_fold_range(
    st: LoadedModState,
    nmods: Seq<NativeModData>,
    allowed: Seq<bool>,
    n: nat,
    frame: u64,
    m: int,
    j: int,
    w: Walk,
)
    requires
        0 <= m < nmods.len(),
        0 <= w.0 < nmods.len(),
    ensures
        0 <= parents_fold(st, nmods, allowed, n, frame, m, j, w).0 < nmods.len(),
    decreases j,
{
    if j > 0 {
        lemma_parents_fold_range(st, nmods, allowed, n, frame, m, j - 1, w);
        let w1 = parents_fold(st, nmods, allowed, n, frame, m, j - 1, w);
        match parent_lookup(st, nmods[m].parent_mod_names@[j - 1]@) {
            Some(p) => {
                lemma_last_observed_range(nmods, allowed, p.name@, m);
            },
            None => {},
        }
    }
}

/// True if any mods are stored for the given geometry.  A cheap first check
/// before `select`.
pub fn preselect(mstate: &LoadedModState, prim_count: u32, vert_count: u32) -> (r: bool)
    requires
        mod_key_fits(vert_count, prim_count),
    ensures
        r == mstate.mods@.contains_key(cantor(vert_count as int, prim_count as int) as u32),
{
    let mod_key = NativeModData::mod_key(vert_count, prim_count);
    fnv_map_contains(&mstate.mods, mod_key)
}

/// Scan the allowed mods and their parents; returns (target, parent found in
/// the list, number of active parents capped at 2).
fn scan_parents(
    mstate: &LoadedModState,
    nmods: &Vec<NativeModData>,
    allowed: &Vec<bool>,
    num_allowed: usize,
    current_frame_num: u64,
) -> (r: (usize, bool, u64))
    requires
        nmods@.len() > 0,
        allowed@.len() == nmods@.len(),
    ensures
        ({
            let w = walk(
                *mstate,
                nmods@,
                allowed@,
                num_allowed as nat,
                current_frame_num,
                nmods@.len() as int,
            );
            &&& r.0 == w.0
            &&& r.1 == w.1
            &&& r.2 == if w.2 >= 2 {
                2
            } else {
                w.2
            }
        }),
        r.0 < nmods@.len(),
{
    let ghost st = *mstate;
    let ghost ns = nmods@;
    let ghost al = allowed@;
    let ghost n = num_allowed as nat;
    let len = nmods.len();
    let mut target: usize = first_allowed(allowed);
    let mut pil = false;
    let mut active: u64 = 0;
    let mut midx: usize = 0;
    while midx < len
        invariant
            len == ns.len(),
            ns == nmods@,
            al == allowed@,
            st == *mstate,
            n == num_allowed as nat,
            al.len() == len,
            len > 0,
            midx <= len,
            ({
                let w = walk(st, ns, al, n, current_frame_num, midx as int);
                &&& target == w.0
                &&& pil == w.1
                &&& active == if w.2 >= 2 {
                    2
                } else {
                    w.2
                }
            }),
            target < len,
        decreases len - midx,
    {
        proof {
            lemma_walk_target_in_range(st, ns, al, n, current_frame_num, midx as int + 1);
        }
        if !allowed[midx] || nmods[midx].parent_mod_names.len() == 0 {
            midx = midx + 1;
            continue;
        }
        let ghost w0 = walk(st, ns, al, n, current_frame_num, midx as int);
        let pnames = &nmods[midx].parent_mod_names;
        let plen = pnames.len();
        let mut j: usize = 0;
        while j < plen
            invariant
                len == ns.len(),
                ns == nmods@,
                al == allowed@,
                st == *mstate,
                n == num_allowed as nat,
                al.len() == len,
                midx < len,
                pnames == &nmods@[midx as int].parent_mod_names,
                plen == pnames@.len(),
                j <= plen,
                0 <= w0.0 < len,
                ({
                    let w = parents_fold(st, ns, al, n, current_frame_num, midx as int, j as int, w0);
                    &&& target == w.0
                    &&& pil == w.1
                    &&& active == if w.2 >= 2 {
                        2
                    } else {
                        w.2
                    }
                }),
                target < len,
            decreases plen - j,
        {
            proof {
                lemma_parents_fold_range(st, ns, al, n, current_frame_num, midx as int, j as int + 1, w0);
            }
            match lookup_parent(mstate, &pnames[j]) {
                Some(parent) => {
                    if parent.recently_rendered(current_frame_num) {
                        if num_allowed > 1 {
                            match find_observed(nmods, allowed, &parent.name, midx) {
                                Some(pidx) => {
                                    target = pidx;
                                    pil = true;
                                },
                                None => {},
                            }
                        }
                        if !pil {
                            target = midx;
                        }
                        if active < 2 {
                            active = active + 1;
                        }
                    }
                },
                None => {},
            }
            j = j + 1;
        }
        midx = midx + 1;
    }
    (target, pil, active)
}

/// Whether mod `m` is the variant named `vname` or one of its children.
fn is_touched(m: &NativeModData, vname: &String) -> (r: bool)
    ensures
        r == touched(*m, vname@),
{
    if m.name == *vname {
        return true;
    }
    let mut q: usize = 0;
    while q < m.parent_mod_names.len()
        invariant
            q <= m.parent_mod_names@.len(),
            forall|x: int| 0 <= x < q ==> m.parent_mod_names@[x]@ != vname@,
            m.name@ != vname@,
        decreases m.parent_mod_names@.len() - q,
    {
        if m.parent_mod_names[q] == *vname {
            return true;
        }
        q = q + 1;
    }
    false
}

/// Select a mod for rendering, if any, and note the frame on the chosen variant
/// and its children.
///
/// The mods stored for the drawn geometry are filtered by texture checksum:
/// constrained mods whose constraint holds win, otherwise only unconstrained
/// mods are candidates.  A child mod is drawn only while exactly one of its
/// parents has been drawn recently; among several candidates without an active
/// parent the selected variant (or the first candidate) is drawn, and a child
/// can never be a variant.  The result indexes the mod list stored under the
/// drawn geometry's key: the indices are in range, in list order, and include
/// the chosen mod; exactly the mods returned get the current frame noted on
/// them.  When the filter leaves a single child mod, it is drawn exactly when
/// one of its parents is active.  A miss changes nothing.
pub fn select(
    mstate: &mut LoadedModState,
    prim_count: u32,
    vert_count: u32,
    current_frame_num: u64,
    bound: &BoundTextures,
) -> (r: Option<SelectedMod>)
    requires
        mod_key_fits(vert_count, prim_count),
    ensures
        ({
            let key = cantor(vert_count as int, prim_count as int) as u32;
            match select_target(*old(mstate), key, current_frame_num, *bound) {
                None => r is None && *final(mstate) == *old(mstate),
                Some(t) => {
                    let nmods = old(mstate).mods@[key]@;
                    let vname = nmods[t].name@;
                    let hit = touched_upto(nmods, vname, nmods.len() as int);
                    &&& final(mstate).mods@ == old(mstate).mods@.insert(
                        key,
                        final(mstate).mods@[key],
                    )
                    &&& final(mstate).mods@[key]@ == mark_drawn(nmods, vname, current_frame_num)
                    &&& final(mstate).mods_by_name == old(mstate).mods_by_name
                    &&& final(mstate).selected_variant == old(mstate).selected_variant
                    &&& hit.len() == 1 ==> r == Some(SelectedMod::One(t as usize))
                    &&& hit.len() != 1 ==> (r matches Some(SelectedMod::Many(v)) && v@ == hit)
                    &&& r matches Some(sm) && selection_ok(sm.spec_indices(), t, nmods.len())
                    &&& r matches Some(sm) && forall|j: int|
                        0 <= j < nmods.len() ==> #[trigger] final(mstate).mods@[key]@[j] == if sm.spec_indices().contains(
                            j as usize,
                        ) {
                            (NativeModData { last_frame_render: current_frame_num, ..nmods[j] })
                        } else {
                            nmods[j]
                        }
                },
            }
        }),
        ({
            let key = cantor(vert_count as int, prim_count as int) as u32;
            forall|c: int|
                #[trigger] lone_child_candidate(*old(mstate), key, *bound, c) ==> {
                    &&& (r is Some <==> active_parents(
                        *old(mstate),
                        old(mstate).mods@[key]@[c],
                        current_frame_num,
                    ) == 1)
                    &&& r matches Some(sm) ==> sm.spec_indices().contains(c as usize)
                }
        }),
{
    let mod_key = NativeModData::mod_key(vert_count, prim_count);
    proof {
        lemma_lone_child_candidates(*mstate, mod_key, current_frame_num, *bound);
    }
    let ghost st = *mstate;
    let nmods = match fnv_map_get(&mstate.mods, mod_key) {
        None => {
            return None;
        },
        Some(v) => v,
    };
    let (allowed, num_allowed) = allowed_mods(nmods, bound);
    if num_allowed == 0 {
        return None;
    }
    let ghost al = allowed@;
    let (target, pil, active) = scan_parents(mstate, nmods, &allowed, num_allowed, current_frame_num);
    let len = nmods.len();
    let chosen: Option<usize> = if num_allowed > 1 && active == 1 && !pil {
        Some(target)
    } else if num_allowed == 1 && (nmods[target].parent_mod_names.len() == 0 || active == 1) {
        Some(target)
    } else if num_allowed > 1 {
        let sel_index = match fnv_map_get(&mstate.selected_variant, mod_key) {
            Some(s) => *s,
            None => target,
        };
        if sel_index < len && allowed[sel_index] && nmods[sel_index].parent_mod_names.len() == 0 {
            Some(sel_index)
        } else {
            None
        }
    } else {
        None
    };
    let t = match chosen {
        None => {
            return None;
        },
        Some(t) => t,
    };
    let vname = nmods[t].name.clone();
    let ghost old_nmods = nmods@;
    let mut nmods_mut = match fnv_map_remove(&mut mstate.mods, mod_key) {
        Some(v) => v,
        None => {
            return None;
        },
    };
    assert(nmods_mut@ == old_nmods);
    let mut num_selected: usize = 0;
    let mut hits: Vec<usize> = Vec::new();
    let mut j: usize = 0;
    while j < len
        invariant
            len == old_nmods.len(),
            nmods_mut@.len() == len,
            j <= len,
            vname@ == old_nmods[t as int].name@,
            forall|x: int|
                0 <= x < j ==> nmods_mut@[x] == mark_drawn(old_nmods, vname@, current_frame_num)[x],
            forall|x: int| j <= x < len ==> nmods_mut@[x] == old_nmods[x],
            hits@ == touched_upto(old_nmods, vname@, j as int),
            num_selected == hits@.len(),
            num_selected <= j,
        decreases len - j,
    {
        if is_touched(&nmods_mut[j], &vname) {
            let mut e = nmods_mut.remove(j);
            e.last_frame_render = current_frame_num;
            nmods_mut.insert(j, e);
            num_selected = num_selected + 1;
            hits.push(j);
        }
        j = j + 1;
    }
    assert(nmods_mut@ =~= mark_drawn(old_nmods, vname@, current_frame_num));
    fnv_map_insert(&mut mstate.mods, mod_key, nmods_mut);
    let sm = if num_selected == 1 {
        SelectedMod::One(t)
    } else {
        SelectedMod::Many(hits)
    };
    proof {
        lemma_selection_is_marked(old_nmods, t as int, current_frame_num, sm);
    }
    Some(sm)
}

} // verus!

verus! {

proof fn lemma_first_true_from_true(s: Seq<bool>, i: int)
    requires
        0 <= i,
        exists|j: int| i <= j < s.len() && s[j],
    ensures
        0 <= first_true_from(s, i) < s.len() && s[first_true_from(s, i)],
    decreases s.len() - i,
{
    if i < s.len() && !s[i] {
        lemma_first_true_from_true(s, i + 1);
    }
}

proof fn lemma_count_true_pos(s: Seq<bool>)
    requires
        count_true(s) > 0,
    ensures
        exists|j: int| 0 <= j < s.len() && s[j],
    decreases s.len(),
{
    if s.len() > 0 && !s.last() {
        lemma_count_true_pos(s.drop_last());
        let j = choose|j: int| 0 <= j < s.drop_last().len() && s.drop_last()[j];
        assert(s[j]);
    }
}

proof fn lemma_last_observed_allowed(nmods: Seq<NativeModData>, allowed: Seq<bool>, name: Seq<char>, i: int)
    ensures
        match last_observed(nmods, allowed, name, i) {
            Some(j) => 0 <= j < i && allowed[j],
            None => true,
        },
    decreases i,
{
    if i > 0 {
        lemma_last_observed_allowed(nmods, allowed, name, i - 1);
    }
}

proof fn lemma_parents_fold_allowed(
    st: LoadedModState,
    nmods: Seq<NativeModData>,
    allowed: Seq<bool>,
    n: nat,
    frame: u64,
    m: int,
    j: int,
    w: Walk,
)
    requires
        0 <= m < nmods.len(),
        allowed.len() == nmods.len(),
        allowed[m],
        0 <= w.0 < nmods.len(),
        allowed[w.0],
    ensures
        ({
            let r = parents_fold(st, nmods, allowed, n, frame, m, j, w);
            0 <= r.0 < nmods.len() && allowed[r.0]
        }),
    decreases j,
{
    if j > 0 {
        lemma_parents_fold_allowed(st, nmods, allowed, n, frame, m, j - 1, w);
        match parent_lookup(st, nmods[m].parent_mod_names@[j - 1]@) {
            Some(p) => {
                lemma_last_observed_allowed(nmods, allowed, p.name@, m);
            },
            None => {},
        }
    }
}

proof fn lemma_walk_allowed(
    st: LoadedModState,
    nmods: Seq<NativeModData>,
    allowed: Seq<bool>,
    n: nat,
    frame: u64,
    i: int,
)
    requires
        0 <= i <= nmods.len(),
        allowed.len() == nmods.len(),
        exists|j: int| 0 <= j < allowed.len() && allowed[j],
    ensures
        ({
            let w = walk(st, nmods, allowed, n, frame, i);
            0 <= w.0 < nmods.len() && allowed[w.0]
        }),
    decreases i,
{
    if i <= 0 {
        lemma_first_true_from_true(allowed, 0);
    } else {
        lemma_walk_allowed(st, nmods, allowed, n, frame, i - 1);
        let m = i - 1;
        if allowed[m] && !has_no_parents(nmods[m]) {
            lemma_parents_fold_allowed(
                st,
                nmods,
                allowed,
                n,
                frame,
                m,
                nmods[m].parent_mod_names@.len() as int,
                walk(st, nmods, allowed, n, frame, i - 1),
            );
        }
    }
}

/// `select` only ever chooses a candidate that passes the texture-checksum
/// filter: a constrained mod whose constraint is not met by the bound textures
/// is never chosen, and when some constrained mod's constraint is met, the
/// chosen mod is one of those (unconstrained mods are only a fallback).
pub proof fn lemma_select_respects_checksums(st: LoadedModState, key: u32, frame: u64, bound: BoundTextures)
    ensures
        match select_target(st, key, frame, bound) {
            Some(t) => {
                let nmods = st.mods@[key]@;
                &&& st.mods@.contains_key(key)
                &&& 0 <= t < nmods.len()
                &&& spec_allowed(nmods, bound)[t]
                &&& is_constrained(nmods[t]) ==> checksum_ok(nmods[t], bound)
                &&& (exists|i: int| 0 <= i < nmods.len() && constraint_matched(nmods[i], bound))
                    ==> constraint_matched(nmods[t], bound)
                &&& !(exists|i: int| 0 <= i < nmods.len() && constraint_matched(nmods[i], bound))
                    ==> !is_constrained(nmods[t])
            },
            None => true,
        },
{
    if st.mods@.contains_key(key) {
        let nmods = st.mods@[key]@;
        let allowed = spec_allowed(nmods, bound);
        let n = count_true(allowed);
        if n > 0 {
            lemma_count_true_pos(allowed);
            lemma_walk_allowed(st, nmods, allowed, n, frame, nmods.len() as int);
        }
    }
}

/// The number of the parent names of `names` (the first `j`) that refer to a
/// mod drawn recently.
pub open spec fn active_parents_upto(st: LoadedModState, names: Seq<String>, frame: u64, j: int) -> nat
    decreases j,
{
    if j <= 0 {
        0
    } else {
        active_parents_upto(st, names, frame, j - 1) + match parent_lookup(st, names[j - 1]@) {
            Some(p) => if p.spec_recently_rendered(frame) {
                1nat
            } else {
                0nat
            },
            None => 0nat,
        }
    }
}

/// The number of parent names of `m` that refer to a mod drawn recently.
pub open spec fn active_parents(st: LoadedModState, m: NativeModData, frame: u64) -> nat {
    active_parents_upto(st, m.parent_mod_names@, frame, m.parent_mod_names@.len() as int)
}

proof fn lemma_count_true_at_least_one(s: Seq<bool>, a: int)
    requires
        0 <= a < s.len(),
        s[a],
    ensures
        count_true(s) >= 1,
    decreases s.len(),
{
    if a < s.len() - 1 {
        lemma_count_true_at_least_one(s.drop_last(), a);
    }
}

proof fn lemma_count_true_at_least_two(s: Seq<bool>, a: int, b: int)
    requires
        0 <= a < b < s.len(),
        s[a],
        s[b],
    ensures
        count_true(s) >= 2,
    decreases s.len(),
{
    if b == s.len() - 1 {
        lemma_count_true_at_least_one(s.drop_last(), a);
    } else {
        lemma_count_true_at_least_two(s.drop_last(), a, b);
    }
}

proof fn lemma_count_true_one(s: Seq<bool>, c: int)
    requires
        0 <= c < s.len(),
        s[c],
        count_true(s) == 1,
    ensures
        forall|j: int| 0 <= j < s.len() && j != c ==> !s[j],
{
    assert forall|j: int| 0 <= j < s.len() && j != c implies !s[j] by {
        if s[j] {
            if j < c {
                lemma_count_true_at_least_two(s, j, c);
            } else {
                lemma_count_true_at_least_two(s, c, j);
            }
        }
    }
}

proof fn lemma_first_true_is_only(s: Seq<bool>, c: int, i: int)
    requires
        0 <= i <= c < s.len(),
        s[c],
        forall|j: int| 0 <= j < s.len() && j != c ==> !s[j],
    ensures
        first_true_from(s, i) == c,
    decreases c - i,
{
    if i < c {
        lemma_first_true_is_only(s, c, i + 1);
    }
}

proof fn lemma_parents_fold_single(
    st: LoadedModState,
    nmods: Seq<NativeModData>,
    allowed: Seq<bool>,
    frame: u64,
    c: int,
    j: int,
    k: nat,
)
    requires
        0 <= c < nmods.len(),
        0 <= j <= nmods[c].parent_mod_names@.len(),
    ensures
        parents_fold(st, nmods, allowed, 1, frame, c, j, (c, false, k)) == (
            c,
            false,
            k + active_parents_upto(st, nmods[c].parent_mod_names@, frame, j),
        ),
    decreases j,
{
    if j > 0 {
        lemma_parents_fold_single(st, nmods, allowed, frame, c, j - 1, k);
    }
}

proof fn lemma_walk_single(
    st: LoadedModState,
    nmods: Seq<NativeModData>,
    allowed: Seq<bool>,
    frame: u64,
    c: int,
    i: int,
)
    requires
        0 <= c < nmods.len(),
        allowed.len() == nmods.len(),
        0 <= i <= nmods.len(),
        allowed[c],
        !has_no_parents(nmods[c]),
        forall|j: int| 0 <= j < allowed.len() && j != c ==> !allowed[j],
    ensures
        walk(st, nmods, allowed, 1, frame, i) == if i <= c {
            (c, false, 0nat)
        } else {
            (c, false, active_parents(st, nmods[c], frame))
        },
    decreases i,
{
    if i <= 0 {
        lemma_first_true_is_only(allowed, c, 0);
    } else {
        lemma_walk_single(st, nmods, allowed, frame, c, i - 1);
        if i - 1 == c {
            lemma_parents_fold_single(
                st,
                nmods,
                allowed,
                frame,
                c,
                nmods[c].parent_mod_names@.len() as int,
                0,
            );
        }
    }
}

/// Mod `c` of the list stored under `key` is the only candidate the
/// texture-checksum filter leaves, and it is a child (it names parents).
pub open spec fn lone_child_candidate(st: LoadedModState, key: u32, bound: BoundTextures, c: int) -> bool {
    &&& st.mods@.contains_key(key)
    &&& 0 <= c < st.mods@[key]@.len()
    &&& spec_allowed(st.mods@[key]@, bound)[c]
    &&& count_true(spec_allowed(st.mods@[key]@, bound)) == 1
    &&& !has_no_parents(st.mods@[key]@[c])
}

proof fn lemma_lone_child_candidates(st: LoadedModState, key: u32, frame: u64, bound: BoundTextures)
    ensures
        forall|c: int|
            #[trigger] lone_child_candidate(st, key, bound, c) ==> select_target(st, key, frame, bound) == if active_parents(
                st,
                st.mods@[key]@[c],
                frame,
            ) == 1 {
                Some(c)
            } else {
                None::<int>
            },
{
    assert forall|c: int| #[trigger] lone_child_candidate(st, key, bound, c) implies select_target(
        st,
        key,
        frame,
        bound,
    ) == if active_parents(st, st.mods@[key]@[c], frame) == 1 {
        Some(c)
    } else {
        None::<int>
    } by {
        lemma_single_child_needs_one_active_parent(st, key, frame, bound, c);
    }
}

/// A child mod that is the only candidate left by the texture-checksum filter
/// is drawn exactly when one of its parents has been drawn recently: with no
/// active parent, or with two or more (an ambiguous parent), nothing is drawn.
pub proof fn lemma_single_child_needs_one_active_parent(
    st: LoadedModState,
    key: u32,
    frame: u64,
    bound: BoundTextures,
    c: int,
)
    requires
        st.mods@.contains_key(key),
        0 <= c < st.mods@[key]@.len(),
        spec_allowed(st.mods@[key]@, bound)[c],
        count_true(spec_allowed(st.mods@[key]@, bound)) == 1,
        !has_no_parents(st.mods@[key]@[c]),
    ensures
        select_target(st, key, frame, bound) == if active_parents(st, st.mods@[key]@[c], frame) == 1 {
            Some(c)
        } else {
            None::<int>
        },
{
    let nmods = st.mods@[key]@;
    let allowed = spec_allowed(nmods, bound);
    lemma_count_true_one(allowed, c);
    lemma_walk_single(st, nmods, allowed, frame, c, nmods.len() as int);
}

proof fn lemma_touched_upto_members(nmods: Seq<NativeModData>, vname: Seq<char>, i: int)
    requires
        0 <= i <= nmods.len(),
        nmods.len() <= usize::MAX,
    ensures
        forall|k: int|
            0 <= k < touched_upto(nmods, vname, i).len() ==> #[trigger] touched_upto(nmods, vname, i)[k] < i,
        forall|a: int, b: int|
            0 <= a < b < touched_upto(nmods, vname, i).len() ==> #[trigger] touched_upto(nmods, vname, i)[a]
                < #[trigger] touched_upto(nmods, vname, i)[b],
        forall|j: int|
            0 <= j < i ==> (touched_upto(nmods, vname, i).contains(j as usize) <==> touched(
                #[trigger] nmods[j],
                vname,
            )),
    decreases i,
{
    if i > 0 {
        lemma_touched_upto_members(nmods, vname, i - 1);
        let prev = touched_upto(nmods, vname, i - 1);
        let cur = touched_upto(nmods, vname, i);
        assert forall|j: int| 0 <= j < i implies (cur.contains(j as usize) <==> touched(
            #[trigger] nmods[j],
            vname,
        )) by {
            if touched(nmods[i - 1], vname) {
                assert(cur == prev.push((i - 1) as usize));
                if j < i - 1 {
                    if cur.contains(j as usize) {
                        let k = choose|k: int| 0 <= k < cur.len() && cur[k] == j as usize;
                        if k < prev.len() {
                            assert(prev[k] == j as usize);
                        }
                    }
                    if prev.contains(j as usize) {
                        let k = choose|k: int| 0 <= k < prev.len() && prev[k] == j as usize;
                        assert(cur[k] == j as usize);
                    }
                } else {
                    assert(cur[prev.len() as int] == j as usize);
                }
            } else {
                if j == i - 1 && cur.contains(j as usize) {
                    let k = choose|k: int| 0 <= k < cur.len() && cur[k] == j as usize;
                    assert(prev[k] < i - 1);
                }
            }
        }
    }
}

/// The selected indices are in range, strictly increasing (list order), and
/// include the chosen index `t`.
pub open spec fn selection_ok(ix: Seq<usize>, t: int, len: nat) -> bool {
    &&& ix.contains(t as usize)
    &&& forall|a: int| 0 <= a < ix.len() ==> #[trigger] ix[a] < len
    &&& forall|a: int, b: int| 0 <= a < b < ix.len() ==> #[trigger] ix[a] < #[trigger] ix[b]
}

proof fn lemma_selection_is_marked(nmods: Seq<NativeModData>, t: int, frame: u64, sm: SelectedMod)
    requires
        0 <= t < nmods.len(),
        nmods.len() <= usize::MAX,
        ({
            let hit = touched_upto(nmods, nmods[t].name@, nmods.len() as int);
            &&& hit.len() == 1 ==> sm == SelectedMod::One(t as usize)
            &&& hit.len() != 1 ==> (sm matches SelectedMod::Many(v) && v@ == hit)
        }),
    ensures
        forall|j: int|
            0 <= j < nmods.len() ==> #[trigger] mark_drawn(nmods, nmods[t].name@, frame)[j] == if sm.spec_indices().contains(
                j as usize,
            ) {
                NativeModData { last_frame_render: frame, ..nmods[j] }
            } else {
                nmods[j]
            },
        selection_ok(sm.spec_indices(), t, nmods.len()),
{
    let vname = nmods[t].name@;
    let hit = touched_upto(nmods, vname, nmods.len() as int);
    lemma_touched_upto_members(nmods, vname, nmods.len() as int);
    assert(touched(nmods[t], vname));
    if hit.len() == 1 {
        assert(hit.contains(t as usize));
        assert(hit[0] == t as usize);
        assert(sm.spec_indices() =~= hit);
    }
    assert forall|j: int| 0 <= j < nmods.len() implies sm.spec_indices().contains(j as usize)
        == touched(#[trigger] nmods[j], vname) by {
        if hit.len() == 1 {
            assert(sm.spec_indices() =~= hit);
        }
    }
}

/// When no mods are stored for the drawn geometry, `select` chooses nothing.
pub proof fn lemma_select_needs_stored_mods(st: LoadedModState, key: u32, frame: u64, bound: BoundTextures)
    requires
        !st.mods@.contains_key(key),
    ensures
        select_target(st, key, frame, bound) is None,
{
}

} // verus!

verus! {

/// Scan for the next variant: starting at `cur` (wrapping past the end to 0),
/// the first mod without parents, or `start` if the scan comes back to it or
/// runs out of `fuel`.
pub open spec fn variant_scan(v: Seq<NativeModData>, start: int, cur: int, fuel: nat) -> int
    decreases fuel,
{
    if fuel == 0 {
        start
    } else {
        let c = if cur >= v.len() {
            0
        } else {
            cur
        };
        if c == start {
            start
        } else if has_no_parents(v[c]) {
            c
        } else {
            variant_scan(v, start, c + 1, (fuel - 1) as nat)
        }
    }
}

/// The variant after `start` in cyclic order, skipping child mods.
pub open spec fn next_variant(v: Seq<NativeModData>, start: int) -> int {
    variant_scan(v, start, start + 1, (v.len() + 1) as nat)
}

/// The mods under a key take part in variant cycling: there is more than one
/// and one of them was drawn recently.
pub open spec fn cycles_variants(v: Seq<NativeModData>, frame: u64) -> bool {
    v.len() > 1 && exists|j: int| 0 <= j < v.len() && #[trigger] v[j].spec_recently_rendered(frame)
}

/// The current variant index for a key (0 when none is recorded).
pub open spec fn current_variant(sv: Map<u32, usize>, key: u32) -> int {
    if sv.contains_key(key) {
        sv[key] as int
    } else {
        0
    }
}

/// The variant index that follows the current one for the mods in `v`.
fn next_variant_index(v: &Vec<NativeModData>, start: usize) -> (r: usize)
    requires
        v@.len() > 1,
    ensures
        r as int == next_variant(v@, start as int),
{
    let len = v.len();
    let mut cur_raw: usize = if start >= len {
        len
    } else {
        start + 1
    };
    proof {
        if start >= len {
            assert(variant_scan(v@, start as int, start + 1, (len + 1) as nat) == variant_scan(
                v@,
                start as int,
                len as int,
                (len + 1) as nat,
            ));
        }
    }
    let mut steps: usize = 0;
    loop
        invariant
            len == v@.len(),
            len > 1,
            steps <= len,
            cur_raw <= len,
            next_variant(v@, start as int) == variant_scan(
                v@,
                start as int,
                cur_raw as int,
                (len + 1 - steps) as nat,
            ),
        decreases len - steps,
    {
        let c = if cur_raw >= len {
            0
        } else {
            cur_raw
        };
        if c == start {
            return start;
        }
        if v[c].parent_mod_names.len() == 0 {
            return c;
        }
        if steps == len {
            assert(variant_scan(v@, start as int, c as int + 1, 0) == start as int);
            return start;
        }
        steps = steps + 1;
        cur_raw = c + 1;
    }
}

/// True if some mod in `v` was drawn recently.
fn any_recently_rendered(v: &Vec<NativeModData>, frame: u64) -> (r: bool)
    ensures
        r == exists|j: int| 0 <= j < v@.len() && #[trigger] v@[j].spec_recently_rendered(frame),
{
    let mut i: usize = 0;
    while i < v.len()
        invariant
            i <= v@.len(),
            forall|j: int| 0 <= j < i ==> !#[trigger] v@[j].spec_recently_rendered(frame),
        decreases v@.len() - i,
    {
        if v[i].recently_rendered(frame) {
            return true;
        }
        i = i + 1;
    }
    false
}

/// Advance the selected variant of every geometry that has several mods, one
/// of which was drawn recently, to the next mod without parents (wrapping
/// around).  Other selections are left alone.
#[verifier::spinoff_prover]
pub fn select_next_variant(mstate: &mut LoadedModState, lastframe: u64)
    ensures
        final(mstate).mods == old(mstate).mods,
        final(mstate).mods_by_name == old(mstate).mods_by_name,
        forall|k: u32|
            #![trigger final(mstate).selected_variant@.contains_key(k)]
            if old(mstate).mods@.contains_key(k) && cycles_variants(
                old(mstate).mods@[k]@,
                lastframe,
            ) {
                final(mstate).selected_variant@.contains_key(k)
                    && final(mstate).selected_variant@[k] as int == next_variant(
                    old(mstate).mods@[k]@,
                    current_variant(old(mstate).selected_variant@, k),
                )
            } else {
                final(mstate).selected_variant@.contains_key(k)
                    == old(mstate).selected_variant@.contains_key(k) && (
                old(mstate).selected_variant@.contains_key(k)
                    ==> final(mstate).selected_variant@[k] == old(mstate).selected_variant@[k])
            },
{
    let ghost old_sv = mstate.selected_variant@;
    let ghost mods = mstate.mods@;
    let keys = fnv_map_keys(&mstate.mods);
    let mut i: usize = 0;
    while i < keys.len()
        invariant
            i <= keys@.len(),
            keys@.no_duplicates(),
            forall|k: u32| #[trigger] keys@.contains(k) <==> mods.contains_key(k),
            mstate.mods@ == mods,
            mstate.mods == old(mstate).mods,
            mstate.mods_by_name == old(mstate).mods_by_name,
            old_sv == old(mstate).selected_variant@,
            forall|k: u32|
                #![trigger mstate.selected_variant@.contains_key(k)]
                variant_updated(mods, old_sv, mstate.selected_variant@, lastframe, k, keys@.take(i as int).contains(k)),
        decreases keys@.len() - i,
    {
        let k = keys[i];
        let ghost done = keys@.take(i as int);
        let ghost sv_before = mstate.selected_variant@;
        assert(keys@.take(i + 1) =~= done.push(k));
        assert(!done.contains(k)) by {
            if done.contains(k) {
                let q = choose|q: int| 0 <= q < done.len() && done[q] == k;
                assert(keys@[q] == keys@[i as int]);
            }
        }
        assert(keys@.contains(k));
        let nmdv = match fnv_map_get(&mstate.mods, k) {
            Some(v) => v,
            None => {
                assert(false);
                i = i + 1;
                continue;
            },
        };
        if nmdv.len() <= 1 || !any_recently_rendered(nmdv, lastframe) {
            proof {
                assert(!cycles_variants(mods[k]@, lastframe));
                assert forall|k2: u32| #![trigger mstate.selected_variant@.contains_key(k2)]
                    variant_updated(mods, old_sv, mstate.selected_variant@, lastframe, k2, keys@.take(i + 1).contains(k2)) by {
                    assert(variant_updated(mods, old_sv, sv_before, lastframe, k2, done.contains(k2)));
                    lemma_push_contains(done, k, k2);
                }
            }
            i = i + 1;
            continue;
        }
        let start: usize = match fnv_map_get(&mstate.selected_variant, k) {
            Some(s) => *s,
            None => 0,
        };
        assert(variant_updated(mods, old_sv, sv_before, lastframe, k, false));
        assert(current_variant(old_sv, k) == start as int);
        let next = next_variant_index(nmdv, start);
        fnv_map_insert(&mut mstate.selected_variant, k, next);
        proof {
            assert(cycles_variants(mods[k]@, lastframe));
            assert forall|k2: u32| #![trigger mstate.selected_variant@.contains_key(k2)]
                variant_updated(mods, old_sv, mstate.selected_variant@, lastframe, k2, keys@.take(i + 1).contains(k2)) by {
                assert(variant_updated(mods, old_sv, sv_before, lastframe, k2, done.contains(k2)));
                lemma_push_contains(done, k, k2);
            }
        }
        i = i + 1;
    }
    proof {
        assert(keys@.take(keys@.len() as int) =~= keys@);
        assert forall|k: u32| #![trigger mstate.selected_variant@.contains_key(k)]
            variant_updated(mods, old_sv, mstate.selected_variant@, lastframe, k, mods.contains_key(k)) by {
            assert(variant_updated(mods, old_sv, mstate.selected_variant@, lastframe, k, keys@.take(i as int).contains(k)));
        }
    }
}

proof fn lemma_push_contains(s: Seq<u32>, x: u32, y: u32)
    ensures
        s.push(x).contains(y) == (s.contains(y) || y == x),
{
    if s.contains(y) {
        let q = choose|q: int| 0 <= q < s.len() && s[q] == y;
        assert(s.push(x)[q] == y);
    }
    if y == x {
        assert(s.push(x)[s.len() as int] == y);
    }
    if s.push(x).contains(y) {
        let q = choose|q: int| 0 <= q < s.push(x).len() && s.push(x)[q] == y;
        if q < s.len() {
            assert(s[q] == y);
        }
    }
}

/// The selection for key `k` is the next variant if `k` was processed and takes
/// part in cycling, and unchanged otherwise.
pub open spec fn variant_updated(
    mods: Map<u32, Vec<NativeModData>>,
    old_sv: Map<u32, usize>,
    sv: Map<u32, usize>,
    frame: u64,
    k: u32,
    processed: bool,
) -> bool {
    if processed && mods.contains_key(k) && cycles_variants(mods[k]@, frame) {
        sv.contains_key(k) && sv[k] as int == next_variant(mods[k]@, current_variant(old_sv, k))
    } else {
        sv.contains_key(k) == old_sv.contains_key(k) && (old_sv.contains_key(k) ==> sv[k]
            == old_sv[k])
    }
}

} // verus!

verus! {

proof fn lemma_variant_scan_result(v: Seq<NativeModData>, start: int, cur: int, fuel: nat)
    requires
        v.len() > 0,
        cur >= 0,
    ensures
        ({
            let r = variant_scan(v, start, cur, fuel);
            r == start || (0 <= r < v.len() && has_no_parents(v[r]))
        }),
    decreases fuel,
{
    if fuel > 0 {
        let c = if cur >= v.len() {
            0
        } else {
            cur
        };
        if c != start && !has_no_parents(v[c]) {
            lemma_variant_scan_result(v, start, c + 1, (fuel - 1) as nat);
        }
    }
}

/// Cycling variants never selects a child mod: the next variant is either a
/// mod without parents or the current selection, unchanged.
pub proof fn lemma_next_variant_has_no_parents(v: Seq<NativeModData>, start: int)
    requires
        v.len() > 1,
        start >= 0,
    ensures
        ({
            let r = next_variant(v, start);
            r == start || (0 <= r < v.len() && has_no_parents(v[r]))
        }),
{
    lemma_variant_scan_result(v, start, start + 1, (v.len() + 1) as nat);
}

} // verus!
