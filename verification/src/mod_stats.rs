//! Statistics on which mods are in use and for how long.
//!
//! The renderer reports, every few seconds, the names of the mods that are
//! loaded and were drawn recently.  `ModStats` keeps, per mod name, when the
//! current stretch of activity started, when it was last seen and how long it
//! has been active, and turns each report into messages for the stats file.
//! A mod that was not seen for longer than the idle limit starts a new
//! stretch.  `updated_stats_tail` computes how the end of the stats file
//! changes for a batch of messages.
//!
//! Times are nanoseconds relative to the Unix epoch (negative before it);
//! durations are nanoseconds.
use vstd::prelude::*;
use crate::loaded_mods::LoadedModState;
use crate::native_mod::{NativeModData, ModD3DState};
use crate::fnv_maps::{fnv_map_keys, fnv_map_get};
use crate::text::{ascii_bytes, decimal, push_digit_bytes};
use vstd::utf8::valid_utf8;
use vstd::string::StrSliceExecFns;

verus! {

/// Largest duration `std::time::Duration` holds, in nanoseconds.
pub const MAX_DURATION_NANOS: u128 = 18446744073709551615999999999;

pub const NANOS_PER_SEC: u128 = 1000000000;

/// Default time between two updates of the statistics.
pub const DEF_UPD_INTERVAL_NANOS: u128 = 5000000000;

/// Default idle time after which a mod that shows up again starts a new entry.
pub const DEF_IDLE_NANOS: u128 = 240000000000;

/// Bound on the magnitude of a time (far beyond what a system clock reports);
/// it keeps differences of times within `i128`.
pub const MAX_TIME_MAGNITUDE: i128 = 0x2000_0000_0000_0000_0000_0000_0000_0000;

pub open spec fn valid_time(t: i128) -> bool {
    -MAX_TIME_MAGNITUDE <= t <= MAX_TIME_MAGNITUDE
}

/// How long after `earlier` the time `now` is; zero if `now` is not later
/// (as `SystemTime::duration_since` falling back to zero).
pub open spec fn time_since(now: i128, earlier: i128) -> nat {
    if now >= earlier {
        (now - earlier) as nat
    } else {
        0
    }
}

fn duration_since(now: i128, earlier: i128) -> (d: u128)
    requires
        valid_time(now),
        valid_time(earlier),
    ensures
        d == time_since(now, earlier),
{
    if now >= earlier {
        (now - earlier) as u128
    } else {
        0
    }
}

/// One stretch of activity of a mod.
#[derive(Clone, Copy, Debug, PartialEq, Eq, Structural)]
pub struct Activity {
    /// When the stretch started.
    pub start: i128,
    /// When the mod was last seen active.
    pub last_update: i128,
    /// Total active time in the stretch.
    pub total: u128,
}

/// The activity of one mod, by name.
pub struct ActivityEntry {
    pub name: String,
    pub activity: Activity,
}

/// The activity recorded in a list of entries, by mod name.
pub open spec fn entries_map(s: Seq<ActivityEntry>) -> Map<Seq<char>, Activity>
    decreases s.len(),
{
    if s.len() == 0 {
        Map::empty()
    } else {
        entries_map(s.drop_last()).insert(s.last().name@, s.last().activity)
    }
}

pub open spec fn names_unique(s: Seq<ActivityEntry>) -> bool {
    forall|i: int, j: int| 0 <= i < j < s.len() ==> s[i].name@ != s[j].name@
}

proof fn lemma_entries_map(s: Seq<ActivityEntry>)
    requires
        names_unique(s),
    ensures
        forall|i: int|
            0 <= i < s.len() ==> #[trigger] entries_map(s).contains_key(s[i].name@)
                && entries_map(s)[s[i].name@] == s[i].activity,
        forall|k: Seq<char>|
            entries_map(s).contains_key(k) ==> exists|i: int|
                0 <= i < s.len() && #[trigger] s[i].name@ == k,
    decreases s.len(),
{
    if s.len() > 0 {
        let t = s.drop_last();
        assert(names_unique(t));
        lemma_entries_map(t);
        assert forall|i: int| 0 <= i < s.len() implies #[trigger] entries_map(s).contains_key(
            s[i].name@,
        ) && entries_map(s)[s[i].name@] == s[i].activity by {
            if i < s.len() - 1 {
                assert(t[i] == s[i]);
                assert(entries_map(t).contains_key(t[i].name@));
                assert(s[i].name@ != s.last().name@);
            }
        }
        assert forall|k: Seq<char>| entries_map(s).contains_key(k) implies exists|i: int|
            0 <= i < s.len() && #[trigger] s[i].name@ == k by {
            if k != s.last().name@ {
                assert(entries_map(t).contains_key(k));
                let i = choose|i: int| 0 <= i < t.len() && #[trigger] t[i].name@ == k;
                assert(s[i].name@ == k);
            } else {
                assert(s[s.len() - 1].name@ == k);
            }
        }
    }
}

proof fn lemma_entries_map_update(s: Seq<ActivityEntry>, i: int, e: ActivityEntry)
    requires
        names_unique(s),
        0 <= i < s.len(),
        e.name@ == s[i].name@,
    ensures
        names_unique(s.update(i, e)),
        entries_map(s.update(i, e)) == entries_map(s).insert(e.name@, e.activity),
    decreases s.len(),
{
    let u = s.update(i, e);
    assert(names_unique(u));
    if i == s.len() - 1 {
        assert(u.drop_last() =~= s.drop_last());
        lemma_entries_map(s.drop_last());
        assert(!entries_map(s.drop_last()).contains_key(e.name@)) by {
            if entries_map(s.drop_last()).contains_key(e.name@) {
                let j = choose|j: int|
                    0 <= j < s.drop_last().len() && #[trigger] s.drop_last()[j].name@ == e.name@;
                assert(s[j].name@ == s[i].name@);
            }
        }
        assert(entries_map(u) =~= entries_map(s).insert(e.name@, e.activity));
    } else {
        let t = s.drop_last();
        assert(names_unique(t));
        lemma_entries_map_update(t, i, e);
        assert(u.drop_last() =~= t.update(i, e));
        assert(u.last() == s.last());
        assert(s.last().name@ != e.name@);
        assert(entries_map(u) =~= entries_map(s).insert(e.name@, e.activity));
    }
}

/// Usage statistics: the activity of each mod seen, and the settings of the
/// tracker.
pub struct ModStats {
    /// When the statistics were last updated.
    last_render_update: i128,
    last_rendered: Vec<ActivityEntry>,
    /// Minimum time between two updates.
    upd_interval: u128,
    /// Idle time after which a mod starts a new stretch.
    idle_new: u128,
    /// The stats file; `DEF_FILE_NAME` until a location is chosen.
    file_name: String,
}

/// The stats file name used until a location is chosen.
pub open spec fn def_file_name() -> Seq<char> {
    "mod_stats.txt"@
}

fn def_file_name_string() -> (s: String)
    ensures
        s@ == def_file_name(),
{
    String::from_str("mod_stats.txt")
}

impl ModStats {
    pub closed spec fn wf(&self) -> bool {
        &&& valid_time(self.last_render_update)
        &&& names_unique(self.last_rendered@)
        &&& forall|i: int|
            0 <= i < self.last_rendered@.len() ==> valid_time(
                #[trigger] self.last_rendered@[i].activity.last_update,
            )
    }

    /// Activity by mod name.
    pub closed spec fn activity(&self) -> Map<Seq<char>, Activity> {
        entries_map(self.last_rendered@)
    }

    pub closed spec fn last_update_time(&self) -> i128 {
        self.last_render_update
    }

    pub closed spec fn interval(&self) -> u128 {
        self.upd_interval
    }

    pub closed spec fn idle_limit(&self) -> u128 {
        self.idle_new
    }

    pub closed spec fn file(&self) -> Seq<char> {
        self.file_name@
    }

    /// Statistics with no activity, last updated at `now`, with the default
    /// interval, idle limit and file name.
    pub fn new(now: i128) -> (s: ModStats)
        requires
            valid_time(now),
        ensures
            s.wf(),
            s.activity() == Map::<Seq<char>, Activity>::empty(),
            s.last_update_time() == now,
            s.interval() == DEF_UPD_INTERVAL_NANOS,
            s.idle_limit() == DEF_IDLE_NANOS,
            s.file() == def_file_name(),
    {
        let s = ModStats {
            last_render_update: now,
            last_rendered: Vec::new(),
            upd_interval: DEF_UPD_INTERVAL_NANOS,
            idle_new: DEF_IDLE_NANOS,
            file_name: def_file_name_string(),
        };
        assert(s.last_rendered@ =~= Seq::<ActivityEntry>::empty());
        assert(entries_map(s.last_rendered@) =~= Map::<Seq<char>, Activity>::empty());
        s
    }

    /// Forget all activity and restore the default settings; the statistics
    /// count as last updated at `now`.
    pub fn reset(&mut self, now: i128)
        requires
            valid_time(now),
        ensures
            final(self).wf(),
            final(self).activity() == Map::<Seq<char>, Activity>::empty(),
            final(self).last_update_time() == now,
            final(self).interval() == DEF_UPD_INTERVAL_NANOS,
            final(self).idle_limit() == DEF_IDLE_NANOS,
            final(self).file() == def_file_name(),
    {
        *self = ModStats::new(now);
    }

    /// Use `filepath` as the stats file.
    pub fn set_filename(&mut self, filepath: &str)
        ensures
            final(self).file() == filepath@,
            final(self).activity() == old(self).activity(),
            final(self).last_update_time() == old(self).last_update_time(),
            final(self).interval() == old(self).interval(),
            final(self).idle_limit() == old(self).idle_limit(),
            old(self).wf() ==> final(self).wf(),
    {
        self.file_name = String::from_str(filepath);
    }

    /// The stats file.
    pub fn file_name(&self) -> (r: &String)
        ensures
            r@ == self.file(),
    {
        &self.file_name
    }

    /// Set the minimum time between updates.
    pub fn set_update_interval(&mut self, nanos: u128)
        ensures
            final(self).interval() == nanos,
            final(self).activity() == old(self).activity(),
            final(self).last_update_time() == old(self).last_update_time(),
            final(self).idle_limit() == old(self).idle_limit(),
            final(self).file() == old(self).file(),
            old(self).wf() ==> final(self).wf(),
    {
        self.upd_interval = nanos;
    }

    /// Set the idle time after which a mod starts a new stretch.
    pub fn set_idle_limit(&mut self, nanos: u128)
        ensures
            final(self).idle_limit() == nanos,
            final(self).activity() == old(self).activity(),
            final(self).last_update_time() == old(self).last_update_time(),
            final(self).interval() == old(self).interval(),
            final(self).file() == old(self).file(),
            old(self).wf() ==> final(self).wf(),
    {
        self.idle_new = nanos;
    }

    /// Position of the entry for `name`, if there is one.
    fn find(&self, name: &String) -> (r: Option<usize>)
        requires
            self.wf(),
        ensures
            match r {
                Some(i) => i < self.last_rendered@.len() && self.last_rendered@[i as int].name@
                    == name@,
                None => !self.activity().contains_key(name@),
            },
    {
        let mut i: usize = 0;
        while i < self.last_rendered.len()
            invariant
                i <= self.last_rendered@.len(),
                forall|j: int| 0 <= j < i ==> self.last_rendered@[j].name@ != name@,
            decreases self.last_rendered@.len() - i,
        {
            if self.last_rendered[i].name == *name {
                return Some(i);
            }
            i = i + 1;
        }
        proof {
            lemma_entries_map(self.last_rendered@);
        }
        None
    }
}

/// A message for the stats file about one active mod.
#[derive(Debug)]
pub enum ModMsg {
    /// The mod started a new stretch of activity at the given time.
    NewModActive(String, i128),
    /// The mod's stretch that started at the given time has lasted the given
    /// total so far.
    ModActive(String, i128, u128),
}

/// True when `name` starts a new stretch at `now`: it was never seen, or not
/// for longer than `idle`.
pub open spec fn starts_stretch(m: Map<Seq<char>, Activity>, name: Seq<char>, now: i128, idle: u128) -> bool {
    !m.contains_key(name) || time_since(now, m[name].last_update) > idle
}

/// The activity after `name` is seen active at `now`, `elapsed` after the
/// previous update.
pub open spec fn note_active(
    m: Map<Seq<char>, Activity>,
    name: Seq<char>,
    now: i128,
    elapsed: u128,
    idle: u128,
) -> Map<Seq<char>, Activity> {
    if starts_stretch(m, name, now, idle) {
        m.insert(name, Activity { start: now, last_update: now, total: 0 })
    } else {
        m.insert(
            name,
            Activity { start: m[name].start, last_update: now, total: (m[name].total + elapsed) as u128 },
        )
    }
}

/// The activity after each of `names` is seen active in turn.
pub open spec fn activity_after(
    m: Map<Seq<char>, Activity>,
    names: Seq<Seq<char>>,
    now: i128,
    elapsed: u128,
    idle: u128,
) -> Map<Seq<char>, Activity>
    decreases names.len(),
{
    if names.len() == 0 {
        m
    } else {
        note_active(activity_after(m, names.drop_last(), now, elapsed, idle), names.last(), now, elapsed, idle)
    }
}

/// How many of `names`, seen in turn, start a new stretch.
pub open spec fn count_new(
    m: Map<Seq<char>, Activity>,
    names: Seq<Seq<char>>,
    now: i128,
    elapsed: u128,
    idle: u128,
) -> nat
    decreases names.len(),
{
    if names.len() == 0 {
        0
    } else {
        count_new(m, names.drop_last(), now, elapsed, idle) + if starts_stretch(
            activity_after(m, names.drop_last(), now, elapsed, idle),
            names.last(),
            now,
            idle,
        ) {
            1nat
        } else {
            0nat
        }
    }
}

/// `msg` is the message for `name` seen active at `now` when the activity was `m`.
pub open spec fn msg_for(
    msg: ModMsg,
    m: Map<Seq<char>, Activity>,
    name: Seq<char>,
    now: i128,
    elapsed: u128,
    idle: u128,
) -> bool {
    match msg {
        ModMsg::NewModActive(n, t) => starts_stretch(m, name, now, idle) && n@ == name && t == now,
        ModMsg::ModActive(n, start, total) => !starts_stretch(m, name, now, idle) && n@ == name
            && start == m[name].start && total == m[name].total + elapsed,
    }
}

pub open spec fn string_views(s: Seq<String>) -> Seq<Seq<char>> {
    s.map_values(|x: String| x@)
}

/// The outcome of an update.
pub struct StatsUpdate {
    /// `None` if the update interval had not passed (nothing was done);
    /// otherwise the number of mods that started a new stretch and the number
    /// of active mods.
    pub counts: Option<(u32, u32)>,
    /// The messages for the stats file, one per active mod, in order.
    pub msgs: Vec<ModMsg>,
}

impl ModStats {
    /// The time to credit to active mods when updating at `now`: the time
    /// since the last update, but at most twice the update interval (longer
    /// gaps, such as while the game was in the background, are not counted).
    pub open spec fn credited(&self, now: i128) -> nat {
        let d = time_since(now, self.last_update_time());
        if d > 2 * self.interval() {
            (2 * self.interval()) as nat
        } else {
            d
        }
    }

    /// Durations stay within `Duration`'s range when `n` mods are credited.
    pub open spec fn update_fits(&self, n: nat) -> bool {
        &&& 2 * self.interval() <= MAX_DURATION_NANOS
        &&& n * (2 * self.interval()) <= MAX_DURATION_NANOS
        &&& forall|k: Seq<char>|
            #[trigger] self.activity().contains_key(k) ==> self.activity()[k].total + n * (2
                * self.interval()) <= MAX_DURATION_NANOS
    }

    /// Whether `update_fits(n)` holds.
    pub fn can_update(&self, n: usize) -> (r: bool)
        requires
            self.wf(),
        ensures
            r == self.update_fits(n as nat),
    {
        if self.upd_interval > MAX_DURATION_NANOS / 2 {
            return false;
        }
        let per: u128 = 2 * self.upd_interval;
        if per > 0 && n as u128 > MAX_DURATION_NANOS / per {
            proof {
                assert(n * per > MAX_DURATION_NANOS) by (nonlinear_arith)
                    requires
                        per > 0,
                        n > MAX_DURATION_NANOS / per,
                ;
            }
            return false;
        }
        assert(n * per <= MAX_DURATION_NANOS) by (nonlinear_arith)
            requires
                per == 0 || n <= MAX_DURATION_NANOS / per,
        ;
        let budget: u128 = n as u128 * per;
        let mut i: usize = 0;
        while i < self.last_rendered.len()
            invariant
                i <= self.last_rendered@.len(),
                self.wf(),
                per == 2 * self.interval(),
                budget == n * per,
                budget <= MAX_DURATION_NANOS,
                forall|j: int|
                    0 <= j < i ==> #[trigger] self.last_rendered@[j].activity.total + budget
                        <= MAX_DURATION_NANOS,
            decreases self.last_rendered@.len() - i,
        {
            if self.last_rendered[i].activity.total > MAX_DURATION_NANOS - budget {
                proof {
                    lemma_entries_map(self.last_rendered@);
                    let k = self.last_rendered@[i as int].name@;
                    assert(self.activity().contains_key(k));
                    assert(self.activity()[k] == self.last_rendered@[i as int].activity);
                }
                return false;
            }
            i = i + 1;
        }
        proof {
            lemma_entries_map(self.last_rendered@);
            assert forall|k: Seq<char>| #[trigger] self.activity().contains_key(k) implies self.activity()[k].total
                + n * (2 * self.interval()) <= MAX_DURATION_NANOS by {
                let j = choose|j: int|
                    0 <= j < self.last_rendered@.len() && #[trigger] self.last_rendered@[j].name@ == k;
                assert(self.activity()[k] == self.last_rendered@[j].activity);
            }
        }
        true
    }
}

impl ModStats {
    /// True when the update interval has passed at `now`.
    pub open spec fn due(&self, now: i128) -> bool {
        time_since(now, self.last_update_time()) >= self.interval()
    }

    /// Record that the mods named in `active` (in this order; a name may occur
    /// more than once) were drawn recently, at time `now`.
    ///
    /// Nothing happens before the update interval has passed.  Otherwise each
    /// active mod is credited with the time since the last update (at most
    /// twice the interval), or starts a new stretch if it was never seen or
    /// idle for longer than the idle limit; one message per active mod says
    /// which.  The counts are the number of new stretches and the number of
    /// active mods.
    pub fn update(&mut self, now: i128, active: &Vec<String>) -> (r: StatsUpdate)
        requires
            old(self).wf(),
            valid_time(now),
            active@.len() <= u32::MAX,
            old(self).update_fits(active@.len()),
        ensures
            final(self).wf(),
            final(self).interval() == old(self).interval(),
            final(self).idle_limit() == old(self).idle_limit(),
            final(self).file() == old(self).file(),
            !old(self).due(now) ==> r.counts is None,
            !old(self).due(now) ==> r.msgs@.len() == 0,
            !old(self).due(now) ==> final(self).activity() == old(self).activity(),
            !old(self).due(now) ==> final(self).last_update_time() == old(self).last_update_time(),
            old(self).due(now) ==> r.counts == Some(
                (
                    count_new(
                        old(self).activity(),
                        string_views(active@),
                        now,
                        old(self).credited(now) as u128,
                        old(self).idle_limit(),
                    ) as u32,
                    active@.len() as u32,
                ),
            ),
            old(self).due(now) ==> final(self).last_update_time() == now,
            old(self).due(now) ==> final(self).activity() == activity_after(
                old(self).activity(),
                string_views(active@),
                now,
                old(self).credited(now) as u128,
                old(self).idle_limit(),
            ),
            old(self).due(now) ==> r.msgs@.len() == active@.len(),
            old(self).due(now) ==> forall|i: int|
                0 <= i < active@.len() ==> msg_for(
                    #[trigger] r.msgs@[i],
                    activity_after(
                        old(self).activity(),
                        string_views(active@).take(i),
                        now,
                        old(self).credited(now) as u128,
                        old(self).idle_limit(),
                    ),
                    active@[i]@,
                    now,
                    old(self).credited(now) as u128,
                    old(self).idle_limit(),
                ),
    {
        let d = duration_since(now, self.last_render_update);
        if d < self.upd_interval {
            return StatsUpdate { counts: None, msgs: Vec::new() };
        }
        let cap: u128 = 2 * self.upd_interval;
        let elapsed: u128 = if d > cap {
            cap
        } else {
            d
        };
        self.last_render_update = now;
        let ghost m0 = self.activity();
        let ghost names = string_views(active@);
        let ghost idle = self.idle_new;
        let ghost n = active@.len();
        proof {
            assert(n * elapsed <= n * cap) by (nonlinear_arith)
                requires
                    elapsed <= cap,
            ;
            assert(names.take(0) =~= Seq::<Seq<char>>::empty());
            assert forall|k: Seq<char>| #[trigger] m0.contains_key(k) implies m0[k].total + (n - 0) * elapsed
                <= MAX_DURATION_NANOS by {
                assert(old(self).activity().contains_key(k));
                assert(m0[k].total + n * cap <= MAX_DURATION_NANOS);
            }
        }
        let mut msgs: Vec<ModMsg> = Vec::new();
        let mut new_active: u32 = 0;
        let mut i: usize = 0;
        while i < active.len()
            invariant
                self.wf(),
                i <= active@.len(),
                n == active@.len(),
                n <= u32::MAX,
                names == string_views(active@),
                idle == self.idle_new,
                self.upd_interval == old(self).upd_interval,
                self.file_name@ == old(self).file_name@,
                self.last_render_update == now,
                elapsed <= cap,
                n * elapsed <= MAX_DURATION_NANOS,
                self.activity() == activity_after(m0, names.take(i as int), now, elapsed, idle),
                new_active == count_new(m0, names.take(i as int), now, elapsed, idle),
                new_active <= i,
                msgs@.len() == i,
                forall|j: int|
                    0 <= j < i ==> msg_for(
                        #[trigger] msgs@[j],
                        activity_after(m0, names.take(j), now, elapsed, idle),
                        names[j],
                        now,
                        elapsed,
                        idle,
                    ),
                forall|k: Seq<char>|
                    #[trigger] self.activity().contains_key(k) ==> self.activity()[k].total + (n
                        - i) * elapsed <= MAX_DURATION_NANOS,
                valid_time(now),
            decreases n - i,
        {
            let ghost before = self.activity();
            let ghost nm = names[i as int];
            proof {
                assert(names.take(i + 1).drop_last() =~= names.take(i as int));
                assert(names.take(i + 1).last() == nm);
                assert(active@[i as int]@ == nm);
                assert((n - i) * elapsed == (n - i - 1) * elapsed + elapsed) by (nonlinear_arith);
                assert(0 <= (n - i - 1) * elapsed <= n * elapsed) by (nonlinear_arith)
                    requires
                        0 <= i < n,
                ;
            }
            let ghost entries_before = self.last_rendered@;
            assert(forall|x: int|
                0 <= x < entries_before.len() ==> valid_time(
                    #[trigger] entries_before[x].activity.last_update,
                ));
            let name = &active[i];
            match self.find(name) {
                None => {
                    proof {
                        lemma_entries_map(self.last_rendered@);
                    }
                    let e = ActivityEntry {
                        name: name.clone(),
                        activity: Activity { start: now, last_update: now, total: 0 },
                    };
                    self.last_rendered.push(e);
                    proof {
                        assert(self.last_rendered@.drop_last() =~= entries_before);
                        assert(self.last_rendered@.last() == e);
                        assert forall|a: int, b: int|
                            0 <= a < b < self.last_rendered@.len() implies self.last_rendered@[a].name@
                            != self.last_rendered@[b].name@ by {
                            if b == self.last_rendered@.len() - 1 {
                                assert(entries_before[a].name@ != nm) by {
                                    assert(entries_map(entries_before).contains_key(
                                        entries_before[a].name@,
                                    ));
                                }
                            }
                        }
                    }
                    proof {
                        assert forall|x: int| 0 <= x < self.last_rendered@.len() implies valid_time(
                            #[trigger] self.last_rendered@[x].activity.last_update,
                        ) by {
                            if x < entries_before.len() {
                                assert(self.last_rendered@[x] == entries_before[x]);
                            }
                        }
                    }
                    new_active = new_active + 1;
                    msgs.push(ModMsg::NewModActive(name.clone(), now));
                },
                Some(j) => {
                    proof {
                        lemma_entries_map(self.last_rendered@);
                    }
                    let a = self.last_rendered[j].activity;
                    proof {
                        assert(self.activity().contains_key(nm));
                        assert(before[nm] == a);
                    }
                    let idle_time = duration_since(now, a.last_update);
                    if idle_time > self.idle_new {
                        let e = ActivityEntry {
                            name: name.clone(),
                            activity: Activity { start: now, last_update: now, total: 0 },
                        };
                        proof {
                            lemma_entries_map_update(self.last_rendered@, j as int, e);
                        }
                        self.last_rendered.set(j, e);
                        proof {
                            assert forall|x: int| 0 <= x < self.last_rendered@.len() implies valid_time(
                                #[trigger] self.last_rendered@[x].activity.last_update,
                            ) by {
                                if x != j {
                                    assert(self.last_rendered@[x] == entries_before[x]);
                                    assert(valid_time(entries_before[x].activity.last_update));
                                } else {
                                    assert(self.last_rendered@[x] == e);
                                }
                            }
                        }
                        new_active = new_active + 1;
                        msgs.push(ModMsg::NewModActive(name.clone(), now));
                    } else {
                        let total = a.total + elapsed;
                        let e = ActivityEntry {
                            name: name.clone(),
                            activity: Activity { start: a.start, last_update: now, total },
                        };
                        proof {
                            lemma_entries_map_update(self.last_rendered@, j as int, e);
                        }
                        self.last_rendered.set(j, e);
                        proof {
                            assert forall|x: int| 0 <= x < self.last_rendered@.len() implies valid_time(
                                #[trigger] self.last_rendered@[x].activity.last_update,
                            ) by {
                                if x != j {
                                    assert(self.last_rendered@[x] == entries_before[x]);
                                    assert(valid_time(entries_before[x].activity.last_update));
                                } else {
                                    assert(self.last_rendered@[x] == e);
                                }
                            }
                        }
                        msgs.push(ModMsg::ModActive(name.clone(), a.start, total));
                    }
                },
            }
            proof {
                assert(self.activity() == note_active(before, nm, now, elapsed, idle));
                assert forall|k: Seq<char>| #[trigger] self.activity().contains_key(k) implies self.activity()[k].total
                    + (n - (i + 1)) * elapsed <= MAX_DURATION_NANOS by {
                    if k != nm {
                        assert(before.contains_key(k));
                    }
                }
                assert forall|j: int| 0 <= j < i + 1 implies msg_for(
                    #[trigger] msgs@[j],
                    activity_after(m0, names.take(j), now, elapsed, idle),
                    names[j],
                    now,
                    elapsed,
                    idle,
                ) by {
                    if j == i {
                        assert(names.take(j) =~= names.take(i as int));
                    }
                }
            }
            i = i + 1;
        }
        proof {
            assert(names.take(n as int) =~= names);
        }
        StatsUpdate { counts: Some((new_active, active.len() as u32)), msgs }
    }
}

/// True when the mod's resources are loaded and it was drawn recently.
pub open spec fn is_active(m: NativeModData, frame: u64) -> bool {
    m.d3d_data == ModD3DState::Loaded && m.spec_recently_rendered(frame)
}

/// Names of the active mods among `v`, in order.
pub open spec fn active_in(v: Seq<NativeModData>, frame: u64) -> Seq<Seq<char>>
    decreases v.len(),
{
    if v.len() == 0 {
        Seq::empty()
    } else {
        active_in(v.drop_last(), frame) + if is_active(v.last(), frame) {
            seq![v.last().name@]
        } else {
            Seq::<Seq<char>>::empty()
        }
    }
}

/// Names of the active mods stored under the keys `ks`, key by key.
pub open spec fn active_over(m: Map<u32, Vec<NativeModData>>, ks: Seq<u32>, frame: u64) -> Seq<
    Seq<char>,
>
    decreases ks.len(),
{
    if ks.len() == 0 {
        Seq::empty()
    } else {
        active_over(m, ks.drop_last(), frame) + active_in(m[ks.last()]@, frame)
    }
}

/// Names of the mods that are loaded and were drawn recently (relative to
/// frame `total_frames`), walking the mod keys in the map's order and the mods
/// of each key in order.
pub fn active_mod_names(mods: &LoadedModState, total_frames: u64) -> (r: Vec<String>)
    ensures
        exists|ks: Seq<u32>|
            {
                &&& ks.no_duplicates()
                &&& forall|k: u32| #[trigger] ks.contains(k) <==> mods.mods@.contains_key(k)
                &&& string_views(r@) == active_over(mods.mods@, ks, total_frames)
            },
{
    let keys = fnv_map_keys(&mods.mods);
    let ghost m = mods.mods@;
    let mut r: Vec<String> = Vec::new();
    let mut i: usize = 0;
    proof {
        assert(keys@.take(0) =~= Seq::<u32>::empty());
        assert(string_views(r@) =~= Seq::<Seq<char>>::empty());
    }
    while i < keys.len()
        invariant
            i <= keys@.len(),
            m == mods.mods@,
            forall|k: u32| #[trigger] keys@.contains(k) <==> m.contains_key(k),
            string_views(r@) == active_over(m, keys@.take(i as int), total_frames),
        decreases keys@.len() - i,
    {
        let k = keys[i];
        proof {
            assert(keys@.contains(k));
            assert(keys@.take(i + 1).drop_last() =~= keys@.take(i as int));
            assert(keys@.take(i + 1).last() == k);
        }
        let ghost prefix = string_views(r@);
        match fnv_map_get(&mods.mods, k) {
            Some(v) => {
                let mut j: usize = 0;
                proof {
                    assert(v@.take(0) =~= Seq::<NativeModData>::empty());
                    assert(prefix + active_in(v@.take(0), total_frames) =~= prefix);
                }
                while j < v.len()
                    invariant
                        j <= v@.len(),
                        string_views(r@) == prefix + active_in(v@.take(j as int), total_frames),
                    decreases v@.len() - j,
                {
                    let ghost before = r@;
                    proof {
                        assert(v@.take(j + 1).drop_last() =~= v@.take(j as int));
                        assert(v@.take(j + 1).last() == v@[j as int]);
                    }
                    if v[j].is_loaded() && v[j].recently_rendered(total_frames) {
                        r.push(v[j].name.clone());
                        proof {
                            assert(string_views(r@) =~= string_views(before).push(v@[j as int].name@));
                        }
                    }
                    proof {
                        assert(string_views(r@) =~= prefix + active_in(v@.take(j + 1), total_frames));
                    }
                    j = j + 1;
                }
                proof {
                    assert(v@.take(v@.len() as int) =~= v@);
                }
            },
            None => {
                assert(false);
            },
        }
        i = i + 1;
    }
    proof {
        assert(keys@.take(keys@.len() as int) =~= keys@);
    }
    r
}

/// The stats file in the `Logs` folder of the ModelMod root `root`, for the
/// executable with base name `exe_base`.
pub open spec fn stats_file_path(root: Seq<char>, exe_base: Seq<char>) -> Seq<char> {
    root + "\\Logs\\"@ + "modstats."@ + exe_base + ".log"@
}

impl ModStats {
    /// Choose the stats file if none was chosen yet: the executable's file in
    /// the `Logs` folder under the ModelMod root.  Nothing changes when a file
    /// was set already, when the root is unknown or when the executable's
    /// base name is empty.
    pub fn choose_file_name(&mut self, mm_root: Option<&str>, exe_base: &str)
        ensures
            (old(self).file() == def_file_name() && mm_root is Some && exe_base@.len() > 0)
                ==> final(self).file() == stats_file_path(mm_root->0@, exe_base@),
            !(old(self).file() == def_file_name() && mm_root is Some && exe_base@.len() > 0)
                ==> final(self).file() == old(self).file(),
            final(self).activity() == old(self).activity(),
            final(self).last_update_time() == old(self).last_update_time(),
            final(self).interval() == old(self).interval(),
            final(self).idle_limit() == old(self).idle_limit(),
            old(self).wf() ==> final(self).wf(),
    {
        let def = def_file_name_string();
        if self.file_name != def {
            return;
        }
        match mm_root {
            None => {},
            Some(root) => {
                if exe_base.is_empty() {
                    return;
                }
                let mut path = String::from_str(root);
                path.append("\\Logs\\");
                path.append("modstats.");
                path.append(exe_base);
                path.append(".log");
                self.file_name = path;
            },
        }
    }
}

/// The text a stats line starts with: the start time of the stretch (as the
/// caller formats times) and the quoted mod name, as UTF-8.
pub open spec fn stat_key_text(time_text: Seq<char>, name: Seq<char>) -> Seq<char> {
    time_text + ": '"@ + name + "'"@
}

/// The UTF-8 bytes of `stat_key_text(time_text, name)`.
pub fn stat_key(time_text: &str, name: &str) -> (r: Vec<u8>)
    ensures
        r@ == vstd::utf8::encode_utf8(stat_key_text(time_text@, name@)),
{
    let mut s = String::from_str(time_text);
    s.append(": '");
    s.append(name);
    s.append("'");
    s.as_str().as_bytes_vec()
}

/// What `String::from_utf8_lossy` makes of `b`, as bytes.
pub uninterp spec fn lossy_utf8(b: Seq<u8>) -> Seq<u8>;

/// `String::from_utf8_lossy`: the bytes with each invalid UTF-8 sequence
/// replaced by U+FFFD; valid UTF-8 comes back unchanged.
#[verifier::external_body]
fn utf8_lossy(b: &[u8]) -> (r: Vec<u8>)
    ensures
        r@ == lossy_utf8(b@),
        valid_utf8(b@) ==> r@ == b@,
{
    String::from_utf8_lossy(b).into_owned().into_bytes()
}

/// How long a stretch lasted, as the stats file says it: "M`m` S`s`" from a
/// minute on, "S` secs`" below.
pub open spec fn time_text(total: nat) -> Seq<u8> {
    let secs = total / (NANOS_PER_SEC as nat);
    if secs >= 60 {
        ascii_bytes(decimal(secs / 60)) + ascii_bytes(seq!['m', ' ']) + ascii_bytes(decimal(secs % 60))
            + ascii_bytes(seq!['s'])
    } else {
        ascii_bytes(decimal(secs)) + ascii_bytes(seq![' ', 's', 'e', 'c', 's'])
    }
}

/// The stats line for a stretch: its key, a space and its duration.
pub open spec fn stat_line(key: Seq<u8>, total: nat) -> Seq<u8> {
    key + seq![32u8] + time_text(total)
}

fn push_bytes(out: &mut Vec<u8>, src: &Vec<u8>)
    ensures
        final(out)@ == old(out)@ + src@,
{
    let mut i: usize = 0;
    while i < src.len()
        invariant
            i <= src@.len(),
            out@ == old(out)@ + src@.take(i as int),
        decreases src@.len() - i,
    {
        out.push(src[i]);
        proof {
            assert(src@.take(i + 1) =~= src@.take(i as int).push(src@[i as int]));
        }
        i = i + 1;
    }
    proof {
        assert(src@.take(src@.len() as int) =~= src@);
    }
}

fn push_stat_line(out: &mut Vec<u8>, key: &Vec<u8>, total: u128)
    requires
        total <= MAX_DURATION_NANOS,
    ensures
        final(out)@ == old(out)@ + stat_line(key@, total as nat) + seq![10u8],
{
    let ghost o = out@;
    push_bytes(out, key);
    out.push(32u8);
    let secs: u64 = (total / NANOS_PER_SEC) as u64;
    if secs >= 60 {
        push_digit_bytes(out, secs / 60, 10);
        out.push(109u8);
        out.push(32u8);
        push_digit_bytes(out, secs % 60, 10);
        out.push(115u8);
    } else {
        push_digit_bytes(out, secs, 10);
        out.push(32u8);
        out.push(115u8);
        out.push(101u8);
        out.push(99u8);
        out.push(115u8);
    }
    out.push(10u8);
    proof {
        assert(ascii_bytes(seq!['m', ' ']) =~= seq![109u8, 32u8]);
        assert(ascii_bytes(seq!['s']) =~= seq![115u8]);
        assert(ascii_bytes(seq![' ', 's', 'e', 'c', 's']) =~= seq![32u8, 115u8, 101u8, 99u8, 115u8]);
        assert(out@ =~= o + stat_line(key@, total as nat) + seq![10u8]);
    }
}

/// A stretch to write to the stats file: its key (see `stat_key`) and the
/// total time reported for it.
pub struct StatEntry {
    pub key: Vec<u8>,
    pub total: u128,
}

pub open spec fn entry_pairs(s: Seq<StatEntry>) -> Seq<(Seq<u8>, nat)> {
    s.map_values(|e: StatEntry| (e.key@, e.total as nat))
}

/// Position of the first pair with key `k`, or -1.
pub open spec fn key_index(a: Seq<(Seq<u8>, nat)>, k: Seq<u8>) -> int
    decreases a.len(),
{
    if a.len() == 0 {
        -1
    } else {
        let i = key_index(a.drop_last(), k);
        if i >= 0 {
            i
        } else if a.last().0 == k {
            a.len() - 1
        } else {
            -1
        }
    }
}

/// The keys of `e` in order of first appearance, each with the sum of the
/// totals reported for it.
pub open spec fn aggregate(e: Seq<StatEntry>) -> Seq<(Seq<u8>, nat)>
    decreases e.len(),
{
    if e.len() == 0 {
        Seq::empty()
    } else {
        let a = aggregate(e.drop_last());
        let i = key_index(a, e.last().key@);
        if i >= 0 {
            a.update(i, (a[i].0, (a[i].1 + e.last().total) as nat))
        } else {
            a.push((e.last().key@, e.last().total as nat))
        }
    }
}

proof fn lemma_key_index(a: Seq<(Seq<u8>, nat)>, k: Seq<u8>)
    ensures
        -1 <= key_index(a, k) < a.len(),
        key_index(a, k) >= 0 ==> a[key_index(a, k)].0 == k,
        key_index(a, k) >= 0 ==> forall|j: int| 0 <= j < key_index(a, k) ==> a[j].0 != k,
        key_index(a, k) < 0 ==> forall|j: int| 0 <= j < a.len() ==> a[j].0 != k,
    decreases a.len(),
{
    if a.len() > 0 {
        lemma_key_index(a.drop_last(), k);
        assert forall|j: int| 0 <= j < a.len() - 1 implies a.drop_last()[j] == a[j] by {}
    }
}

/// Each stretch of a prefix of `e` keeps its position and key in the
/// aggregate of `e`, and its total does not shrink.
proof fn lemma_aggregate_prefix(e: Seq<StatEntry>, j: int)
    requires
        0 <= j <= e.len(),
    ensures
        aggregate(e.take(j)).len() <= aggregate(e).len(),
        forall|p: int|
            0 <= p < aggregate(e.take(j)).len() ==> #[trigger] aggregate(e.take(j))[p].0
                == aggregate(e)[p].0 && aggregate(e.take(j))[p].1 <= aggregate(e)[p].1,
    decreases e.len(),
{
    if j == e.len() {
        assert(e.take(j) =~= e);
    } else {
        let t = e.drop_last();
        assert(t.take(j) =~= e.take(j));
        lemma_aggregate_prefix(t, j);
        lemma_key_index(aggregate(t), e.last().key@);
    }
}

fn same_bytes_at(buf: &Vec<u8>, pat: &Vec<u8>, i: usize) -> (r: bool)
    ensures
        r == occurs_at(buf@, pat@, i as int),
{
    if i > buf.len() || pat.len() > buf.len() - i {
        return false;
    }
    let mut j: usize = 0;
    while j < pat.len()
        invariant
            i + pat@.len() <= buf@.len(),
            buf@.len() == buf.len(),
            j <= pat@.len(),
            forall|q: int| 0 <= q < j ==> buf@[i + q] == pat@[q],
        decreases pat@.len() - j,
    {
        if buf[i + j] != pat[j] {
            proof {
                assert(buf@.subrange(i as int, i + pat@.len())[j as int] != pat@[j as int]);
            }
            return false;
        }
        j = j + 1;
    }
    proof {
        assert(buf@.subrange(i as int, i + pat@.len()) =~= pat@);
    }
    true
}

/// `pat` occurs in `buf` at position `i`.
pub open spec fn occurs_at(buf: Seq<u8>, pat: Seq<u8>, i: int) -> bool {
    0 <= i && i + pat.len() <= buf.len() && buf.subrange(i, i + pat.len()) == pat
}

/// Position of the first entry of `a` with key `key`.
fn find_key(a: &Vec<StatEntry>, key: &Vec<u8>) -> (r: Option<usize>)
    ensures
        match r {
            Some(p) => p < a@.len() && a@[p as int].key@ == key@ && forall|q: int|
                0 <= q < p ==> a@[q].key@ != key@,
            None => forall|q: int| 0 <= q < a@.len() ==> a@[q].key@ != key@,
        },
{
    let mut p: usize = 0;
    while p < a.len()
        invariant
            p <= a@.len(),
            forall|q: int| 0 <= q < p ==> a@[q].key@ != key@,
        decreases a@.len() - p,
    {
        let same = a[p].key.len() == key.len() && same_bytes_at(key, &a[p].key, 0);
        proof {
            if same {
                assert(key@.subrange(0, a@[p as int].key@.len() as int) =~= key@);
            }
            if a@[p as int].key@ == key@ {
                assert(key@.subrange(0, key@.len() as int) =~= key@);
            }
        }
        if same {
            return Some(p);
        }
        p = p + 1;
    }
    None
}

/// The stretches summed per key, in order of first appearance.
fn aggregate_entries(entries: &Vec<StatEntry>) -> (a: Vec<StatEntry>)
    requires
        forall|p: int|
            0 <= p < aggregate(entries@).len() ==> #[trigger] aggregate(entries@)[p].1
                <= MAX_DURATION_NANOS,
    ensures
        entry_pairs(a@) == aggregate(entries@),
{
    let mut a: Vec<StatEntry> = Vec::new();
    let mut i: usize = 0;
    proof {
        assert(entries@.take(0) =~= Seq::<StatEntry>::empty());
        assert(entry_pairs(a@) =~= aggregate(entries@.take(0)));
    }
    while i < entries.len()
        invariant
            i <= entries@.len(),
            entry_pairs(a@) == aggregate(entries@.take(i as int)),
            forall|p: int|
                0 <= p < aggregate(entries@).len() ==> #[trigger] aggregate(entries@)[p].1
                    <= MAX_DURATION_NANOS,
        decreases entries@.len() - i,
    {
        let ghost pre = entries@.take(i as int);
        let ghost ap = aggregate(pre);
        proof {
            assert(entries@.take(i + 1).drop_last() =~= pre);
            assert(entries@.take(i + 1).last() == entries@[i as int]);
            lemma_key_index(ap, entries@[i as int].key@);
            lemma_aggregate_prefix(entries@, i + 1);
        }
        let e = &entries[i];
        let fp = find_key(&a, &e.key);
        proof {
            assert(forall|q: int| 0 <= q < a@.len() ==> entry_pairs(a@)[q].0 == a@[q].key@);
        }
        if fp.is_some() {
            let p = fp.unwrap();
            proof {
                assert(key_index(ap, e.key@) == p as int) by {
                    let ki = key_index(ap, e.key@);
                    assert(ap[p as int].0 == e.key@);
                    if ki < 0 || ki > p {
                        assert(false);
                    }
                    if ki < p {
                        assert(ap[ki].0 == a@[ki].key@);
                        assert(false);
                    }
                }
                let full = aggregate(entries@);
                let nxt = aggregate(entries@.take(i + 1));
                assert(nxt[p as int].1 == ap[p as int].1 + e.total);
                assert(nxt[p as int].0 == full[p as int].0);
                assert(nxt[p as int].1 <= full[p as int].1);
            }
            let key = a[p].key.clone();
            let total = a[p].total + e.total;
            let ghost before = a@;
            a.set(p, StatEntry { key, total });
            proof {
                assert(entry_pairs(a@) =~= aggregate(entries@.take(i + 1)));
            }
        } else {
            proof {
                assert(key_index(ap, e.key@) < 0) by {
                    let ki = key_index(ap, e.key@);
                    if ki >= 0 {
                        assert(ap[ki].0 == a@[ki].key@);
                        assert(a@[ki].key@ != e.key@);
                    }
                }
            }
            a.push(StatEntry { key: e.key.clone(), total: e.total });
            proof {
                assert(entry_pairs(a@) =~= aggregate(entries@.take(i + 1)));
            }
        }
        i = i + 1;
    }
    proof {
        assert(entries@.take(entries@.len() as int) =~= entries@);
    }
    a
}

/// Some key of `pats` occurs in `buf` at position `i`.
pub open spec fn key_at(buf: Seq<u8>, pats: Seq<(Seq<u8>, nat)>, i: int) -> bool {
    exists|p: int| 0 <= p < pats.len() && #[trigger] occurs_at(buf, pats[p].0, i)
}

/// `lo` is the first position in `buf` where a key of `pats` occurs, or the
/// length of `buf` if none occurs.
pub open spec fn first_key_pos(buf: Seq<u8>, pats: Seq<(Seq<u8>, nat)>, lo: int) -> bool {
    &&& 0 <= lo <= buf.len()
    &&& forall|i: int| 0 <= i < lo ==> !#[trigger] key_at(buf, pats, i)
    &&& lo == buf.len() || key_at(buf, pats, lo)
}

fn first_key_match(buf: &Vec<u8>, a: &Vec<StatEntry>) -> (lo: usize)
    ensures
        first_key_pos(buf@, entry_pairs(a@), lo as int),
{
    let ghost pats = entry_pairs(a@);
    let mut i: usize = 0;
    while i < buf.len()
        invariant
            i <= buf@.len(),
            pats == entry_pairs(a@),
            forall|k: int| 0 <= k < i ==> !#[trigger] key_at(buf@, pats, k),
        decreases buf@.len() - i,
    {
        let mut p: usize = 0;
        while p < a.len()
            invariant
                p <= a@.len(),
                i < buf@.len(),
                pats == entry_pairs(a@),
                forall|k: int| 0 <= k < i ==> !#[trigger] key_at(buf@, pats, k),
                forall|q: int| 0 <= q < p ==> !occurs_at(buf@, #[trigger] pats[q].0, i as int),
            decreases a@.len() - p,
        {
            if same_bytes_at(buf, &a[p].key, i) {
                proof {
                    assert(pats[p as int].0 == a@[p as int].key@);
                    assert(occurs_at(buf@, pats[p as int].0, i as int));
                    assert(key_at(buf@, pats, i as int));
                }
                return i;
            }
            proof {
                assert(pats[p as int].0 == a@[p as int].key@);
            }
            p = p + 1;
        }
        proof {
            assert(!key_at(buf@, pats, i as int)) by {
                if key_at(buf@, pats, i as int) {
                    let q = choose|q: int| 0 <= q < pats.len() && #[trigger] occurs_at(buf@, pats[q].0, i as int);
                    assert(!occurs_at(buf@, pats[q].0, i as int));
                }
            }
        }
        i = i + 1;
    }
    i
}

/// A line without its carriage return, if it ends with one.
pub open spec fn strip_cr(l: Seq<u8>) -> Seq<u8> {
    if l.len() > 0 && l.last() == 13 {
        l.drop_last()
    } else {
        l
    }
}

/// The lines ended by a newline in `b` (each without "\n" and a "\r" before
/// it), and the unfinished rest.
pub open spec fn scan_lines(b: Seq<u8>) -> (Seq<Seq<u8>>, Seq<u8>)
    decreases b.len(),
{
    if b.len() == 0 {
        (Seq::empty(), Seq::empty())
    } else {
        let (ls, cur) = scan_lines(b.drop_last());
        if b.last() == 10 {
            (ls.push(strip_cr(cur)), Seq::empty())
        } else {
            (ls, cur.push(b.last()))
        }
    }
}

/// The lines of `b` as `str::lines` splits text: at each "\n" (dropping a
/// "\r" before it), with a last line only if it is not empty.
pub open spec fn split_lines(b: Seq<u8>) -> Seq<Seq<u8>> {
    let (ls, cur) = scan_lines(b);
    if cur.len() == 0 {
        ls
    } else {
        ls.push(cur)
    }
}

/// Position of the first key of `pats` that `line` starts with, or -1.
pub open spec fn first_prefix(pats: Seq<(Seq<u8>, nat)>, line: Seq<u8>) -> int
    decreases pats.len(),
{
    if pats.len() == 0 {
        -1
    } else {
        let p = first_prefix(pats.drop_last(), line);
        if p >= 0 {
            p
        } else if pats.last().0.is_prefix_of(line) {
            pats.len() - 1
        } else {
            -1
        }
    }
}

/// A line of the file after the update: the updated stats line if it starts
/// with a key, else the line as read.
pub open spec fn rewrite_line(pats: Seq<(Seq<u8>, nat)>, line: Seq<u8>) -> Seq<u8> {
    let p = first_prefix(pats, line);
    if p >= 0 {
        stat_line(pats[p].0, pats[p].1)
    } else {
        line
    }
}

/// The lines, each decoded as `String::from_utf8_lossy` does, rewritten and
/// ended with a newline.
pub open spec fn rewritten(pats: Seq<(Seq<u8>, nat)>, lines: Seq<Seq<u8>>) -> Seq<u8>
    decreases lines.len(),
{
    if lines.len() == 0 {
        Seq::empty()
    } else {
        rewritten(pats, lines.drop_last()) + rewrite_line(pats, lossy_utf8(lines.last())) + seq![10u8]
    }
}

/// Some line was rewritten with the stretch at position `p`.
pub open spec fn matched(pats: Seq<(Seq<u8>, nat)>, lines: Seq<Seq<u8>>, p: int) -> bool {
    exists|l: int| 0 <= l < lines.len() && first_prefix(pats, lossy_utf8(#[trigger] lines[l])) == p
}

/// New stats lines for the first `n` stretches that no line was rewritten
/// with, in order.
pub open spec fn missing_lines(pats: Seq<(Seq<u8>, nat)>, lines: Seq<Seq<u8>>, n: int) -> Seq<u8>
    decreases n,
{
    if n <= 0 {
        Seq::empty()
    } else {
        missing_lines(pats, lines, n - 1) + if matched(pats, lines, n - 1) {
            Seq::<u8>::empty()
        } else {
            stat_line(pats[n - 1].0, pats[n - 1].1) + seq![10u8]
        }
    }
}

proof fn lemma_first_prefix(pats: Seq<(Seq<u8>, nat)>, line: Seq<u8>)
    ensures
        -1 <= first_prefix(pats, line) < pats.len(),
        first_prefix(pats, line) >= 0 ==> pats[first_prefix(pats, line)].0.is_prefix_of(line),
        first_prefix(pats, line) >= 0 ==> forall|q: int|
            0 <= q < first_prefix(pats, line) ==> !pats[q].0.is_prefix_of(line),
        first_prefix(pats, line) < 0 ==> forall|q: int|
            0 <= q < pats.len() ==> !pats[q].0.is_prefix_of(line),
    decreases pats.len(),
{
    if pats.len() > 0 {
        lemma_first_prefix(pats.drop_last(), line);
        assert forall|q: int| 0 <= q < pats.len() - 1 implies pats.drop_last()[q] == pats[q] by {}
    }
}

fn find_prefix(a: &Vec<StatEntry>, line: &Vec<u8>) -> (r: Option<usize>)
    ensures
        match r {
            Some(p) => p as int == first_prefix(entry_pairs(a@), line@),
            None => first_prefix(entry_pairs(a@), line@) < 0,
        },
{
    let ghost pats = entry_pairs(a@);
    proof {
        lemma_first_prefix(pats, line@);
    }
    let mut p: usize = 0;
    while p < a.len()
        invariant
            p <= a@.len(),
            pats == entry_pairs(a@),
            forall|q: int| 0 <= q < p ==> !(#[trigger] pats[q]).0.is_prefix_of(line@),
        decreases a@.len() - p,
    {
        let hit = same_bytes_at(line, &a[p].key, 0);
        proof {
            assert(pats[p as int].0 == a@[p as int].key@);
        }
        if hit {
            proof {
                lemma_first_prefix(pats, line@);
                let fp = first_prefix(pats, line@);
                assert(pats[p as int].0.is_prefix_of(line@));
                if fp < 0 || fp > p {
                    assert(false);
                }
                if fp < p {
                    assert(!pats[fp].0.is_prefix_of(line@));
                }
            }
            return Some(p);
        }
        p = p + 1;
    }
    proof {
        lemma_first_prefix(pats, line@);
        let fp = first_prefix(pats, line@);
        if fp >= 0 {
            assert(!pats[fp].0.is_prefix_of(line@));
        }
    }
    None
}

/// Write the rewritten `line` and note which stretch, if any, it was
/// rewritten with.
fn emit_line(
    out: &mut Vec<u8>,
    found: &mut Vec<bool>,
    a: &Vec<StatEntry>,
    line: &Vec<u8>,
    Ghost(lines): Ghost<Seq<Seq<u8>>>,
)
    requires
        old(found)@.len() == a@.len(),
        forall|p: int|
            0 <= p < a@.len() ==> #[trigger] old(found)@[p] == matched(entry_pairs(a@), lines, p),
        forall|p: int| 0 <= p < a@.len() ==> #[trigger] a@[p].total <= MAX_DURATION_NANOS,
    ensures
        final(out)@ == old(out)@ + rewrite_line(entry_pairs(a@), lossy_utf8(line@)) + seq![10u8],
        final(found)@.len() == a@.len(),
        forall|p: int|
            0 <= p < a@.len() ==> #[trigger] final(found)@[p] == matched(
                entry_pairs(a@),
                lines.push(line@),
                p,
            ),
{
    let ghost pats = entry_pairs(a@);
    let ghost nl = lines.push(line@);
    let decoded = utf8_lossy(line.as_slice());
    let fp = find_prefix(a, &decoded);
    proof {
        assert(nl[lines.len() as int] == line@);
        assert forall|p: int| 0 <= p < a@.len() && matched(pats, lines, p) implies matched(
            pats,
            nl,
            p,
        ) by {
            let l = choose|l: int|
                0 <= l < lines.len() && first_prefix(pats, lossy_utf8(#[trigger] lines[l])) == p;
            assert(nl[l] == lines[l]);
        }
        assert forall|p: int| 0 <= p < a@.len() && matched(pats, nl, p) implies matched(
            pats,
            lines,
            p,
        ) || first_prefix(pats, lossy_utf8(line@)) == p by {
            let l = choose|l: int|
                0 <= l < nl.len() && first_prefix(pats, lossy_utf8(#[trigger] nl[l])) == p;
            if l < lines.len() {
                assert(nl[l] == lines[l]);
            }
        }
    }
    match fp {
        Some(p) => {
            proof {
                lemma_first_prefix(pats, decoded@);
                assert(pats[p as int] == (a@[p as int].key@, a@[p as int].total as nat));
            }
            push_stat_line(out, &a[p].key, a[p].total);
            found.set(p, true);
            proof {
                assert(matched(pats, nl, p as int));
            }
        },
        None => {
            push_bytes(out, &decoded);
            out.push(10u8);
        },
    }
}

/// How the end of the stats file changes for a batch of stretches.
///
/// `buf` is the end of the file (the whole file if it is short) and
/// `entries` the stretches reported, in order; stretches with the same key
/// are summed.  The result is the position in `buf` from which the file is
/// rewritten, and the bytes that replace everything from there on.  The
/// position is the first place where a key occurs (the end of `buf` if none
/// does).  From there each line is kept, or replaced by the updated stats
/// line if it starts with a key; then a line is added for each stretch that
/// replaced no line.
pub fn updated_stats_tail(buf: &Vec<u8>, entries: &Vec<StatEntry>) -> (r: (usize, Vec<u8>))
    requires
        forall|p: int|
            0 <= p < aggregate(entries@).len() ==> #[trigger] aggregate(entries@)[p].1
                <= MAX_DURATION_NANOS,
    ensures
        first_key_pos(buf@, aggregate(entries@), r.0 as int),
        r.1@ == rewritten(aggregate(entries@), split_lines(buf@.skip(r.0 as int))) + missing_lines(
            aggregate(entries@),
            split_lines(buf@.skip(r.0 as int)),
            aggregate(entries@).len() as int,
        ),
{
    let a = aggregate_entries(entries);
    let ghost pats = entry_pairs(a@);
    proof {
        assert forall|p: int| 0 <= p < a@.len() implies #[trigger] a@[p].total <= MAX_DURATION_NANOS by {
            assert(pats[p] == (a@[p].key@, a@[p].total as nat));
            assert(aggregate(entries@)[p].1 <= MAX_DURATION_NANOS);
        }
    }
    let lo = first_key_match(buf, &a);
    let ghost s = buf@.skip(lo as int);
    let mut found: Vec<bool> = Vec::new();
    let mut k: usize = 0;
    while k < a.len()
        invariant
            k <= a@.len(),
            found@.len() == k,
            forall|p: int| 0 <= p < k ==> !#[trigger] found@[p],
        decreases a@.len() - k,
    {
        found.push(false);
        k = k + 1;
    }
    let mut out: Vec<u8> = Vec::new();
    let mut cur: Vec<u8> = Vec::new();
    let ghost mut lines: Seq<Seq<u8>> = Seq::empty();
    proof {
        assert(s.take(0) =~= Seq::<u8>::empty());
        assert forall|p: int| 0 <= p < a@.len() implies #[trigger] found@[p] == matched(pats, lines, p) by {}
    }
    let mut j: usize = lo;
    while j < buf.len()
        invariant
            lo <= j <= buf@.len(),
            s == buf@.skip(lo as int),
            pats == entry_pairs(a@),
            (lines, cur@) == scan_lines(s.take(j - lo)),
            out@ == rewritten(pats, lines),
            found@.len() == a@.len(),
            forall|p: int| 0 <= p < a@.len() ==> #[trigger] found@[p] == matched(pats, lines, p),
            forall|p: int| 0 <= p < a@.len() ==> #[trigger] a@[p].total <= MAX_DURATION_NANOS,
        decreases buf@.len() - j,
    {
        let b = buf[j];
        proof {
            assert(s.take(j + 1 - lo).drop_last() =~= s.take(j - lo));
            assert(s.take(j + 1 - lo).last() == b);
        }
        if b == 10 {
            if cur.len() > 0 && cur[cur.len() - 1] == 13 {
                cur.pop();
            }
            proof {
                assert(cur@ == strip_cr(scan_lines(s.take(j - lo)).1));
            }
            emit_line(&mut out, &mut found, &a, &cur, Ghost(lines));
            proof {
                let nl = lines.push(cur@);
                assert(nl.drop_last() =~= lines);
                lines = nl;
            }
            cur = Vec::new();
        } else {
            cur.push(b);
        }
        j = j + 1;
    }
    proof {
        assert(s.take(buf@.len() - lo) =~= s);
    }
    if cur.len() > 0 {
        emit_line(&mut out, &mut found, &a, &cur, Ghost(lines));
        proof {
            let nl = lines.push(cur@);
            assert(nl.drop_last() =~= lines);
            lines = nl;
        }
    }
    proof {
        assert(lines == split_lines(s));
        assert(out@ =~= rewritten(pats, lines) + missing_lines(pats, lines, 0));
    }
    let mut p: usize = 0;
    while p < a.len()
        invariant
            p <= a@.len(),
            pats == entry_pairs(a@),
            found@.len() == a@.len(),
            forall|q: int| 0 <= q < a@.len() ==> #[trigger] found@[q] == matched(pats, lines, q),
            forall|q: int| 0 <= q < a@.len() ==> #[trigger] a@[q].total <= MAX_DURATION_NANOS,
            out@ == rewritten(pats, lines) + missing_lines(pats, lines, p as int),
        decreases a@.len() - p,
    {
        let ghost before = out@;
        if !found[p] {
            push_stat_line(&mut out, &a[p].key, a[p].total);
            proof {
                assert(pats[p as int] == (a@[p as int].key@, a@[p as int].total as nat));
            }
        }
        proof {
            assert(out@ =~= rewritten(pats, lines) + missing_lines(pats, lines, p + 1));
        }
        p = p + 1;
    }
    (lo, out)
}

/// A mod seen again after being idle for longer than the idle limit starts a
/// new stretch (a new entry in the stats file); one seen within the limit
/// continues its stretch, credited with the elapsed time.
pub proof fn lemma_idle_mod_starts_new_stretch(
    m: Map<Seq<char>, Activity>,
    name: Seq<char>,
    now: i128,
    elapsed: u128,
    idle: u128,
)
    requires
        m.contains_key(name),
    ensures
        time_since(now, m[name].last_update) > idle ==> note_active(m, name, now, elapsed, idle)[name]
            == (Activity { start: now, last_update: now, total: 0 }),
        time_since(now, m[name].last_update) <= idle ==> note_active(m, name, now, elapsed, idle)[name]
            == (Activity {
                start: m[name].start,
                last_update: now,
                total: (m[name].total + elapsed) as u128,
            }),
{
}

/// An update never credits more than twice the update interval, however long
/// ago the previous update was.
pub proof fn lemma_credit_is_capped(stats: ModStats, now: i128)
    ensures
        stats.credited(now) <= 2 * stats.interval(),
        stats.credited(now) <= time_since(now, stats.last_update_time()),
{
}

} // verus!
