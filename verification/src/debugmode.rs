//! Debug mode: a diagnostic mode, switched on by a `DebugMode.txt` file in the
//! ModelMod root, in which hooking is slowed down and extra events are logged,
//! to find what crashes on a user's machine.
//!
//! The file may hold `key=value` lines (`#` starts a comment line) that set
//! `protect_mem`, `defer_rehook` and `defer_draw_hook` ("true" or "1" switch
//! an option on, anything else off).  With `defer_draw_hook` the draw hook is
//! only installed some time after start; with `defer_rehook` each hooked
//! function is rehooked only after its own delay.
//!
//! Times are nanoseconds relative to the Unix epoch.
use vstd::prelude::*;
use vstd::string::StrSliceExecFns;
use crate::strings::{trim, to_lowercase, trimmed, lowercase};
use crate::mod_stats::valid_time;

verus! {

/// The hooked functions whose calls debug mode counts.
#[allow(non_camel_case_types)]
#[derive(Debug, Copy, Clone, PartialEq, Eq, Structural)]
pub enum DebugModeCalledFns {
    Hook_DeviceCreateInputLayoutFn,
    Hook_ContextRelease,
    Hook_ContextVSSetConstantBuffers,
    Hook_ContextDrawIndexed,
    Hook_ContextIASetVertexBuffers,
    Hook_ContextIASetInputLayout,
    Hook_ContextIASetPrimitiveTopology,
    Last,
}

/// Number of counters (one per possible function index).
pub const NUM_CALLED_FNS: usize = 100;

impl DebugModeCalledFns {
    pub open spec fn spec_index(self) -> usize {
        match self {
            DebugModeCalledFns::Hook_DeviceCreateInputLayoutFn => 0,
            DebugModeCalledFns::Hook_ContextRelease => 1,
            DebugModeCalledFns::Hook_ContextVSSetConstantBuffers => 2,
            DebugModeCalledFns::Hook_ContextDrawIndexed => 3,
            DebugModeCalledFns::Hook_ContextIASetVertexBuffers => 4,
            DebugModeCalledFns::Hook_ContextIASetInputLayout => 5,
            DebugModeCalledFns::Hook_ContextIASetPrimitiveTopology => 6,
            DebugModeCalledFns::Last => 99,
        }
    }

    /// The function's counter index.
    pub fn index(self) -> (r: usize)
        ensures
            r == self.spec_index(),
            r < NUM_CALLED_FNS,
    {
        match self {
            DebugModeCalledFns::Hook_DeviceCreateInputLayoutFn => 0,
            DebugModeCalledFns::Hook_ContextRelease => 1,
            DebugModeCalledFns::Hook_ContextVSSetConstantBuffers => 2,
            DebugModeCalledFns::Hook_ContextDrawIndexed => 3,
            DebugModeCalledFns::Hook_ContextIASetVertexBuffers => 4,
            DebugModeCalledFns::Hook_ContextIASetInputLayout => 5,
            DebugModeCalledFns::Hook_ContextIASetPrimitiveTopology => 6,
            DebugModeCalledFns::Last => 99,
        }
    }
}

/// Seconds after start from which rehooking a function is allowed (`None`:
/// never, while rehooking is deferred).
pub open spec fn rehook_delay_secs(f: DebugModeCalledFns) -> Option<u64> {
    match f {
        DebugModeCalledFns::Hook_DeviceCreateInputLayoutFn => Some(30),
        DebugModeCalledFns::Hook_ContextIASetVertexBuffers => Some(40),
        DebugModeCalledFns::Hook_ContextIASetInputLayout => Some(50),
        DebugModeCalledFns::Hook_ContextIASetPrimitiveTopology => Some(50),
        DebugModeCalledFns::Hook_ContextVSSetConstantBuffers => Some(90),
        DebugModeCalledFns::Hook_ContextDrawIndexed => Some(120),
        _ => None,
    }
}

/// Seconds after start from which the draw hook is installed when deferred.
pub const DRAW_HOOK_DELAY_SECS: u64 = 35;

/// Whole seconds from `start` to `now` (zero if `now` is earlier).
pub open spec fn secs_between(start: i128, now: i128) -> u64 {
    if now >= start {
        ((now - start) / 1000000000) as u64
    } else {
        0
    }
}

/// Debug mode's settings and state.
pub struct DebugMode {
    enabled: bool,
    /// Unprotect memory before hooking.
    protect_mem: bool,
    /// Rehook each function only after its delay.
    defer_rehook: bool,
    /// Install the draw hook only after a delay (this also delays starting
    /// the managed runtime, which the draw hook triggers).
    defer_draw_hook: bool,
    draw_hooked: bool,
    call_counts: [u64; 100],
    start_time: Option<i128>,
    rehook_enabled: [bool; 100],
}

/// A text's lines as `str::lines` splits them, before the unfinished rest.
pub open spec fn scan_text_lines(s: Seq<char>) -> (Seq<Seq<char>>, Seq<char>)
    decreases s.len(),
{
    if s.len() == 0 {
        (Seq::empty(), Seq::empty())
    } else {
        let (ls, cur) = scan_text_lines(s.drop_last());
        if s.last() == '\n' {
            (
                ls.push(
                    if cur.len() > 0 && cur.last() == '\r' {
                        cur.drop_last()
                    } else {
                        cur
                    },
                ),
                Seq::empty(),
            )
        } else {
            (ls, cur.push(s.last()))
        }
    }
}

/// The lines of a text as `str::lines` gives them.
pub open spec fn text_lines(s: Seq<char>) -> Seq<Seq<char>> {
    let (ls, cur) = scan_text_lines(s);
    if cur.len() == 0 {
        ls
    } else {
        ls.push(cur)
    }
}

/// Position of the first `c` in `s`, or -1.
pub open spec fn first_index(s: Seq<char>, c: char) -> int
    decreases s.len(),
{
    if s.len() == 0 {
        -1
    } else {
        let i = first_index(s.drop_last(), c);
        if i >= 0 {
            i
        } else if s.last() == c {
            s.len() - 1
        } else {
            -1
        }
    }
}

/// The text before the first `=` (all of it if there is none).
pub open spec fn key_part(line: Seq<char>) -> Seq<char> {
    let i = first_index(line, '=');
    if i < 0 {
        line
    } else {
        line.take(i)
    }
}

/// The text between the first and the second `=` (to the end if there is
/// no second one; empty if there is no `=`).
pub open spec fn val_part(line: Seq<char>) -> Seq<char> {
    let i = first_index(line, '=');
    if i < 0 {
        Seq::empty()
    } else {
        let rest = line.skip(i + 1);
        let j = first_index(rest, '=');
        if j < 0 {
            rest
        } else {
            rest.take(j)
        }
    }
}

pub open spec fn is_comment(line: Seq<char>) -> bool {
    trimmed(line).len() > 0 && trimmed(line)[0] == '#'
}

/// The options (protect_mem, defer_rehook, defer_draw_hook) after the setting
/// `key = val`, both already trimmed and lowercased: `true` or `1` switches the
/// named option on, any other value off; an unknown key changes nothing.
pub open spec fn spec_apply_setting(f: (bool, bool, bool), key: Seq<char>, val: Seq<char>) -> (
    bool,
    bool,
    bool,
) {
    let on = val == "true"@ || val == "1"@;
    if key == "protect_mem"@ {
        (on, f.1, f.2)
    } else if key == "defer_rehook"@ {
        (f.0, on, f.2)
    } else if key == "defer_draw_hook"@ {
        (f.0, f.1, on)
    } else {
        f
    }
}

/// The options (protect_mem, defer_rehook, defer_draw_hook) after one line
/// of the settings file.
pub open spec fn apply_line(f: (bool, bool, bool), line: Seq<char>) -> (bool, bool, bool) {
    if is_comment(line) {
        f
    } else {
        spec_apply_setting(f, lowercase(trimmed(key_part(line))), lowercase(trimmed(val_part(line))))
    }
}

/// The options after the given lines, in order.
pub open spec fn apply_lines(f: (bool, bool, bool), lines: Seq<Seq<char>>) -> (bool, bool, bool)
    decreases lines.len(),
{
    if lines.len() == 0 {
        f
    } else {
        apply_line(apply_lines(f, lines.drop_last()), lines.last())
    }
}

proof fn lemma_first_index(s: Seq<char>, c: char)
    ensures
        -1 <= first_index(s, c) < s.len(),
        first_index(s, c) >= 0 ==> s[first_index(s, c)] == c,
        forall|j: int|
            0 <= j < s.len() && (first_index(s, c) < 0 || j < first_index(s, c)) ==> s[j] != c,
    decreases s.len(),
{
    if s.len() > 0 {
        lemma_first_index(s.drop_last(), c);
        assert forall|j: int| 0 <= j < s.len() - 1 implies s.drop_last()[j] == s[j] by {}
    }
}

/// Position of the first `c` in `s` at or after `from`, or `s`'s length.
fn find_char(s: &str, from: usize, c: char) -> (r: usize)
    requires
        from <= s@.len(),
    ensures
        from <= r <= s@.len(),
        r < s@.len() ==> s@[r as int] == c,
        forall|j: int| from <= j < r ==> s@[j] != c,
{
    let n = s.unicode_len();
    let mut i = from;
    while i < n
        invariant
            n == s@.len(),
            from <= i <= n,
            forall|j: int| from <= j < i ==> s@[j] != c,
        decreases n - i,
    {
        if s.get_char(i) == c {
            return i;
        }
        i = i + 1;
    }
    i
}

/// The options (protect_mem, defer_rehook, defer_draw_hook) after one line.
fn parse_line(f: (bool, bool, bool), line: &str) -> (r: (bool, bool, bool))
    ensures
        r == apply_line(f, line@),
{
    let t = trim(line);
    if t.unicode_len() > 0 && t.get_char(0) == '#' {
        return f;
    }
    let n = line.unicode_len();
    let eq1 = find_char(line, 0, '=');
    proof {
        lemma_first_index(line@, '=');
        let fi = first_index(line@, '=');
        if eq1 < n {
            assert(fi == eq1) by {
                if fi < 0 || fi > eq1 {
                    assert(line@[eq1 as int] != '=');
                }
                if 0 <= fi < eq1 {
                    assert(line@[fi] != '=');
                }
            }
        } else {
            assert(fi < 0) by {
                if fi >= 0 {
                    assert(line@[fi] != '=');
                }
            }
        }
    }
    let key = line.substring_char(0, eq1);
    let v = if eq1 < n {
        let eq2 = find_char(line, eq1 + 1, '=');
        let val = line.substring_char(eq1 + 1, eq2);
        proof {
            let rest = line@.skip(eq1 + 1);
            lemma_first_index(rest, '=');
            let fj = first_index(rest, '=');
            if eq2 < n {
                assert(fj == eq2 - eq1 - 1) by {
                    assert(rest[eq2 - eq1 - 1] == line@[eq2 as int]);
                    if fj < 0 || fj > eq2 - eq1 - 1 {
                        assert(rest[eq2 - eq1 - 1] != '=');
                    }
                    if 0 <= fj < eq2 - eq1 - 1 {
                        assert(rest[fj] == line@[eq1 + 1 + fj]);
                    }
                }
                assert(val@ =~= rest.take(fj));
            } else {
                assert(fj < 0) by {
                    if fj >= 0 {
                        assert(rest[fj] == line@[eq1 + 1 + fj]);
                    }
                }
                assert(val@ =~= rest);
            }
            assert(val@ == val_part(line@));
        }
        to_lowercase(trim(val))
    } else {
        let empty = "";
        proof {
            reveal_strlit("");
            assert(empty@ =~= val_part(line@));
        }
        to_lowercase(trim(empty))
    };
    proof {
        if eq1 < n {
            assert(key@ =~= line@.take(eq1 as int));
        } else {
            assert(key@ =~= line@);
        }
        assert(key@ == key_part(line@));
    }
    let k = to_lowercase(trim(key));
    apply_setting(f, k.as_str(), v.as_str())
}

/// The options (protect_mem, defer_rehook, defer_draw_hook) after the setting
/// `key = val`, both already trimmed and lowercased.
pub fn apply_setting(f: (bool, bool, bool), key: &str, val: &str) -> (r: (bool, bool, bool))
    ensures
        r == spec_apply_setting(f, key@, val@),
{
    let v = val.to_owned();
    let k = key.to_owned();
    let on = v == String::from_str("true") || v == String::from_str("1");
    if k == String::from_str("protect_mem") {
        (on, f.1, f.2)
    } else if k == String::from_str("defer_rehook") {
        (f.0, on, f.2)
    } else if k == String::from_str("defer_draw_hook") {
        (f.0, f.1, on)
    } else {
        f
    }
}

/// The options after the lines of `text`.
fn parse_settings(f: (bool, bool, bool), text: &str) -> (r: (bool, bool, bool))
    ensures
        r == apply_lines(f, text_lines(text@)),
{
    let n = text.unicode_len();
    let mut flags = f;
    let mut a: usize = 0;
    let mut i: usize = 0;
    let ghost mut lines: Seq<Seq<char>> = Seq::empty();
    proof {
        assert(text@.take(0) =~= Seq::<char>::empty());
        assert(text@.subrange(0, 0) =~= Seq::<char>::empty());
    }
    while i < n
        invariant
            n == text@.len(),
            a <= i <= n,
            scan_text_lines(text@.take(i as int)) == (lines, text@.subrange(a as int, i as int)),
            flags == apply_lines(f, lines),
        decreases n - i,
    {
        let c = text.get_char(i);
        proof {
            assert(text@.take(i + 1).drop_last() =~= text@.take(i as int));
            assert(text@.take(i + 1).last() == c);
        }
        if c == '\n' {
            let mut b = i;
            if b > a && text.get_char(b - 1) == '\r' {
                b = b - 1;
            }
            let line = text.substring_char(a, b);
            proof {
                let cur = text@.subrange(a as int, i as int);
                if i > a && text@[i - 1] == '\r' {
                    assert(line@ =~= cur.drop_last());
                } else {
                    assert(line@ =~= cur);
                }
                let nl = lines.push(line@);
                assert(nl.drop_last() =~= lines);
                lines = nl;
            }
            flags = parse_line(flags, line);
            a = i + 1;
            proof {
                assert(text@.subrange(a as int, i + 1) =~= Seq::<char>::empty());
            }
        } else {
            proof {
                assert(text@.subrange(a as int, i + 1) =~= text@.subrange(a as int, i as int).push(c));
            }
        }
        i = i + 1;
    }
    proof {
        assert(text@.take(n as int) =~= text@);
    }
    if a < n {
        let line = text.substring_char(a, n);
        proof {
            let nl = lines.push(line@);
            assert(nl.drop_last() =~= lines);
        }
        flags = parse_line(flags, line);
    }
    flags
}

impl DebugMode {
    pub closed spec fn is_enabled(&self) -> bool {
        self.enabled
    }

    pub closed spec fn options(&self) -> (bool, bool, bool) {
        (self.protect_mem, self.defer_rehook, self.defer_draw_hook)
    }

    pub closed spec fn draw_is_hooked(&self) -> bool {
        self.draw_hooked
    }

    pub closed spec fn started_at(&self) -> Option<i128> {
        self.start_time
    }

    pub closed spec fn count(&self, f: DebugModeCalledFns) -> u64 {
        self.call_counts[f.spec_index() as int]
    }

    pub closed spec fn rehook_allowed(&self, f: DebugModeCalledFns) -> bool {
        self.rehook_enabled[f.spec_index() as int]
    }

    /// Debug mode off, with every option on and nothing counted.
    pub fn new() -> (d: DebugMode)
        ensures
            !d.is_enabled(),
            d.options() == (true, true, true),
            !d.draw_is_hooked(),
            d.started_at() is None,
            forall|f: DebugModeCalledFns| d.count(f) == 0 && !d.rehook_allowed(f),
    {
        DebugMode {
            enabled: false,
            protect_mem: true,
            defer_rehook: true,
            defer_draw_hook: true,
            draw_hooked: false,
            call_counts: [0u64; 100],
            start_time: None,
            rehook_enabled: [false; 100],
        }
    }

    /// Switch debug mode on at time `now`, with the options from the settings
    /// file's text (`None` if it could not be read: the options stay as they
    /// were).  Unless rehooking is deferred, every function may be rehooked
    /// at once.
    pub fn enable(&mut self, now: i128, settings: Option<&str>)
        ensures
            final(self).is_enabled(),
            final(self).started_at() == Some(now),
            final(self).draw_is_hooked() == old(self).draw_is_hooked(),
            forall|f: DebugModeCalledFns| final(self).count(f) == old(self).count(f),
            settings is None ==> final(self).options() == old(self).options(),
            settings is None ==> forall|f: DebugModeCalledFns|
                final(self).rehook_allowed(f) == old(self).rehook_allowed(f),
            settings is Some ==> final(self).options() == apply_lines(
                old(self).options(),
                text_lines(settings->0@),
            ),
            settings is Some ==> forall|f: DebugModeCalledFns|
                final(self).rehook_allowed(f) == (old(self).rehook_allowed(f)
                    || !final(self).options().1),
    {
        self.enabled = true;
        self.start_time = Some(now);
        match settings {
            None => {},
            Some(text) => {
                let f = parse_settings((self.protect_mem, self.defer_rehook, self.defer_draw_hook), text);
                self.protect_mem = f.0;
                self.defer_rehook = f.1;
                self.defer_draw_hook = f.2;
                if !self.defer_rehook {
                    let mut i: usize = 0;
                    while i < NUM_CALLED_FNS
                        invariant
                            i <= NUM_CALLED_FNS,
                            self.enabled,
                            self.start_time == Some(now),
                            self.draw_hooked == old(self).draw_hooked,
                            self.call_counts == old(self).call_counts,
                            self.protect_mem == f.0,
                            self.defer_rehook == f.1,
                            self.defer_draw_hook == f.2,
                            !f.1,
                            forall|j: int| 0 <= j < i ==> self.rehook_enabled[j],
                            forall|j: int|
                                i <= j < NUM_CALLED_FNS ==> self.rehook_enabled[j] == old(self).rehook_enabled[j],
                        decreases NUM_CALLED_FNS - i,
                    {
                        self.rehook_enabled.set(i, true);
                        i = i + 1;
                    }
                }
            },
        }
    }

    /// Whole seconds since debug mode was switched on (zero if it never was).
    pub fn seconds_since_start(&self, now: i128) -> (r: u64)
        requires
            valid_time(now),
            self.started_at() is Some ==> valid_time(self.started_at()->0),
        ensures
            r == match self.started_at() {
                Some(start) => secs_between(start, now),
                None => 0,
            },
    {
        match self.start_time {
            Some(start) => {
                if now >= start {
                    ((now - start) / 1000000000) as u64
                } else {
                    0
                }
            },
            None => 0,
        }
    }
}

impl DebugMode {
    /// Seconds since start as the delays count them.
    pub open spec fn secs_since_start(&self, now: i128) -> u64 {
        match self.started_at() {
            Some(start) => secs_between(start, now),
            None => 0,
        }
    }

    /// How often `f` was noted while debug mode was on.
    pub fn call_count(&self, f: DebugModeCalledFns) -> (r: u64)
        ensures
            r == self.count(f),
    {
        self.call_counts[f.index()]
    }

    /// Whether the draw hook was installed after its delay.
    pub fn is_draw_hooked(&self) -> (r: bool)
        ensures
            r == self.draw_is_hooked(),
    {
        self.draw_hooked
    }

    /// Whether `f` may be rehooked (its delay has passed).
    pub fn is_rehook_allowed(&self, f: DebugModeCalledFns) -> (r: bool)
        ensures
            r == self.rehook_allowed(f),
    {
        self.rehook_enabled[f.index()]
    }

    /// Note a call of `f`.  While debug mode is on the call is counted, and
    /// the result is the new count when that call is logged (the first and
    /// the thousandth).
    pub fn note_called(&mut self, f: DebugModeCalledFns) -> (r: Option<u64>)
        requires
            old(self).is_enabled() ==> old(self).count(f) < u64::MAX,
        ensures
            !old(self).is_enabled() ==> *final(self) == *old(self) && r is None,
            old(self).is_enabled() ==> final(self).count(f) == old(self).count(f) + 1,
            old(self).is_enabled() ==> forall|g: DebugModeCalledFns|
                g.spec_index() != f.spec_index() ==> final(self).count(g) == old(self).count(g),
            old(self).is_enabled() ==> r == if final(self).count(f) == 1 || final(self).count(f)
                == 1000 {
                Some(final(self).count(f))
            } else {
                None
            },
            final(self).is_enabled() == old(self).is_enabled(),
            final(self).options() == old(self).options(),
            final(self).draw_is_hooked() == old(self).draw_is_hooked(),
            final(self).started_at() == old(self).started_at(),
            forall|g: DebugModeCalledFns| final(self).rehook_allowed(g) == old(self).rehook_allowed(g),
    {
        if !self.enabled {
            return None;
        }
        let i = f.index();
        let c = self.call_counts[i] + 1;
        self.call_counts.set(i, c);
        if c == 1 || c == 1000 {
            Some(c)
        } else {
            None
        }
    }

    /// Whether the draw function should be hooked now: always, unless debug
    /// mode defers the draw hook; then only once `DRAW_HOOK_DELAY_SECS` have
    /// passed since start (from then on it stays hooked).
    pub fn draw_hook_enabled(&mut self, now: i128) -> (r: bool)
        requires
            valid_time(now),
            old(self).started_at() is Some ==> valid_time(old(self).started_at()->0),
        ensures
            (!old(self).is_enabled() || !old(self).options().2 || old(self).draw_is_hooked()) ==> r
                && *final(self) == *old(self),
            (old(self).is_enabled() && old(self).options().2 && !old(self).draw_is_hooked()) ==> r
                == (old(self).secs_since_start(now) > DRAW_HOOK_DELAY_SECS) && final(self).draw_is_hooked() == r,
            final(self).is_enabled() == old(self).is_enabled(),
            final(self).options() == old(self).options(),
            final(self).started_at() == old(self).started_at(),
            forall|g: DebugModeCalledFns|
                final(self).count(g) == old(self).count(g) && final(self).rehook_allowed(g)
                    == old(self).rehook_allowed(g),
    {
        if !self.enabled || !self.defer_draw_hook || self.draw_hooked {
            return true;
        }
        let secs = self.seconds_since_start(now);
        let ok = secs > DRAW_HOOK_DELAY_SECS;
        if ok {
            self.draw_hooked = true;
        }
        ok
    }

    /// Whether `f` may be rehooked now: always, unless debug mode is on;
    /// then once allowed (from the start, if rehooking is not deferred), or
    /// once the function's own delay has passed since start (from then on it
    /// stays allowed).
    pub fn rehook_enabled(&mut self, f: DebugModeCalledFns, now: i128) -> (r: bool)
        requires
            valid_time(now),
            old(self).started_at() is Some ==> valid_time(old(self).started_at()->0),
        ensures
            (!old(self).is_enabled() || old(self).rehook_allowed(f)) ==> r && *final(self) == *old(self),
            (old(self).is_enabled() && !old(self).rehook_allowed(f)) ==> r == match rehook_delay_secs(
                f,
            ) {
                Some(d) => old(self).secs_since_start(now) > d,
                None => false,
            } && final(self).rehook_allowed(f) == r,
            forall|g: DebugModeCalledFns|
                g.spec_index() != f.spec_index() ==> final(self).rehook_allowed(g) == old(self).rehook_allowed(g),
            final(self).is_enabled() == old(self).is_enabled(),
            final(self).options() == old(self).options(),
            final(self).draw_is_hooked() == old(self).draw_is_hooked(),
            final(self).started_at() == old(self).started_at(),
            forall|g: DebugModeCalledFns| final(self).count(g) == old(self).count(g),
    {
        if !self.enabled {
            return true;
        }
        let i = f.index();
        if self.rehook_enabled[i] {
            return true;
        }
        let secs = self.seconds_since_start(now);
        let ok = match f {
            DebugModeCalledFns::Hook_DeviceCreateInputLayoutFn => secs > 30,
            DebugModeCalledFns::Hook_ContextIASetVertexBuffers => secs > 40,
            DebugModeCalledFns::Hook_ContextIASetInputLayout => secs > 50,
            DebugModeCalledFns::Hook_ContextIASetPrimitiveTopology => secs > 50,
            DebugModeCalledFns::Hook_ContextVSSetConstantBuffers => secs > 90,
            DebugModeCalledFns::Hook_ContextDrawIndexed => secs > 120,
            _ => false,
        };
        if ok {
            self.rehook_enabled.set(i, true);
        }
        ok
    }

    /// Whether memory should be unprotected before hooking: only in debug
    /// mode with `protect_mem` on.
    pub fn protect_mem(&self) -> (r: bool)
        ensures
            r == (self.is_enabled() && self.options().0),
    {
        self.enabled && self.protect_mem
    }
}

} // verus!
