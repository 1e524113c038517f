//! Logging helpers: the log file name, the per-message repeat limit, and a
//! guard that releases a resource when dropped.
use vstd::prelude::*;
use fnv::FnvHashMap;
use crate::fnv_maps::{name_index, name_map_get, name_map_insert, name_map_new};
use crate::text::{decimal, u64_to_decimal};

verus! {

/// Set the log file name to `path` followed by `name`.
pub fn set_log_file_path(log_file_name: &mut String, path: &str, name: &str)
    ensures
        final(log_file_name)@ == path@ + name@,
{
    let mut p = String::from_str(path);
    p.append(name);
    *log_file_name = p;
}

/// A message is logged at most this many times.
pub const LOG_LIMIT: u32 = 25;

/// What to do with a message.
#[derive(Debug)]
pub enum LimResult {
    Log,
    DontLog,
    /// Don't log the message; log this notice instead.
    DontLogAndFYI(String),
}

/// The notice logged in place of a message that has hit the limit.
pub open spec fn fyi_text(s: Seq<char>) -> Seq<char> {
    "performance warning: message '"@ + s + "' has been logged "@ + decimal(25) + " times; it won't be repeated"@
}

/// The decision for a message seen `count` times before (`None`: never), and
/// the count to record afterwards.
pub open spec fn limit_step(count: Option<u32>) -> (int, Option<u32>) {
    match count {
        None => (0, Some(1u32)),
        Some(c) => if c > 25 {
            (1, Some(c))
        } else if c == 25 {
            (2, Some(26u32))
        } else {
            (0, Some((c + 1) as u32))
        },
    }
}

/// The kind of a decision: 0 log, 1 don't log, 2 don't log but log the notice.
pub open spec fn lim_kind(r: LimResult) -> int {
    match r {
        LimResult::Log => 0,
        LimResult::DontLog => 1,
        LimResult::DontLogAndFYI(_) => 2,
    }
}

/// Decide whether to log message `s`, which has been seen `count` times
/// before; returns the decision and the count to record.  The first
/// `LOG_LIMIT` occurrences are logged, the next is replaced by a notice, and
/// later ones are dropped.
pub fn log_limit(s: &str, count: Option<u32>) -> (r: (LimResult, Option<u32>))
    ensures
        lim_kind(r.0) == limit_step(count).0,
        r.1 == limit_step(count).1,
        match r.0 {
            LimResult::DontLogAndFYI(m) => m@ == fyi_text(s@),
            _ => true,
        },
{
    match count {
        None => (LimResult::Log, Some(1)),
        Some(c) => {
            if c > LOG_LIMIT {
                (LimResult::DontLog, Some(c))
            } else if c == LOG_LIMIT {
                let mut fyi = String::from_str("performance warning: message '");
                fyi.append(s);
                fyi.append("' has been logged ");
                let n = u64_to_decimal(25);
                fyi.append(n.as_str());
                fyi.append(" times; it won't be repeated");
                (LimResult::DontLogAndFYI(fyi), Some(c + 1))
            } else {
                (LimResult::Log, Some(c + 1))
            }
        },
    }
}

/// The occurrence counts of the messages seen so far, behind the log limit.
pub struct LogLimiter {
    counts: FnvHashMap<String, u32>,
}

impl LogLimiter {
    /// How often each message (by its characters) has been seen, as recorded.
    pub closed spec fn seen(&self) -> Map<Seq<char>, u32> {
        name_index(self.counts)
    }

    /// A limiter that has seen no message.
    pub fn new() -> (l: LogLimiter)
        ensures
            l.seen().dom() == Set::<Seq<char>>::empty(),
    {
        LogLimiter { counts: name_map_new() }
    }

    /// Decide whether to log message `s`, counting it: the first `LOG_LIMIT`
    /// occurrences of a message are logged, the next is replaced by a notice,
    /// and later ones are dropped.  Counts of other messages are untouched.
    pub fn check(&mut self, s: &str) -> (r: LimResult)
        ensures
            ({
                let c = if old(self).seen().contains_key(s@) {
                    Some(old(self).seen()[s@])
                } else {
                    None::<u32>
                };
                &&& lim_kind(r) == limit_step(c).0
                &&& final(self).seen() == old(self).seen().insert(s@, limit_step(c).1->0)
                &&& r matches LimResult::DontLogAndFYI(m) ==> m@ == fyi_text(s@)
            }),
    {
        let count = name_map_get(&self.counts, s);
        let (r, next) = log_limit(s, count);
        match next {
            Some(n) => {
                name_map_insert(&mut self.counts, s.to_owned(), n);
            },
            None => {},
        }
        r
    }
}

/// The recorded count after `k` occurrences of a message.
pub open spec fn count_after(k: nat) -> Option<u32>
    decreases k,
{
    if k == 0 {
        None
    } else {
        limit_step(count_after((k - 1) as nat)).1
    }
}

/// Of the occurrences of one message, the first 25 are logged, the 26th is
/// replaced by the notice, and every later one is dropped.
pub proof fn lemma_log_limit_sequence(k: nat)
    ensures
        k >= 1 ==> count_after(k) == Some(if k <= 26 {
            k as u32
        } else {
            26u32
        }),
        limit_step(count_after(k)).0 == if k < 25 {
            0int
        } else if k == 25 {
            2int
        } else {
            1int
        },
    decreases k,
{
    if k > 0 {
        lemma_log_limit_sequence((k - 1) as nat);
    }
}

/// Something to do when a `ReleaseOnDrop` guard holding it goes away.
pub trait ReleaseDrop {
    #[allow(non_snake_case)]
    fn OnDrop(&mut self);
}

/// Holds a value whose `OnDrop` is to be called when the holder is done with it.
pub struct ReleaseOnDrop<T: ReleaseDrop> {
    rd: T,
}

impl<T: ReleaseDrop> ReleaseOnDrop<T> {
    pub closed spec fn inner(&self) -> T {
        self.rd
    }

    /// Guard `rd`.
    pub fn new(rd: T) -> (r: Self)
        ensures
            r.inner() == rd,
    {
        ReleaseOnDrop { rd }
    }

    /// Release the guarded value: call its `OnDrop`.  (Verus verifies no
    /// `Drop` impl of this form, so the owner releases explicitly.)
    pub fn release(self) {
        let mut rd = self.rd;
        rd.OnDrop();
    }

    /// The guarded value.
    pub fn as_mut(&mut self) -> (r: &mut T)
        ensures
            *r == old(self).inner(),
            final(self).inner() == *final(r),
    {
        &mut self.rd
    }
}

} // verus!
