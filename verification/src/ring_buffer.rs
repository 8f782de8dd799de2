//! Ring buffer storing the captured debug entries.

use std::collections::HashMap;
use vstd::prelude::*;

use crate::process::lookup_process_name;
use crate::text::{decimal, parse_usize, parsed_usize};

verus! {

broadcast use vstd::std_specs::hash::group_hash_axioms;

/// Default ring buffer capacity (number of entries).
pub const DEFAULT_BUFFER_SIZE: usize = 100_000;

/// Seconds between the Windows FILETIME epoch (1601) and the UNIX epoch (1970).
pub const FILETIME_UNIX_DIFF: u64 = 11644473600;

/// Above this many cached process names the cache is emptied before the next insertion.
pub const PROCESS_CACHE_LIMIT: usize = 10000;

/// A single captured debug output entry.
#[derive(Debug)]
pub struct DebugEntry {
    /// Sequence number (monotonically increasing).
    pub seq: u64,
    /// Timestamp in Windows FILETIME format (100-nanosecond intervals since 1601).
    pub time: u64,
    /// Process ID that emitted the debug output.
    pub pid: u32,
    /// Process name (cached at capture time).
    pub process_name: String,
    /// The debug message text.
    pub text: String,
}

impl Clone for DebugEntry {
    fn clone(&self) -> (r: Self)
        ensures
            r == *self,
    {
        DebugEntry {
            seq: self.seq,
            time: self.time,
            pid: self.pid,
            process_name: self.process_name.clone(),
            text: self.text.clone(),
        }
    }
}

/// The name recorded for a process whose name could not be found.
pub open spec fn placeholder_name(pid: u32) -> Seq<char> {
    "<"@ + decimal(pid as nat) + ">"@
}

/// The process name to record: the one found, or the placeholder.
pub open spec fn name_or_placeholder(pid: u32, found: Option<String>) -> Seq<char> {
    match found {
        Some(name) => name@,
        None => placeholder_name(pid),
    }
}

/// The FILETIME value of a UNIX time, saturated at `u64::MAX`.
pub open spec fn filetime_of(secs: u64, nanos: u32) -> u64 {
    let t = (secs + FILETIME_UNIX_DIFF) * 10_000_000 + nanos / 100;
    if t <= u64::MAX {
        t as u64
    } else {
        u64::MAX
    }
}

/// `std::time::SystemTime::elapsed` on `UNIX_EPOCH`: the current time as whole seconds
/// and the nanoseconds past them (zero when the clock is before 1970). The time is the
/// machine's, so only the documented range of the nanoseconds is stated.
#[verifier::external_body]
fn unix_time_now() -> (r: (u64, u32))
    ensures
        r.1 < 1_000_000_000,
{
    let d = std::time::UNIX_EPOCH.elapsed().unwrap_or_default();
    (d.as_secs(), d.subsec_nanos())
}

/// Converts a UNIX time to Windows FILETIME (100-nanosecond intervals since 1601),
/// saturating at `u64::MAX`.
pub fn filetime_from_unix(secs: u64, nanos: u32) -> (r: u64)
    ensures
        r == filetime_of(secs, nanos),
{
    let s: u128 = secs as u128 + FILETIME_UNIX_DIFF as u128;
    assert(s * 10_000_000 <= u128::MAX) by (nonlinear_arith)
        requires
            s <= u64::MAX as u128 + FILETIME_UNIX_DIFF as u128,
    ;
    let t: u128 = s * 10_000_000 + (nanos as u128) / 100;
    if t <= u64::MAX as u128 {
        t as u64
    } else {
        u64::MAX
    }
}

/// The current time as Windows FILETIME.
pub fn get_filetime() -> (r: u64)
    ensures
        exists|secs: u64, nanos: u32| nanos < 1_000_000_000 && r == filetime_of(secs, nanos),
{
    let (secs, nanos) = unix_time_now();
    filetime_from_unix(secs, nanos)
}

/// How a name request for `pid` relates the cache before and after it to the name given:
/// a cached name is given back and the cache kept; otherwise the name is cached, after
/// the cache is emptied if it held more than `PROCESS_CACHE_LIMIT` names.
pub open spec fn cache_lookup(
    before: Map<u32, String>,
    after: Map<u32, String>,
    pid: u32,
    name: String,
) -> bool {
    if before.contains_key(pid) {
        name == before[pid] && after == before
    } else if before.len() > PROCESS_CACHE_LIMIT {
        after == Map::<u32, String>::empty().insert(pid, name)
    } else {
        after == before.insert(pid, name)
    }
}

/// The abstract state of a ring buffer.
pub struct RingBufferView {
    /// Every entry ever pushed, oldest first; entry `i` has sequence number `i + 1`.
    pub log: Seq<DebugEntry>,
    /// The number of entries the buffer retains.
    pub capacity: nat,
    /// The process name cache.
    pub process_cache: Map<u32, String>,
}

impl RingBufferView {
    /// The sequence number the next pushed entry receives.
    pub open spec fn current_seq(self) -> nat {
        self.log.len() + 1
    }

    /// The oldest sequence number still held by the buffer.
    pub open spec fn oldest_available(self) -> int {
        let total = self.log.len();
        if total >= self.capacity {
            total - self.capacity + 1
        } else {
            1
        }
    }

    /// The entries the buffer still holds, oldest first.
    pub open spec fn retained(self) -> Seq<DebugEntry> {
        self.log.subrange(self.oldest_available() - 1, self.log.len() as int)
    }

    /// What a read of at most `limit` entries from sequence number `start` gives:
    /// the entries and the next sequence number to read from.
    pub open spec fn read_from(self, start: u64, limit: usize) -> (Seq<DebugEntry>, u64) {
        if start >= self.current_seq() {
            (Seq::empty(), start)
        } else {
            let actual = if start >= self.oldest_available() {
                start as int
            } else {
                self.oldest_available()
            };
            let available = self.current_seq() - actual;
            let n = if limit <= available {
                limit as int
            } else {
                available
            };
            (self.log.subrange(actual - 1, actual - 1 + n), (actual + n) as u64)
        }
    }
}

/// Reading from the sequence number a push was given returns exactly the pushed entry
/// (given room for one entry), and the next sequence number to read is the one after it.
pub proof fn lemma_read_after_push(before: RingBufferView, after: RingBufferView, limit: usize)
    requires
        after.log.drop_last() == before.log,
        after.log.len() == before.log.len() + 1,
        after.capacity == before.capacity,
        before.capacity > 0,
        limit > 0,
        before.current_seq() < u64::MAX,
    ensures
        after.read_from(before.current_seq() as u64, limit) == (
            seq![after.log.last()],
            after.current_seq() as u64,
        ),
{
    let r = after.read_from(before.current_seq() as u64, limit);
    assert(r.0 =~= seq![after.log.last()]);
}

/// A read from the first sequence number with room for the whole buffer returns the
/// retained entries: the newest `capacity` ones (all of them while fewer were pushed).
pub proof fn lemma_full_read_returns_retained(v: RingBufferView, limit: usize)
    requires
        limit >= v.capacity,
        v.current_seq() <= u64::MAX,
    ensures
        v.read_from(1, limit).0 == v.retained(),
        v.retained().len() == if v.log.len() < v.capacity {
            v.log.len()
        } else {
            v.capacity
        },
        v.retained() == v.log.skip(v.log.len() - v.retained().len()),
{
    if v.log.len() > 0 {
        assert(v.read_from(1, limit).0 =~= v.retained());
    }
    assert(v.retained() =~= v.log.skip(v.log.len() - v.retained().len()));
}

/// Reading from the next sequence number to be assigned returns nothing and stays there.
pub proof fn lemma_read_at_current_is_empty(v: RingBufferView, limit: usize)
    requires
        v.current_seq() <= u64::MAX,
    ensures
        v.read_from(v.current_seq() as u64, limit) == (Seq::<DebugEntry>::empty(), v.current_seq() as u64),
{
}

/// Reading on from the position a read returned neither skips nor repeats an entry:
/// two reads of `a` and then `m` entries give what one read of `a + m` entries gives.
pub proof fn lemma_read_on_continues(v: RingBufferView, start: u64, a: usize, m: usize)
    requires
        a + m <= usize::MAX,
        v.current_seq() <= u64::MAX,
    ensures
        ({
            let (first, next) = v.read_from(start, a);
            let (second, after) = v.read_from(next, m);
            let (both, end) = v.read_from(start, (a + m) as usize);
            first + second == both && after == end
        }),
{
    let (first, next) = v.read_from(start, a);
    let (second, after) = v.read_from(next, m);
    let (both, end) = v.read_from(start, (a + m) as usize);
    if start < v.current_seq() {
        let actual = if start >= v.oldest_available() {
            start as int
        } else {
            v.oldest_available()
        };
        assert(v.log.subrange(actual - 1, next - 1) + second =~= both);
    } else {
        assert(first + second =~= both);
    }
}

/// A push leaves every older entry that is still retained where it was: a read from
/// its sequence number still returns it.
pub proof fn lemma_push_keeps_older_entries(before: RingBufferView, after: RingBufferView, t: u64)
    requires
        after.log.drop_last() == before.log,
        after.log.len() == before.log.len() + 1,
        after.capacity == before.capacity,
        after.oldest_available() <= t < before.current_seq(),
    ensures
        after.read_from(t, 1) == (seq![before.log[t - 1]], (t + 1) as u64),
{
    let r = after.read_from(t, 1);
    assert(after.log[t - 1] == before.log[t - 1]);
    assert(r.0 =~= seq![before.log[t - 1]]);
}

/// The process name cache never holds more than `PROCESS_CACHE_LIMIT + 1` names; a
/// request leaves the requested PID cached with the name it gave, and a name already
/// cached is given back with nothing changed. Below the limit every other cached name
/// stays.
pub proof fn lemma_cache_stays_bounded(
    before: Map<u32, String>,
    after: Map<u32, String>,
    pid: u32,
    name: String,
)
    requires
        cache_lookup(before, after, pid, name),
        before.dom().finite(),
        before.len() <= PROCESS_CACHE_LIMIT + 1,
    ensures
        after.dom().finite(),
        after.len() <= PROCESS_CACHE_LIMIT + 1,
        after.contains_key(pid),
        after[pid] == name,
        before.contains_key(pid) ==> name == before[pid] && after == before,
        before.len() <= PROCESS_CACHE_LIMIT ==> forall|q: u32|
            #[trigger] before.contains_key(q) ==> after.contains_key(q) && (q != pid ==> after[q]
                == before[q]),
{
    if !before.contains_key(pid) {
        if before.len() > PROCESS_CACHE_LIMIT {
            assert(Map::<u32, String>::empty().dom().len() == 0);
        } else {
            assert(before.insert(pid, name).dom() =~= before.dom().insert(pid));
        }
    }
}

/// Ring buffer of debug entries with a cache of process names.
pub struct RingBuffer {
    entries: Vec<Option<DebugEntry>>,
    write_pos: u64,
    next_seq: u64,
    capacity: usize,
    process_cache: HashMap<u32, String>,
    log: Ghost<Seq<DebugEntry>>,
}

impl View for RingBuffer {
    type V = RingBufferView;

    closed spec fn view(&self) -> RingBufferView {
        RingBufferView {
            log: self.log@,
            capacity: self.capacity as nat,
            process_cache: self.process_cache@,
        }
    }
}

proof fn lemma_distinct_slots(k: int, n: int, c: int)
    requires
        0 <= k < n,
        n - k < c,
    ensures
        k % c != n % c,
{
    vstd::arithmetic::div_mod::lemma_small_mod((n - k) as nat, c as nat);
    vstd::arithmetic::div_mod::lemma_mod_equivalence(n, k, c);
}

impl RingBuffer {
    /// The buffer's internal consistency: each retained entry sits in its slot.
    pub closed spec fn wf(&self) -> bool {
        &&& self.entries@.len() == self.capacity
        &&& self.process_cache@.len() <= PROCESS_CACHE_LIMIT + 1
        &&& self.next_seq == self.log@.len() + 1
        &&& self.write_pos == self.log@.len()
        &&& forall|i: int| 0 <= i < self.log@.len() ==> #[trigger] self.log@[i].seq == i + 1
        &&& forall|k: int|
            self@.oldest_available() - 1 <= k < self.log@.len() ==> self.entries@[k
                % (self.capacity as int)] == Some(#[trigger] self.log@[k])
    }

    /// The entries ever pushed are numbered from 1 in the order they were pushed.
    pub proof fn lemma_log_numbered(&self)
        requires
            self.wf(),
        ensures
            forall|i: int| 0 <= i < self@.log.len() ==> #[trigger] self@.log[i].seq == i + 1,
    {
    }

    /// Creates an empty ring buffer holding at most `capacity` entries.
    pub fn new(capacity: usize) -> (r: Self)
        ensures
            r.wf(),
            r@.log == Seq::<DebugEntry>::empty(),
            r@.capacity == capacity,
            r@.process_cache == Map::<u32, String>::empty(),
    {
        let mut entries: Vec<Option<DebugEntry>> = Vec::new();
        while entries.len() < capacity
            invariant
                entries.len() <= capacity,
            decreases capacity - entries.len(),
        {
            entries.push(None);
        }
        RingBuffer {
            entries,
            write_pos: 0,
            next_seq: 1,
            capacity,
            process_cache: HashMap::new(),
            log: Ghost(Seq::empty()),
        }
    }

    /// The capacity a `DBGVIEW_BUFFER_SIZE` setting asks for: its value when it parses
    /// as a `usize`, else `DEFAULT_BUFFER_SIZE`.
    pub open spec fn configured_capacity(setting: Option<Seq<char>>) -> nat {
        match setting {
            Some(s) => match parsed_usize(s) {
                Some(n) => n as nat,
                None => DEFAULT_BUFFER_SIZE as nat,
            },
            None => DEFAULT_BUFFER_SIZE as nat,
        }
    }

    /// Creates an empty buffer whose capacity comes from the `DBGVIEW_BUFFER_SIZE`
    /// setting (the variable's value, if it is set), defaulting to `DEFAULT_BUFFER_SIZE`.
    pub fn with_default_capacity(setting: Option<&str>) -> (r: Self)
        ensures
            r.wf(),
            r@.log == Seq::<DebugEntry>::empty(),
            r@.capacity == Self::configured_capacity(
                match setting {
                    Some(s) => Some(s@),
                    None => None,
                },
            ),
            r@.process_cache == Map::<u32, String>::empty(),
    {
        let capacity = match setting {
            Some(s) => match parse_usize(s) {
                Some(n) => n,
                None => DEFAULT_BUFFER_SIZE,
            },
            None => DEFAULT_BUFFER_SIZE,
        };
        Self::new(capacity)
    }

    /// The sequence number the next pushed entry receives.
    pub fn current_seq(&self) -> (r: u64)
        requires
            self.wf(),
        ensures
            r == self@.current_seq(),
    {
        self.next_seq
    }

    /// Gets at most `limit` entries starting from sequence number `start_seq`.
    /// Returns the entries and the next sequence number to read from; a start
    /// older than the oldest retained entry reads from the oldest one.
    pub fn get_entries_from(&self, start_seq: u64, limit: usize) -> (r: (Vec<DebugEntry>, u64))
        requires
            self.wf(),
        ensures
            r.0@ == self@.read_from(start_seq, limit).0,
            r.1 == self@.read_from(start_seq, limit).1,
            r.1 >= start_seq,
            r.0@.len() <= limit,
            r.0@.len() > 0 ==> r.1 <= self@.current_seq(),
            forall|i: int|
                0 <= i < r.0@.len() ==> (#[trigger] r.0@[i]).seq == r.1 - r.0@.len() + i
                    && r.0@[i].seq >= start_seq,
    {
        let current_seq = self.next_seq;
        if start_seq >= current_seq {
            return (Vec::new(), start_seq);
        }
        let total_written = current_seq - 1;
        let oldest_available = if total_written >= self.capacity as u64 {
            total_written - self.capacity as u64 + 1
        } else {
            1
        };
        let actual_start = if start_seq >= oldest_available {
            start_seq
        } else {
            oldest_available
        };
        let ghost v = self@;
        let mut result: Vec<DebugEntry> = Vec::new();
        let mut last_seq = actual_start;
        let mut seq = actual_start;
        while seq < current_seq && result.len() < limit
            invariant
                self.wf(),
                v == self@,
                current_seq == v.current_seq(),
                oldest_available == v.oldest_available(),
                actual_start <= seq <= current_seq,
                actual_start >= oldest_available,
                last_seq == seq,
                result.len() == seq - actual_start,
                result.len() <= limit,
                result@ == v.log.subrange(actual_start - 1, seq - 1),
            decreases current_seq - seq,
        {
            let pos = ((seq - 1) % (self.capacity as u64)) as usize;
            assert(self.entries@[(seq - 1) % (self.capacity as int)] == Some(v.log[seq - 1]));
            if let Some(entry) = &self.entries[pos] {
                if entry.seq == seq {
                    result.push(entry.clone());
                    last_seq = seq + 1;
                }
            }
            seq = seq + 1;
            assert(result@ =~= v.log.subrange(actual_start - 1, seq - 1));
        }
        assert forall|i: int| 0 <= i < result@.len() implies (#[trigger] result@[i]).seq
            == last_seq - result@.len() + i && result@[i].seq >= start_seq by {
            assert(result@[i] == v.log[actual_start - 1 + i]);
        }
        (result, last_seq)
    }

    /// Pushes a new entry, stamped with the current time and the process name.
    pub fn push(&mut self, pid: u32, text: String)
        requires
            old(self).wf(),
            old(self)@.capacity > 0,
            old(self)@.current_seq() < u64::MAX,
        ensures
            final(self).wf(),
            final(self)@.capacity == old(self)@.capacity,
            final(self)@.log.len() == old(self)@.log.len() + 1,
            final(self)@.log.drop_last() == old(self)@.log,
            final(self)@.log.last().seq == old(self)@.current_seq(),
            final(self)@.log.last().pid == pid,
            final(self)@.log.last().text == text,
            exists|secs: u64, nanos: u32|
                nanos < 1_000_000_000 && final(self)@.log.last().time == filetime_of(secs, nanos),
            cache_lookup(old(self)@.process_cache, final(self)@.process_cache, pid,
                final(self)@.log.last().process_name),
            final(self)@.process_cache.len() <= PROCESS_CACHE_LIMIT + 1,
    {
        let seq = self.next_seq;
        let time = get_filetime();
        let ghost old_cache = self.process_cache@;
        let process_name = self.get_process_name(pid);
        proof {
            lemma_cache_stays_bounded(old_cache, self.process_cache@, pid, process_name);
        }
        let entry = DebugEntry { seq, time, pid, process_name, text };
        let pos = (self.write_pos % (self.capacity as u64)) as usize;
        let ghost old_log = self.log@;
        let ghost old_entries = self.entries@;
        let ghost old_view = self@;
        assert(forall|k: int|
            old_view.oldest_available() - 1 <= k < old_log.len() ==> old_entries[k
                % (self.capacity as int)] == Some(#[trigger] old_log[k]));
        self.entries.set(pos, Some(entry));
        self.next_seq = seq + 1;
        self.write_pos = self.write_pos + 1;
        self.log = Ghost(old_log.push(entry));
        proof {
            assert(self.log@.drop_last() =~= old_log);
            assert forall|k: int|
                self@.oldest_available() - 1 <= k < self.log@.len() implies self.entries@[k
                    % (self.capacity as int)] == Some(#[trigger] self.log@[k]) by {
                let n = old_log.len() as int;
                if k < n {
                    lemma_distinct_slots(k, n, self.capacity as int);
                    assert(self.log@[k] == old_log[k]);
                    assert(old_view.oldest_available() - 1 <= k);
                }
            }
        }
    }

    /// Gets the process name for a PID from the cache, looking it up and caching
    /// it when absent; a cache grown past its limit is emptied first.
    fn get_process_name(&mut self, pid: u32) -> (name: String)
        ensures
            final(self).entries == old(self).entries,
            final(self).write_pos == old(self).write_pos,
            final(self).next_seq == old(self).next_seq,
            final(self).capacity == old(self).capacity,
            final(self).log == old(self).log,
            cache_lookup(old(self).process_cache@, final(self).process_cache@, pid, name),
    {
        match self.process_cache.get(&pid) {
            Some(name) => {
                return name.clone();
            },
            None => {},
        }
        let name = lookup_process_name(pid);
        if self.process_cache.len() > PROCESS_CACHE_LIMIT {
            self.process_cache.clear();
        }
        self.process_cache.insert(pid, name.clone());
        name
    }

    /// Empties the process name cache.
    pub fn clear_process_cache(&mut self)
        requires
            old(self).wf(),
        ensures
            final(self).wf(),
            final(self)@.log == old(self)@.log,
            final(self)@.capacity == old(self)@.capacity,
            final(self)@.process_cache == Map::<u32, String>::empty(),
    {
        self.process_cache.clear();
    }

    /// The number of entries the buffer retains.
    pub fn capacity(&self) -> (r: usize)
        ensures
            r == self@.capacity,
    {
        self.capacity
    }
}

} // verus!
