//! Capture sessions: each has its own read position and filters.

use vstd::prelude::*;

use crate::filter::{
    compiled_view, empty_filters, entry_matches, filters_compile, passing, CompiledFilters,
    FilterSet, FilterSetView,
};
use crate::capture::DebugCapture;
use crate::error::DbgViewError;
use crate::ring_buffer::{DebugEntry, RingBuffer, RingBufferView};
use crate::text::{decimal, push_decimal};

verus! {

/// Session status information.
#[derive(Debug)]
pub struct SessionStatus {
    /// Session ID.
    pub id: String,
    /// Session name.
    pub name: String,
    /// Current filter configuration.
    pub filters: FilterSet,
    /// Number of pending (unread) entries.
    pub pending_count: u64,
    /// Whether capture is currently active.
    pub capture_active: bool,
}

/// What one read of a session gives: the passing entries among those scanned, at most
/// `limit` of them.
pub open spec fn session_output(f: FilterSetView, scanned: Seq<DebugEntry>, limit: usize) -> Seq<
    DebugEntry,
> {
    let m = passing(f, scanned);
    if m.len() <= limit {
        m
    } else {
        m.take(limit as int)
    }
}

/// Where a session's read position goes after a read that returned `out` and scanned
/// the buffer up to `next`: past the last entry returned, else to `next`, never back.
pub open spec fn cursor_after(cursor: u64, out: Seq<DebugEntry>, next: u64) -> u64 {
    if out.len() > 0 {
        let after_last = out.last().seq + 1;
        if after_last >= cursor {
            after_last as u64
        } else {
            cursor
        }
    } else if next > cursor {
        next
    } else {
        cursor
    }
}

/// The unread count of a session: entries between its read position and the buffer's
/// next sequence number (zero when the position is ahead).
pub open spec fn pending_between(cursor: u64, current: nat) -> u64 {
    if current >= cursor {
        (current - cursor) as u64
    } else {
        0
    }
}

/// A capture session with its own read position and filters.
#[derive(Debug)]
pub struct Session {
    /// Unique session ID.
    pub id: String,
    /// Human-readable name.
    pub name: String,
    filters: FilterSet,
    compiled_filters: CompiledFilters,
    cursor: u64,
}

impl Session {
    /// The compiled filters are those of the filter set.
    pub closed spec fn wf(&self) -> bool {
        &&& filters_compile(self.filters@)
        &&& self.compiled_filters@ == compiled_view(self.filters@)
    }

    /// The session's identifier.
    pub closed spec fn id_view(&self) -> Seq<char> {
        self.id@
    }

    /// The session's name.
    pub closed spec fn name_view(&self) -> Seq<char> {
        self.name@
    }

    /// The filter set of the session.
    pub closed spec fn filter_set(&self) -> FilterSetView {
        self.filters@
    }

    /// The next sequence number the session reads from.
    pub closed spec fn read_position(&self) -> u64 {
        self.cursor
    }

    /// A copy of the session's identifier.
    pub fn id_string(&self) -> (r: String)
        ensures
            r@ == self.id_view(),
    {
        self.id.clone()
    }

    /// A copy of the session's name.
    pub fn name_string(&self) -> (r: String)
        ensures
            r@ == self.name_view(),
    {
        self.name.clone()
    }

    /// Creates a session that starts reading at the buffer's next entry, with no filters.
    pub fn new(id: String, name: String, buffer: &RingBuffer) -> (r: Self)
        requires
            buffer.wf(),
        ensures
            r.wf(),
            r.id_view() == id@,
            r.name_view() == name@,
            r.filter_set() == empty_filters(),
            r.read_position() == buffer@.current_seq(),
    {
        let cursor = buffer.current_seq();
        let filters = FilterSet::default();
        let compiled_filters = CompiledFilters::default();
        proof {
            crate::filter::lemma_no_filters_pass_everything(arbitrary());
            assert(compiled_view(empty_filters()) =~= empty_filters());
        }
        Session { id, name, filters, compiled_filters, cursor }
    }

    /// Replaces the filters; fails with `InvalidRegex`, changing nothing, when a
    /// pattern does not compile.
    pub fn set_filters(&mut self, filters: FilterSet) -> (r: Result<(), crate::error::DbgViewError>)
        requires
            old(self).wf(),
        ensures
            final(self).wf(),
            final(self).id_view() == old(self).id_view(),
            final(self).name_view() == old(self).name_view(),
            final(self).read_position() == old(self).read_position(),
            match r {
                Ok(()) => filters_compile(filters@) && final(self).filter_set() == filters@,
                Err(e) => !filters_compile(filters@) && e is InvalidRegex && final(self).filter_set()
                    == old(self).filter_set(),
            },
    {
        let compiled = CompiledFilters::compile(&filters)?;
        self.filters = filters;
        self.compiled_filters = compiled;
        Ok(())
    }

    /// The current filters.
    pub fn get_filters(&self) -> (r: FilterSet)
        ensures
            r@ == self.filter_set(),
    {
        self.filters.clone()
    }

    /// Reads the filtered entries after the read position: scans up to `10 * limit`
    /// entries of the buffer, returns at most `limit` of those that pass, and moves the
    /// read position past them (or past the scanned entries when none passed).
    pub fn get_output(&mut self, buffer: &RingBuffer, limit: usize) -> (r: Vec<DebugEntry>)
        requires
            old(self).wf(),
            buffer.wf(),
            limit <= usize::MAX / 10,
        ensures
            final(self).wf(),
            final(self).id_view() == old(self).id_view(),
            final(self).name_view() == old(self).name_view(),
            final(self).filter_set() == old(self).filter_set(),
            ({
                let (scanned, next) = buffer@.read_from(old(self).read_position(), (limit * 10) as usize);
                &&& r@ == session_output(compiled_view(old(self).filter_set()), scanned, limit)
                &&& final(self).read_position() == cursor_after(old(self).read_position(), r@, next)
            }),
            r@.len() <= limit,
            final(self).read_position() >= old(self).read_position(),
            forall|i: int|
                0 <= i < r@.len() ==> old(self).read_position() <= (#[trigger] r@[i]).seq
                    < buffer@.current_seq() && entry_matches(
                    compiled_view(old(self).filter_set()),
                    r@[i],
                ),
            forall|i: int, j: int| 0 <= i < j < r@.len() ==> r@[i].seq < r@[j].seq,
    {
        let cursor = self.cursor;
        let (entries, new_cursor) = buffer.get_entries_from(cursor, limit * 10);
        let ghost f = self.compiled_filters@;
        let ghost pred = |e: DebugEntry| entry_matches(f, e);
        let mut filtered: Vec<DebugEntry> = Vec::new();
        let mut i: usize = 0;
        while i < entries.len() && filtered.len() < limit
            invariant
                self.wf(),
                f == self.compiled_filters@,
                pred == (|e: DebugEntry| entry_matches(f, e)),
                i <= entries.len(),
                filtered.len() <= limit,
                filtered@ == passing(f, entries@.take(i as int)),
                new_cursor >= cursor,
                forall|k: int|
                    0 <= k < entries@.len() ==> (#[trigger] entries@[k]).seq == new_cursor
                        - entries@.len() + k && entries@[k].seq >= cursor,
                entries@.len() > 0 ==> new_cursor <= buffer@.current_seq(),
                forall|k: int|
                    0 <= k < filtered@.len() ==> cursor <= (#[trigger] filtered@[k]).seq
                        < new_cursor - entries@.len() + i && entry_matches(f, filtered@[k]),
                forall|a: int, b: int|
                    0 <= a < b < filtered@.len() ==> filtered@[a].seq < filtered@[b].seq,
            decreases entries.len() - i,
        {
            let keep = self.compiled_filters.matches(&entries[i]);
            proof {
                reveal_with_fuel(Seq::filter, 1);
                assert(entries@.take(i + 1).drop_last() =~= entries@.take(i as int));
                assert(entries@.take(i + 1).last() == entries@[i as int]);
            }
            if keep {
                filtered.push(entries[i].clone());
            }
            i = i + 1;
        }
        proof {
            let all = entries@;
            let pre = all.take(i as int);
            assert(all =~= pre + all.skip(i as int));
            Seq::filter_distributes_over_add(pre, all.skip(i as int), pred);
            if i < entries.len() {
                assert(filtered@.len() == limit);
                assert(passing(f, all).take(limit as int) =~= filtered@);
            } else {
                assert(pre =~= all);
            }
            assert(self.compiled_filters@ == compiled_view(self.filters@));
        }
        if filtered.len() > 0 {
            let last_seq = filtered[filtered.len() - 1].seq + 1;
            self.cursor = if last_seq >= cursor {
                last_seq
            } else {
                cursor
            };
        } else if new_cursor > cursor {
            self.cursor = new_cursor;
        }
        filtered
    }

    /// Skips everything pending: the read position moves to the buffer's next entry.
    pub fn clear(&mut self, buffer: &RingBuffer)
        requires
            old(self).wf(),
            buffer.wf(),
        ensures
            final(self).wf(),
            final(self).id_view() == old(self).id_view(),
            final(self).name_view() == old(self).name_view(),
            final(self).filter_set() == old(self).filter_set(),
            final(self).read_position() == buffer@.current_seq(),
    {
        let current = buffer.current_seq();
        self.cursor = current;
    }

    /// The number of entries between the read position and the buffer's next entry
    /// (unfiltered).
    pub fn pending_count(&self, buffer: &RingBuffer) -> (r: u64)
        requires
            buffer.wf(),
        ensures
            r == pending_between(self.read_position(), buffer@.current_seq()),
    {
        let cursor = self.cursor;
        let current = buffer.current_seq();
        current.saturating_sub(cursor)
    }

    /// The session's status, reporting `capture_active` as given.
    pub fn status(&self, buffer: &RingBuffer, capture_active: bool) -> (r: SessionStatus)
        requires
            buffer.wf(),
        ensures
            describes(r, *self, buffer@.current_seq(), capture_active),
    {
        SessionStatus {
            id: self.id.clone(),
            name: self.name.clone(),
            filters: self.get_filters(),
            pending_count: self.pending_count(buffer),
            capture_active,
        }
    }
}

/// Whether a status reports this session, for a buffer whose next sequence number is
/// `current` and the given capture state.
pub open spec fn describes(st: SessionStatus, s: Session, current: nat, capture_active: bool) -> bool {
    &&& st.id@ == s.id_view()
    &&& st.name@ == s.name_view()
    &&& st.filters@ == s.filter_set()
    &&& st.pending_count == pending_between(s.read_position(), current)
    &&& st.capture_active == capture_active
}

/// The identifier given to the session created with number `n`.
pub open spec fn session_id_for(n: u64) -> Seq<char> {
    "session_"@ + decimal(n as nat)
}

/// Whether every session's identifier was made from a number below `next` (and above
/// zero): true of a new manager, and kept until the numbering runs out.
pub open spec fn ids_below_next(sessions: Seq<Session>, next: u64) -> bool {
    forall|i: int|
        0 <= i < sessions.len() ==> exists|n: u64|
            1 <= n < next && (#[trigger] sessions[i]).id_view() == session_id_for(n)
}

/// Sessions created with different numbers have different identifiers.
pub proof fn lemma_session_ids_differ(n: u64, m: u64)
    requires
        session_id_for(n) == session_id_for(m),
    ensures
        n == m,
{
    let p = "session_"@;
    assert(session_id_for(n).skip(p.len() as int) =~= decimal(n as nat));
    assert(session_id_for(m).skip(p.len() as int) =~= decimal(m as nat));
    crate::text::lemma_decimal_injective(n as nat, m as nat);
}

/// Whether some session has this identifier.
pub open spec fn has_id(sessions: Seq<Session>, id: Seq<char>) -> bool {
    exists|i: int| 0 <= i < sessions.len() && (#[trigger] sessions[i]).id_view() == id
}

/// The position of the session with this identifier.
pub open spec fn index_of_id(sessions: Seq<Session>, id: Seq<char>) -> int {
    choose|i: int| 0 <= i < sessions.len() && (#[trigger] sessions[i]).id_view() == id
}

/// The sessions without the one with this identifier.
pub open spec fn without_id(sessions: Seq<Session>, id: Seq<char>) -> Seq<Session> {
    if has_id(sessions, id) {
        sessions.remove(index_of_id(sessions, id))
    } else {
        sessions
    }
}

/// Whether no two sessions share an identifier.
pub open spec fn ids_distinct(sessions: Seq<Session>) -> bool {
    forall|i: int, j: int|
        0 <= i < j < sessions.len() ==> (#[trigger] sessions[i]).id_view() != (
        #[trigger] sessions[j]).id_view()
}

/// A session whose read position is the buffer's next sequence number (a new or a
/// cleared session) reads nothing, and its position stays where it is.
pub proof fn lemma_fresh_session_reads_nothing(v: RingBufferView, f: FilterSetView, limit: usize)
    requires
        v.current_seq() <= u64::MAX,
    ensures
        ({
            let (scanned, next) = v.read_from(v.current_seq() as u64, (limit * 10) as usize);
            &&& session_output(f, scanned, limit) == Seq::<DebugEntry>::empty()
            &&& cursor_after(v.current_seq() as u64, Seq::<DebugEntry>::empty(), next)
                == v.current_seq()
        }),
{
    crate::ring_buffer::lemma_read_at_current_is_empty(v, (limit * 10) as usize);
    reveal_with_fuel(Seq::filter, 1);
}

/// A session positioned at the buffer's next sequence number (a new or a cleared
/// session) has nothing pending, and every later push adds one pending entry.
pub proof fn lemma_pending_after_clear(v: RingBufferView, pushed: nat)
    requires
        v.current_seq() + pushed <= u64::MAX,
    ensures
        pending_between(v.current_seq() as u64, v.current_seq()) == 0,
        pending_between(v.current_seq() as u64, v.current_seq() + pushed) == pushed,
{
}

/// A read never returns an entry that an earlier read of the same session returned:
/// every entry of the later read comes after every entry of the earlier one.
pub proof fn lemma_reads_never_repeat(
    cursor: u64,
    first: Seq<DebugEntry>,
    next: u64,
    second: Seq<DebugEntry>,
)
    requires
        forall|i: int| 0 <= i < first.len() ==> cursor <= (#[trigger] first[i]).seq < u64::MAX,
        forall|i: int, j: int| 0 <= i < j < first.len() ==> first[i].seq < first[j].seq,
        forall|j: int|
            0 <= j < second.len() ==> cursor_after(cursor, first, next) <= (#[trigger] second[j]).seq,
    ensures
        forall|i: int, j: int|
            0 <= i < first.len() && 0 <= j < second.len() ==> first[i].seq < second[j].seq,
{
    assert forall|i: int, j: int| 0 <= i < first.len() && 0 <= j < second.len() implies first[i].seq
        < second[j].seq by {
        if i < first.len() - 1 {
            assert(first[i].seq < first[first.len() - 1].seq);
        }
        assert(cursor_after(cursor, first, next) <= second[j].seq);
    }
}

/// Over a series of reads of one session (with filter changes in between, which keep the
/// read position), the read position never goes back and no sequence number is
/// returned twice: every entry of a later read comes after every entry of an earlier
/// one. `positions[k]` is the read position before read `k`, which returned `outputs[k]`
/// and scanned the buffer up to `scanned_to[k]`.
pub proof fn lemma_series_never_repeats(
    positions: Seq<u64>,
    outputs: Seq<Seq<DebugEntry>>,
    scanned_to: Seq<u64>,
)
    requires
        positions.len() == outputs.len() + 1,
        scanned_to.len() == outputs.len(),
        forall|k: int|
            0 <= k < outputs.len() ==> #[trigger] positions[k + 1] == cursor_after(
                positions[k],
                outputs[k],
                scanned_to[k],
            ),
        forall|k: int, i: int|
            0 <= k < outputs.len() && 0 <= i < outputs[k].len() ==> positions[k]
                <= (#[trigger] outputs[k][i]).seq < u64::MAX,
        forall|k: int, i: int, j: int|
            0 <= k < outputs.len() && 0 <= i < j < outputs[k].len() ==> (
            #[trigger] outputs[k][i]).seq < (#[trigger] outputs[k][j]).seq,
    ensures
        forall|k1: int, k2: int|
            0 <= k1 <= k2 < positions.len() ==> #[trigger] positions[k1] <= #[trigger] positions[k2],
        forall|k1: int, k2: int, i: int, j: int|
            0 <= k1 < k2 < outputs.len() && 0 <= i < outputs[k1].len() && 0 <= j
                < outputs[k2].len() ==> (#[trigger] outputs[k1][i]).seq < (
            #[trigger] outputs[k2][j]).seq,
    decreases outputs.len(),
{
    let n = outputs.len() as int;
    if n > 0 {
        let p = positions.drop_last();
        let o = outputs.drop_last();
        let t = scanned_to.drop_last();
        assert forall|k: int| 0 <= k < o.len() implies #[trigger] p[k + 1] == cursor_after(
            p[k],
            o[k],
            t[k],
        ) by {
            assert(positions[k + 1] == cursor_after(positions[k], outputs[k], scanned_to[k]));
        }
        assert forall|k: int, i: int| 0 <= k < o.len() && 0 <= i < o[k].len() implies p[k] <= (
        #[trigger] o[k][i]).seq < u64::MAX by {
            assert(outputs[k][i] == o[k][i]);
        }
        assert forall|k: int, i: int, j: int| 0 <= k < o.len() && 0 <= i < j < o[k].len() implies (
        #[trigger] o[k][i]).seq < (#[trigger] o[k][j]).seq by {
            assert(outputs[k][i] == o[k][i]);
            assert(outputs[k][j] == o[k][j]);
        }
        lemma_series_never_repeats(p, o, t);
        let last = n - 1;
        // the position after the last read is at least every earlier position
        assert(positions[n] == cursor_after(positions[last], outputs[last], scanned_to[last]));
        assert(positions[last] <= positions[n]);
        assert forall|k1: int, k2: int| 0 <= k1 <= k2 < positions.len() implies #[trigger] positions[k1]
            <= #[trigger] positions[k2] by {
            if k2 == n {
                if k1 < n {
                    assert(p[k1] <= p[last]);
                }
            } else {
                assert(p[k1] <= p[k2]);
            }
        }
        assert forall|k1: int, k2: int, i: int, j: int|
            0 <= k1 < k2 < outputs.len() && 0 <= i < outputs[k1].len() && 0 <= j
                < outputs[k2].len() implies (#[trigger] outputs[k1][i]).seq < (
            #[trigger] outputs[k2][j]).seq by {
            if k2 == last {
                let f = outputs[k1];
                let cur = positions[k1];
                let nx = scanned_to[k1];
                assert(p[k1 + 1] <= p[last]);
                assert(positions[k1 + 1] == cursor_after(cur, f, nx));
                assert(positions[last] <= outputs[last][j].seq);
                assert(seq![outputs[k2][j]][0] == outputs[k2][j]);
                lemma_reads_never_repeat(cur, f, nx, seq![outputs[k2][j]]);
            } else {
                assert(o[k1][i] == outputs[k1][i]);
                assert(o[k2][j] == outputs[k2][j]);
            }
        }
    }
}

proof fn lemma_filter_keeps_order(s: Seq<DebugEntry>, pred: spec_fn(DebugEntry) -> bool)
    requires
        forall|i: int, j: int| 0 <= i < j < s.len() ==> s[i].seq < s[j].seq,
    ensures
        forall|i: int, j: int|
            0 <= i < j < s.filter(pred).len() ==> (#[trigger] s.filter(pred)[i]).seq < (
            #[trigger] s.filter(pred)[j]).seq,
    decreases s.len(),
{
    reveal_with_fuel(Seq::filter, 1);
    if s.len() > 0 {
        let rest = s.drop_last();
        lemma_filter_keeps_order(rest, pred);
        let sub = rest.filter(pred);
        if pred(s.last()) {
            let t = sub.push(s.last());
            assert forall|i: int, j: int| 0 <= i < j < t.len() implies (#[trigger] t[i]).seq < (
            #[trigger] t[j]).seq by {
                if j == t.len() - 1 {
                    assert(t[i] == sub[i]);
                    assert(sub.contains(sub[i]));
                    rest.lemma_filter_contains_rev(pred, sub[i]);
                    let m = choose|m: int| 0 <= m < rest.len() && rest[m] == sub[i];
                    assert(rest[m] == s[m]);
                } else {
                    assert(t[i] == sub[i]);
                    assert(t[j] == sub[j]);
                }
            }
        }
    }
}

/// Every read of a session moves its read position forward, and never past an entry
/// that passes the filters without returning it: each retained entry that passes and
/// lies between the old and the new read position is in what the read returned. So
/// however many entries fail the filters, a passing entry is returned by some later
/// read. `v` is a buffer whose entries are numbered from 1 in order
/// (`RingBuffer::lemma_log_numbered`), `cursor` a read position before its next entry.
pub proof fn lemma_reads_make_progress(
    v: RingBufferView,
    f: FilterSetView,
    cursor: u64,
    limit: usize,
)
    requires
        forall|i: int| 0 <= i < v.log.len() ==> #[trigger] v.log[i].seq == i + 1,
        cursor < v.current_seq() <= u64::MAX,
        0 < limit <= usize::MAX / 10,
    ensures
        ({
            let (scanned, next) = v.read_from(cursor, (limit * 10) as usize);
            let out = session_output(f, scanned, limit);
            let after = cursor_after(cursor, out, next);
            &&& cursor < after <= v.current_seq()
            &&& forall|k: int|
                v.oldest_available() - 1 <= k < v.log.len() && cursor <= v.log[k].seq < after
                    && entry_matches(f, v.log[k]) ==> #[trigger] out.contains(v.log[k])
        }),
{
    let lim = (limit * 10) as usize;
    let (scanned, next) = v.read_from(cursor, lim);
    let a: int = if cursor >= v.oldest_available() {
        cursor as int
    } else {
        v.oldest_available()
    };
    let avail = v.current_seq() - a;
    let n: int = if lim <= avail {
        lim as int
    } else {
        avail
    };
    assert(1 <= a <= v.current_seq());
    assert(scanned == v.log.subrange(a - 1, a - 1 + n));
    assert(next == a + n);
    assert(a == cursor ==> n >= 1);
    assert forall|j: int| 0 <= j < scanned.len() implies #[trigger] scanned[j].seq == a + j by {
        assert(scanned[j] == v.log[a - 1 + j]);
    }
    let pred = |e: DebugEntry| entry_matches(f, e);
    let ps = scanned.filter(pred);
    assert(ps == passing(f, scanned));
    lemma_filter_keeps_order(scanned, pred);
    let out = session_output(f, scanned, limit);
    let after = cursor_after(cursor, out, next);
    // the entries of what passed come from the scanned range
    assert forall|i: int| 0 <= i < ps.len() implies a <= (#[trigger] ps[i]).seq < a + n by {
        assert(ps.contains(ps[i]));
        scanned.lemma_filter_contains_rev(pred, ps[i]);
        let m = choose|m: int| 0 <= m < scanned.len() && scanned[m] == ps[i];
    }
    // a retained passing entry in range is among what passed
    assert forall|k: int|
        v.oldest_available() - 1 <= k < v.log.len() && cursor <= v.log[k].seq < a + n
            && entry_matches(f, v.log[k]) implies #[trigger] ps.contains(v.log[k]) by {
        let j = k - (a - 1);
        assert(scanned[j] == v.log[k]);
        scanned.lemma_filter_contains(pred, j);
    }
    if out.len() == 0 {
        if ps.len() > 0 {
            assert(out.len() > 0);
        }
        assert forall|k: int|
            v.oldest_available() - 1 <= k < v.log.len() && cursor <= v.log[k].seq < after
                && entry_matches(f, v.log[k]) implies #[trigger] out.contains(v.log[k]) by {
            assert(ps.contains(v.log[k]));
        }
    } else {
        let last = out.last();
        assert(out[out.len() - 1] == ps[out.len() - 1]);
        assert(a <= last.seq < a + n);
        assert forall|k: int|
            v.oldest_available() - 1 <= k < v.log.len() && cursor <= v.log[k].seq < after
                && entry_matches(f, v.log[k]) implies #[trigger] out.contains(v.log[k]) by {
            assert(ps.contains(v.log[k]));
            let p = choose|p: int| 0 <= p < ps.len() && ps[p] == v.log[k];
            if ps.len() > limit {
                if p >= limit {
                    assert(ps[limit - 1].seq < ps[p].seq);
                    assert(false);
                }
                assert(out[p] == ps[p]);
            } else {
                assert(out == ps);
            }
        }
    }
}

proof fn lemma_unfiltered_passing(scanned: Seq<DebugEntry>)
    ensures
        passing(compiled_view(empty_filters()), scanned) == scanned,
    decreases scanned.len(),
{
    reveal_with_fuel(Seq::filter, 1);
    if scanned.len() > 0 {
        lemma_unfiltered_passing(scanned.drop_last());
        crate::filter::lemma_no_filters_pass_everything(scanned.last());
        assert(scanned.drop_last().push(scanned.last()) =~= scanned);
    }
}

/// Without filters a session gets every entry it scans (up to its limit), in order.
pub proof fn lemma_unfiltered_session_sees_all(scanned: Seq<DebugEntry>, limit: usize)
    ensures
        session_output(compiled_view(empty_filters()), scanned, limit) == (if scanned.len() <= limit {
            scanned
        } else {
            scanned.take(limit as int)
        }),
{
    lemma_unfiltered_passing(scanned);
}

/// After a session is destroyed no session has its identifier, and the others remain.
pub proof fn lemma_destroyed_session_is_gone(sessions: Seq<Session>, id: Seq<char>)
    requires
        ids_distinct(sessions),
    ensures
        !has_id(without_id(sessions, id), id),
        forall|i: int|
            0 <= i < sessions.len() && sessions[i].id_view() != id ==> without_id(sessions, id).contains(
                sessions[i],
            ),
{
    let rest = without_id(sessions, id);
    if has_id(sessions, id) {
        let k = index_of_id(sessions, id);
        assert forall|a: int| 0 <= a < rest.len() implies (#[trigger] rest[a]).id_view() != id by {
            let a2 = if a < k { a } else { a + 1 };
            assert(rest[a] == sessions[a2]);
        }
        assert forall|i: int|
            0 <= i < sessions.len() && sessions[i].id_view() != id implies rest.contains(sessions[i]) by {
            let i2 = if i < k { i } else { i - 1 };
            assert(rest[i2] == sessions[i]);
        }
    } else {
        assert forall|i: int|
            0 <= i < sessions.len() && sessions[i].id_view() != id implies rest.contains(sessions[i]) by {
            assert(rest[i] == sessions[i]);
        }
    }
}

/// Removing the session with an identifier leaves exactly the other identifiers.
pub proof fn lemma_without_id_keeps_others(sessions: Seq<Session>, id: Seq<char>, x: Seq<char>)
    requires
        ids_distinct(sessions),
    ensures
        has_id(without_id(sessions, id), x) <==> (has_id(sessions, x) && x != id),
{
    lemma_destroyed_session_is_gone(sessions, id);
    let rest = without_id(sessions, id);
    if has_id(sessions, x) && x != id {
        let i = choose|i: int| 0 <= i < sessions.len() && (#[trigger] sessions[i]).id_view() == x;
        assert(rest.contains(sessions[i]));
        let j = choose|j: int| 0 <= j < rest.len() && rest[j] == sessions[i];
        assert(rest[j].id_view() == x);
    }
    if has_id(rest, x) {
        let j = choose|j: int| 0 <= j < rest.len() && (#[trigger] rest[j]).id_view() == x;
        if has_id(sessions, id) {
            let k = index_of_id(sessions, id);
            let j2 = if j < k { j } else { j + 1 };
            assert(rest[j] == sessions[j2]);
        } else {
            assert(rest[j] == sessions[j]);
        }
    }
}

/// A created session can be found by its identifier, and it is the one found.
pub proof fn lemma_created_session_is_found(sessions: Seq<Session>, s: Session)
    requires
        ids_distinct(sessions),
    ensures
        has_id(without_id(sessions, s.id_view()).push(s), s.id_view()),
        ({
            let after = without_id(sessions, s.id_view()).push(s);
            after[index_of_id(after, s.id_view())] == s
        }),
{
    let id = s.id_view();
    let rest = without_id(sessions, id);
    let after = rest.push(s);
    lemma_destroyed_session_is_gone(sessions, id);
    assert(after[rest.len() as int] == s);
    let k = index_of_id(after, id);
    if k < rest.len() {
        assert(after[k] == rest[k]);
    }
}

/// What one call of the session manager does to the set of session identifiers.
pub enum IdEvent {
    /// A session with this identifier was created (`create_session` succeeded).
    Created(Seq<char>),
    /// The session with this identifier was removed (`destroy_session`).
    Destroyed(Seq<char>),
    /// Every session was removed (`shutdown`).
    ShutDown,
    /// The identifiers stayed as they were (any other call, or a failed creation).
    Kept,
}

/// Whether a session with identifier `x` is live after these calls on a new manager:
/// it was created and neither destroyed nor shut down since.
pub open spec fn live_after(events: Seq<IdEvent>, x: Seq<char>) -> bool
    decreases events.len(),
{
    if events.len() == 0 {
        false
    } else {
        let before = live_after(events.drop_last(), x);
        match events.last() {
            IdEvent::Created(y) => before || x == y,
            IdEvent::Destroyed(y) => before && x != y,
            IdEvent::ShutDown => false,
            IdEvent::Kept => before,
        }
    }
}

/// Whether one call changed the sessions' identifiers as the event says; the contracts
/// of the manager's functions state this of each call.
pub open spec fn ids_step(before: Seq<Session>, after: Seq<Session>, e: IdEvent) -> bool {
    forall|x: Seq<char>|
        #[trigger] has_id(after, x) <==> match e {
            IdEvent::Created(y) => has_id(before, x) || x == y,
            IdEvent::Destroyed(y) => has_id(before, x) && x != y,
            IdEvent::ShutDown => false,
            IdEvent::Kept => has_id(before, x),
        }
}

/// Over any series of calls on a new manager, a session can be found (`get_session`
/// succeeds) exactly when its identifier was created and neither destroyed nor shut
/// down since. `sessions[k]` are the sessions before call `k`, which did `events[k]`.
pub proof fn lemma_lookup_follows_history(sessions: Seq<Seq<Session>>, events: Seq<IdEvent>)
    requires
        sessions.len() == events.len() + 1,
        sessions[0].len() == 0,
        forall|k: int|
            0 <= k < events.len() ==> ids_step(sessions[k], #[trigger] sessions[k + 1], events[k]),
    ensures
        forall|x: Seq<char>|
            #[trigger] has_id(sessions.last(), x) <==> live_after(events, x),
    decreases events.len(),
{
    if events.len() == 0 {
        assert forall|x: Seq<char>| #[trigger] has_id(sessions.last(), x) <==> live_after(events, x) by {
            assert(sessions.last() == sessions[0]);
        }
    } else {
        let n = events.len() as int;
        let s2 = sessions.drop_last();
        let e2 = events.drop_last();
        assert forall|k: int| 0 <= k < e2.len() implies ids_step(s2[k], #[trigger] s2[k + 1], e2[k]) by {
            assert(ids_step(sessions[k], sessions[k + 1], events[k]));
        }
        lemma_lookup_follows_history(s2, e2);
        assert(ids_step(sessions[n - 1], sessions[n], events[n - 1]));
        assert forall|x: Seq<char>| #[trigger] has_id(sessions.last(), x) <==> live_after(events, x) by {
            assert(has_id(s2.last(), x) <==> live_after(e2, x));
            assert(s2.last() == sessions[n - 1]);
            assert(has_id(sessions[n], x) == has_id(sessions.last(), x));
        }
    }
}

/// Manages multiple capture sessions and starts the capture with the first one.
pub struct SessionManager {
    sessions: Vec<Session>,
    capture: Option<DebugCapture>,
    capture_supported: bool,
    next_id: u64,
    created: Ghost<nat>,
}

impl SessionManager {
    /// Every session is consistent, identifiers are distinct, a started capture belongs
    /// to this platform, and sessions are numbered by creation (until the count of
    /// created sessions reaches `u64::MAX`, every live number is below the next one).
    pub closed spec fn wf(&self) -> bool {
        &&& forall|i: int| 0 <= i < self.sessions@.len() ==> (#[trigger] self.sessions@[i]).wf()
        &&& ids_distinct(self.sessions@)
        &&& (self.capture matches Some(c) ==> c.supported() == self.capture_supported)
        &&& self.next_id as int == (self.created@ + 1) % 0x1_0000_0000_0000_0000
        &&& self.created@ + 1 < 0x1_0000_0000_0000_0000 ==> ids_below_next(
            self.sessions@,
            self.next_id,
        )
    }

    /// The number of sessions created so far (successful `create_session` calls).
    pub closed spec fn created_count(&self) -> nat {
        self.created@
    }

    /// The sessions, oldest first.
    pub closed spec fn sessions(&self) -> Seq<Session> {
        self.sessions@
    }

    /// Whether the capture has been started (it is started once, with the first session).
    pub closed spec fn capture_started(&self) -> bool {
        self.capture is Some
    }

    /// Whether the capture is running.
    pub closed spec fn capture_running(&self) -> bool {
        self.capture matches Some(c) && c.running()
    }

    /// Whether this platform can capture debug output.
    pub closed spec fn platform_supported(&self) -> bool {
        self.capture_supported
    }

    /// The number the next created session's identifier is made from.
    pub closed spec fn next_number(&self) -> u64 {
        self.next_id
    }

    /// Creates a manager with no sessions and no capture; `capture_supported` tells
    /// whether this platform can capture debug output (only Windows can).
    pub fn new(capture_supported: bool) -> (r: Self)
        ensures
            r.wf(),
            r.sessions() == Seq::<Session>::empty(),
            !r.capture_started(),
            !r.capture_running(),
            r.platform_supported() == capture_supported,
            r.next_number() == 1,
            r.created_count() == 0,
    {
        SessionManager {
            sessions: Vec::new(),
            capture: None,
            capture_supported,
            next_id: 1,
            created: Ghost(0),
        }
    }

    /// Session identifiers are numbered by creation: the next session gets the number one
    /// past the count of sessions created so far (modulo 2^64), and until that count
    /// reaches `u64::MAX` every live session's number is below it.
    pub proof fn lemma_session_numbering(&self)
        requires
            self.wf(),
        ensures
            self.next_number() as int == (self.created_count() + 1) % 0x1_0000_0000_0000_0000,
            self.created_count() < u64::MAX ==> self.next_number() == self.created_count() + 1
                && ids_below_next(self.sessions(), self.next_number()),
    {
    }

    /// A running capture is a started one.
    pub proof fn lemma_running_means_started(&self)
        ensures
            self.capture_running() ==> self.capture_started(),
    {
    }

    /// No two sessions of a consistent manager share an identifier.
    pub proof fn lemma_ids_distinct(&self)
        requires
            self.wf(),
        ensures
            ids_distinct(self.sessions()),
    {
    }

    /// Starts the capture if it has not been started yet.
    fn ensure_capture_running(&mut self) -> (r: Result<(), DbgViewError>)
        requires
            old(self).wf(),
        ensures
            final(self).wf(),
            final(self).sessions == old(self).sessions,
            final(self).next_id == old(self).next_id,
            final(self).created == old(self).created,
            final(self).capture_supported == old(self).capture_supported,
            old(self).capture is Some ==> r is Ok && final(self).capture == old(self).capture,
            old(self).capture is None && old(self).capture_supported ==> r is Ok
                && final(self).capture_running(),
            old(self).capture is None && !old(self).capture_supported ==> (r matches Err(
                DbgViewError::PlatformNotSupported,
            )) && final(self).capture is None,
    {
        if self.capture.is_none() {
            let mut new_capture = DebugCapture::new(self.capture_supported)?;
            new_capture.start()?;
            self.capture = Some(new_capture);
        }
        Ok(())
    }

    /// Whether the capture is running.
    pub fn is_capture_active(&self) -> (r: bool)
        ensures
            r == self.capture_running(),
    {
        match &self.capture {
            Some(c) => c.is_running(),
            None => false,
        }
    }

    /// Records that the capture stopped on its own (its loop ended).
    pub fn capture_ended(&mut self)
        requires
            old(self).wf(),
        ensures
            final(self).wf(),
            final(self).sessions() == old(self).sessions(),
            final(self).capture_started() == old(self).capture_started(),
            !final(self).capture_running(),
            final(self).platform_supported() == old(self).platform_supported(),
            final(self).next_number() == old(self).next_number(),
            final(self).created_count() == old(self).created_count(),
    {
        match &mut self.capture {
            Some(c) => {
                let _ = c.stop();
            },
            None => {},
        }
    }

    /// The position of the session with this identifier, if there is one.
    fn find(&self, id: &str) -> (r: Option<usize>)
        requires
            self.wf(),
        ensures
            match r {
                Some(i) => i < self.sessions@.len() && i == index_of_id(self.sessions@, id@)
                    && self.sessions@[i as int].id_view() == id@ && has_id(self.sessions@, id@),
                None => !has_id(self.sessions@, id@),
            },
    {
        let key = String::from_str(id);
        let mut i: usize = 0;
        while i < self.sessions.len() && !(self.sessions[i].id == key)
            invariant
                i <= self.sessions@.len(),
                key@ == id@,
                forall|j: int| 0 <= j < i ==> self.sessions@[j].id_view() != id@,
            decreases self.sessions.len() - i,
        {
            i = i + 1;
        }
        if i < self.sessions.len() {
            proof {
                assert(self.sessions@[i as int].id_view() == id@);
                let k = index_of_id(self.sessions@, id@);
                if k != i {
                    if k < i {
                        assert(self.sessions@[k].id_view() != id@);
                    } else {
                        assert(self.sessions@[i as int].id_view() != self.sessions@[k].id_view());
                    }
                }
            }
            Some(i)
        } else {
            None
        }
    }

    /// Creates a session named `name` (its identifier when absent) reading from the
    /// buffer's next entry, starting the capture first if needed.
    pub fn create_session(&mut self, buffer: &RingBuffer, name: Option<String>) -> (r: Result<
        &Session,
        DbgViewError,
    >)
        requires
            old(self).wf(),
            buffer.wf(),
        ensures
            final(self).wf(),
            final(self).platform_supported() == old(self).platform_supported(),
            r is Err <==> (!old(self).capture_started() && !old(self).platform_supported()),
            match r {
                Ok(s) => {
                    let id = session_id_for(old(self).next_number());
                    &&& final(self).created_count() == old(self).created_count() + 1
                    &&& old(self).created_count() < u64::MAX ==> id == "session_"@ + decimal(
                        old(self).created_count() + 1,
                    )
                    &&& old(self).created_count() + 1 < u64::MAX ==> !has_id(old(self).sessions(), id)
                        && final(self).sessions() == old(self).sessions().push(*s)
                    &&& forall|x: Seq<char>|
                        #[trigger] has_id(final(self).sessions(), x) <==> (has_id(
                            old(self).sessions(),
                            x,
                        ) || x == id)
                    &&& ids_step(old(self).sessions(), final(self).sessions(), IdEvent::Created(id))
                    &&& final(self).capture_started()
                    &&& !old(self).capture_started() ==> final(self).capture_running()
                    &&& s.id_view() == id
                    &&& s.name_view() == (match name {
                        Some(n) => n@,
                        None => id,
                    })
                    &&& s.filter_set() == empty_filters()
                    &&& s.read_position() == buffer@.current_seq()
                    &&& final(self).sessions() == without_id(old(self).sessions(), id).push(*s)
                    &&& final(self).next_number() == (if old(self).next_number() == u64::MAX {
                        0
                    } else {
                        old(self).next_number() + 1
                    })
                },
                Err(e) => {
                    &&& !old(self).capture_started()
                    &&& !old(self).platform_supported()
                    &&& e is PlatformNotSupported
                    &&& final(self).sessions() == old(self).sessions()
                    &&& final(self).next_number() == old(self).next_number()
                    &&& final(self).created_count() == old(self).created_count()
                    &&& ids_step(old(self).sessions(), final(self).sessions(), IdEvent::Kept)
                    &&& !final(self).capture_started()
                },
            },
    {
        self.ensure_capture_running()?;
        let number = self.next_id;
        let ghost old_created = self.created@;
        let mut id = String::from_str("session_");
        push_decimal(&mut id, number);
        let name = match name {
            Some(n) => n,
            None => id.clone(),
        };
        let session = Session::new(id, name, buffer);
        let ghost old_sessions = self.sessions@;
        let ghost sid = session.id_view();
        match self.find(session.id.as_str()) {
            Some(i) => {
                self.sessions.remove(i);
            },
            None => {},
        }
        assert(self.sessions@ == without_id(old_sessions, sid));
        proof {
            let rest = self.sessions@;
            assert forall|a: int, b: int| 0 <= a < b < rest.len() implies (#[trigger] rest[a]).id_view()
                != (#[trigger] rest[b]).id_view() by {
                if has_id(old_sessions, sid) {
                    let k = index_of_id(old_sessions, sid);
                    let a2 = if a < k { a } else { a + 1 };
                    let b2 = if b < k { b } else { b + 1 };
                    assert(rest[a] == old_sessions[a2]);
                    assert(rest[b] == old_sessions[b2]);
                }
            }
            assert forall|a: int| 0 <= a < rest.len() implies (#[trigger] rest[a]).id_view() != sid by {
                if has_id(old_sessions, sid) {
                    let k = index_of_id(old_sessions, sid);
                    let a2 = if a < k { a } else { a + 1 };
                    assert(rest[a] == old_sessions[a2]);
                } else {
                    assert(old_sessions[a] == rest[a]);
                }
            }
            assert forall|a: int| 0 <= a < rest.len() implies (#[trigger] rest[a]).wf() by {
                if has_id(old_sessions, sid) {
                    let k = index_of_id(old_sessions, sid);
                    let a2 = if a < k { a } else { a + 1 };
                    assert(rest[a] == old_sessions[a2]);
                } else {
                    assert(old_sessions[a] == rest[a]);
                }
            }
        }
        self.next_id = self.next_id.wrapping_add(1);
        self.created = Ghost(old_created + 1);
        proof {
            vstd::arithmetic::div_mod::lemma_add_mod_noop(
                (old_created + 1) as int,
                1int,
                0x1_0000_0000_0000_0000int,
            );
            vstd::arithmetic::div_mod::lemma_small_mod(1, 0x1_0000_0000_0000_0000);
        }
        self.sessions.push(session);
        proof {
            assert forall|x: Seq<char>| #[trigger] has_id(self.sessions@, x) <==> (has_id(
                old_sessions,
                x,
            ) || x == sid) by {
                lemma_without_id_keeps_others(old_sessions, sid, x);
                let rest = without_id(old_sessions, sid);
                assert(self.sessions@ == rest.push(self.sessions@.last()));
                if has_id(self.sessions@, x) {
                    let j = choose|j: int| 0 <= j < self.sessions@.len() && (#[trigger] self.sessions@[j]).id_view() == x;
                    if j < rest.len() {
                        assert(rest[j] == self.sessions@[j]);
                    }
                }
                if has_id(rest, x) {
                    let j = choose|j: int| 0 <= j < rest.len() && (#[trigger] rest[j]).id_view() == x;
                    assert(self.sessions@[j] == rest[j]);
                }
                assert(self.sessions@[rest.len() as int].id_view() == sid);
            }
            let old_next = number;
            if ids_below_next(old_sessions, old_next) && 1 <= old_next < u64::MAX {
                if has_id(old_sessions, sid) {
                    let k = index_of_id(old_sessions, sid);
                    let w = choose|w: u64| 1 <= w < old_next && old_sessions[k].id_view() == session_id_for(w);
                    lemma_session_ids_differ(w, old_next);
                }
                assert(old_sessions.push(self.sessions@.last()) =~= self.sessions@);
                let all = self.sessions@;
                assert forall|a: int| 0 <= a < all.len() implies exists|w: u64|
                    1 <= w < self.next_id && (#[trigger] all[a]).id_view() == session_id_for(w) by {
                    if a < old_sessions.len() {
                        assert(all[a] == old_sessions[a]);
                        let w = choose|w: u64| 1 <= w < old_next && old_sessions[a].id_view() == session_id_for(w);
                        assert(1 <= w < self.next_id && all[a].id_view() == session_id_for(w));
                    } else {
                        assert(all[a].id_view() == session_id_for(old_next));
                    }
                }
            }
        }
        let n = self.sessions.len();
        Ok(&self.sessions[n - 1])
    }
    /// The session with this identifier; `SessionNotFound` when there is none.
    pub fn get_session(&self, id: &str) -> (r: Result<&Session, DbgViewError>)
        requires
            self.wf(),
        ensures
            match r {
                Ok(s) => has_id(self.sessions(), id@) && *s == self.sessions()[index_of_id(
                    self.sessions(),
                    id@,
                )] && s.wf(),
                Err(e) => !has_id(self.sessions(), id@) && (e matches DbgViewError::SessionNotFound(
                    x,
                ) && x@ == id@),
            },
    {
        match self.find(id) {
            Some(i) => Ok(&self.sessions[i]),
            None => Err(DbgViewError::SessionNotFound(String::from_str(id))),
        }
    }

    /// Removes the session with this identifier; `SessionNotFound` when there is none.
    pub fn destroy_session(&mut self, id: &str) -> (r: Result<(), DbgViewError>)
        requires
            old(self).wf(),
        ensures
            final(self).wf(),
            final(self).sessions() == without_id(old(self).sessions(), id@),
            !has_id(final(self).sessions(), id@),
            forall|x: Seq<char>|
                #[trigger] has_id(final(self).sessions(), x) <==> (has_id(old(self).sessions(), x)
                    && x != id@),
            ids_step(old(self).sessions(), final(self).sessions(), IdEvent::Destroyed(id@)),
            final(self).created_count() == old(self).created_count(),
            final(self).capture_started() == old(self).capture_started(),
            final(self).capture_running() == old(self).capture_running(),
            final(self).platform_supported() == old(self).platform_supported(),
            final(self).next_number() == old(self).next_number(),
            match r {
                Ok(()) => has_id(old(self).sessions(), id@),
                Err(e) => !has_id(old(self).sessions(), id@) && (e matches DbgViewError::SessionNotFound(
                    x,
                ) && x@ == id@),
            },
    {
        proof {
            lemma_destroyed_session_is_gone(self.sessions@, id@);
            let before = self.sessions@;
            assert forall|x: Seq<char>| #[trigger] has_id(without_id(before, id@), x) <==> (has_id(
                before,
                x,
            ) && x != id@) by {
                lemma_without_id_keeps_others(before, id@, x);
            }
        }
        match self.find(id) {
            Some(i) => {
                let ghost old_sessions = self.sessions@;
                self.sessions.remove(i);
                proof {
                    let rest = self.sessions@;
                    if ids_below_next(old_sessions, self.next_id) {
                        assert forall|a: int| 0 <= a < rest.len() implies exists|w: u64|
                            1 <= w < self.next_id && (#[trigger] rest[a]).id_view()
                                == session_id_for(w) by {
                            let a2 = if a < i { a } else { a + 1 };
                            assert(rest[a] == old_sessions[a2]);
                        }
                    }
                    assert forall|a: int, b: int| 0 <= a < b < rest.len() implies (
                    #[trigger] rest[a]).id_view() != (#[trigger] rest[b]).id_view() by {
                        let a2 = if a < i { a } else { a + 1 };
                        let b2 = if b < i { b } else { b + 1 };
                        assert(rest[a] == old_sessions[a2]);
                        assert(rest[b] == old_sessions[b2]);
                    }
                    assert forall|a: int| 0 <= a < rest.len() implies (#[trigger] rest[a]).wf() by {
                        let a2 = if a < i { a } else { a + 1 };
                        assert(rest[a] == old_sessions[a2]);
                    }
                }
                Ok(())
            },
            None => Err(DbgViewError::SessionNotFound(String::from_str(id))),
        }
    }

    /// The status of every session, oldest first.
    pub fn list_sessions(&self, buffer: &RingBuffer) -> (r: Vec<SessionStatus>)
        requires
            self.wf(),
            buffer.wf(),
        ensures
            r@.len() == self.sessions().len(),
            forall|i: int|
                0 <= i < r@.len() ==> describes(
                    #[trigger] r@[i],
                    self.sessions()[i],
                    buffer@.current_seq(),
                    self.capture_running(),
                ),
    {
        let capture_active = self.is_capture_active();
        let mut out: Vec<SessionStatus> = Vec::new();
        let mut i: usize = 0;
        while i < self.sessions.len()
            invariant
                i <= self.sessions@.len(),
                out@.len() == i,
                buffer.wf(),
                capture_active == self.capture_running(),
                forall|k: int|
                    0 <= k < i ==> describes(
                        #[trigger] out@[k],
                        self.sessions@[k],
                        buffer@.current_seq(),
                        capture_active,
                    ),
            decreases self.sessions.len() - i,
        {
            out.push(self.sessions[i].status(buffer, capture_active));
            i = i + 1;
        }
        out
    }

    /// Stops the capture and removes every session.
    pub fn shutdown(&mut self)
        requires
            old(self).wf(),
        ensures
            final(self).wf(),
            final(self).sessions() == Seq::<Session>::empty(),
            ids_step(old(self).sessions(), final(self).sessions(), IdEvent::ShutDown),
            !final(self).capture_started(),
            !final(self).capture_running(),
            final(self).platform_supported() == old(self).platform_supported(),
            final(self).next_number() == old(self).next_number(),
            final(self).created_count() == old(self).created_count(),
    {
        match self.capture.take() {
            Some(mut capture) => {
                let _ = capture.stop();
            },
            None => {},
        }
        self.sessions.clear();
    }

    /// Replaces the filters of the session with this identifier.
    pub fn set_session_filters(&mut self, id: &str, filters: FilterSet) -> (r: Result<
        (),
        DbgViewError,
    >)
        requires
            old(self).wf(),
        ensures
            final(self).wf(),
            final(self).capture_started() == old(self).capture_started(),
            final(self).capture_running() == old(self).capture_running(),
            final(self).platform_supported() == old(self).platform_supported(),
            final(self).next_number() == old(self).next_number(),
            final(self).sessions().len() == old(self).sessions().len(),
            final(self).created_count() == old(self).created_count(),
            forall|x: Seq<char>|
                #[trigger] has_id(final(self).sessions(), x) <==> has_id(old(self).sessions(), x),
            ids_step(old(self).sessions(), final(self).sessions(), IdEvent::Kept),
            !has_id(old(self).sessions(), id@) ==> (r matches Err(DbgViewError::SessionNotFound(x))
                && x@ == id@) && final(self).sessions() == old(self).sessions(),
            has_id(old(self).sessions(), id@) ==> {
                let i = index_of_id(old(self).sessions(), id@);
                let before = old(self).sessions()[i];
                let after = final(self).sessions()[i];
                &&& final(self).sessions() == old(self).sessions().update(i, after)
                &&& after.id_view() == before.id_view()
                &&& after.name_view() == before.name_view()
                &&& after.read_position() == before.read_position()
                &&& match r {
                    Ok(()) => filters_compile(filters@) && after.filter_set() == filters@,
                    Err(e) => !filters_compile(filters@) && e is InvalidRegex && after.filter_set()
                        == before.filter_set(),
                }
            },
    {
        match self.find(id) {
            Some(i) => {
                let ghost old_sessions = self.sessions@;
                let r = self.sessions[i].set_filters(filters);
                proof {
                    assert(self.sessions@ =~= old_sessions.update(i as int, self.sessions@[i as int]));
                    self.lemma_update_keeps_wf(old_sessions, i as int);
                }
                r
            },
            None => Err(DbgViewError::SessionNotFound(String::from_str(id))),
        }
    }

    /// Reads the filtered output of the session with this identifier (see
    /// `Session::get_output`).
    pub fn get_session_output(&mut self, id: &str, buffer: &RingBuffer, limit: usize) -> (r: Result<
        Vec<DebugEntry>,
        DbgViewError,
    >)
        requires
            old(self).wf(),
            buffer.wf(),
            has_id(old(self).sessions(), id@) ==> limit <= usize::MAX / 10,
        ensures
            final(self).wf(),
            final(self).capture_started() == old(self).capture_started(),
            final(self).capture_running() == old(self).capture_running(),
            final(self).platform_supported() == old(self).platform_supported(),
            final(self).next_number() == old(self).next_number(),
            final(self).sessions().len() == old(self).sessions().len(),
            final(self).created_count() == old(self).created_count(),
            forall|x: Seq<char>|
                #[trigger] has_id(final(self).sessions(), x) <==> has_id(old(self).sessions(), x),
            ids_step(old(self).sessions(), final(self).sessions(), IdEvent::Kept),
            !has_id(old(self).sessions(), id@) ==> (r matches Err(DbgViewError::SessionNotFound(x))
                && x@ == id@) && final(self).sessions() == old(self).sessions(),
            has_id(old(self).sessions(), id@) ==> {
                let i = index_of_id(old(self).sessions(), id@);
                let before = old(self).sessions()[i];
                let after = final(self).sessions()[i];
                let (scanned, next) = buffer@.read_from(before.read_position(), (limit * 10) as usize);
                &&& final(self).sessions() == old(self).sessions().update(i, after)
                &&& after.id_view() == before.id_view()
                &&& after.name_view() == before.name_view()
                &&& after.filter_set() == before.filter_set()
                &&& r matches Ok(out) && out@ == session_output(
                    compiled_view(before.filter_set()),
                    scanned,
                    limit,
                ) && after.read_position() == cursor_after(before.read_position(), out@, next)
            },
    {
        match self.find(id) {
            Some(i) => {
                let ghost old_sessions = self.sessions@;
                let out = self.sessions[i].get_output(buffer, limit);
                proof {
                    assert(self.sessions@ =~= old_sessions.update(i as int, self.sessions@[i as int]));
                    self.lemma_update_keeps_wf(old_sessions, i as int);
                }
                Ok(out)
            },
            None => Err(DbgViewError::SessionNotFound(String::from_str(id))),
        }
    }

    /// Skips the pending output of the session with this identifier.
    pub fn clear_session(&mut self, id: &str, buffer: &RingBuffer) -> (r: Result<(), DbgViewError>)
        requires
            old(self).wf(),
            buffer.wf(),
        ensures
            final(self).wf(),
            final(self).capture_started() == old(self).capture_started(),
            final(self).capture_running() == old(self).capture_running(),
            final(self).platform_supported() == old(self).platform_supported(),
            final(self).next_number() == old(self).next_number(),
            final(self).sessions().len() == old(self).sessions().len(),
            final(self).created_count() == old(self).created_count(),
            forall|x: Seq<char>|
                #[trigger] has_id(final(self).sessions(), x) <==> has_id(old(self).sessions(), x),
            ids_step(old(self).sessions(), final(self).sessions(), IdEvent::Kept),
            !has_id(old(self).sessions(), id@) ==> (r matches Err(DbgViewError::SessionNotFound(x))
                && x@ == id@) && final(self).sessions() == old(self).sessions(),
            has_id(old(self).sessions(), id@) ==> {
                let i = index_of_id(old(self).sessions(), id@);
                let before = old(self).sessions()[i];
                let after = final(self).sessions()[i];
                &&& r is Ok
                &&& final(self).sessions() == old(self).sessions().update(i, after)
                &&& after.id_view() == before.id_view()
                &&& after.name_view() == before.name_view()
                &&& after.filter_set() == before.filter_set()
                &&& after.read_position() == buffer@.current_seq()
            },
    {
        match self.find(id) {
            Some(i) => {
                let ghost old_sessions = self.sessions@;
                self.sessions[i].clear(buffer);
                proof {
                    assert(self.sessions@ =~= old_sessions.update(i as int, self.sessions@[i as int]));
                    self.lemma_update_keeps_wf(old_sessions, i as int);
                }
                Ok(())
            },
            None => Err(DbgViewError::SessionNotFound(String::from_str(id))),
        }
    }

    proof fn lemma_update_keeps_wf(&self, old_sessions: Seq<Session>, i: int)
        requires
            0 <= i < old_sessions.len(),
            self.sessions@ == old_sessions.update(i, self.sessions@[i]),
            self.sessions@[i].wf(),
            self.sessions@[i].id_view() == old_sessions[i].id_view(),
            forall|k: int| 0 <= k < old_sessions.len() ==> (#[trigger] old_sessions[k]).wf(),
            ids_distinct(old_sessions),
        ensures
            forall|k: int| 0 <= k < self.sessions@.len() ==> (#[trigger] self.sessions@[k]).wf(),
            ids_distinct(self.sessions@),
            ids_below_next(old_sessions, self.next_id) ==> ids_below_next(self.sessions@, self.next_id),
            forall|x: Seq<char>| #[trigger] has_id(self.sessions@, x) <==> has_id(old_sessions, x),
    {
        let s = self.sessions@;
        assert forall|x: Seq<char>| #[trigger] has_id(s, x) <==> has_id(old_sessions, x) by {
            if has_id(s, x) {
                let j = choose|j: int| 0 <= j < s.len() && (#[trigger] s[j]).id_view() == x;
                assert(old_sessions[j].id_view() == x);
            }
            if has_id(old_sessions, x) {
                let j = choose|j: int| 0 <= j < old_sessions.len() && (#[trigger] old_sessions[j]).id_view() == x;
                assert(s[j].id_view() == old_sessions[j].id_view());
            }
        }
        if ids_below_next(old_sessions, self.next_id) {
            assert forall|a: int| 0 <= a < s.len() implies exists|w: u64|
                1 <= w < self.next_id && (#[trigger] s[a]).id_view() == session_id_for(w) by {
                assert(s[a].id_view() == old_sessions[a].id_view());
            }
        }
        assert forall|a: int, b: int| 0 <= a < b < s.len() implies (#[trigger] s[a]).id_view() != (
        #[trigger] s[b]).id_view() by {
            assert(s[a].id_view() == old_sessions[a].id_view());
            assert(s[b].id_view() == old_sessions[b].id_view());
        }
        assert forall|k: int| 0 <= k < s.len() implies (#[trigger] s[k]).wf() by {
            if k != i {
                assert(s[k] == old_sessions[k]);
            }
        }
    }
}

} // verus!
