//! Tests for the ring buffer module

use dbgview::ring_buffer::{filetime_from_unix, get_filetime, DEFAULT_BUFFER_SIZE};
use dbgview::text::parse_usize;
use dbgview::RingBuffer;

// ── Construction ──────────────────────────────────────────

#[test]
fn new_buffer_has_correct_capacity() {
    let buf = RingBuffer::new(50);
    // Fresh buffer: next seq is 1, nothing to read
    assert_eq!(buf.current_seq(), 1);
    assert_eq!(buf.capacity(), 50);
    let (entries, cursor) = buf.get_entries_from(1, 100);
    assert!(entries.is_empty());
    assert_eq!(cursor, 1);
}

#[test]
fn with_default_capacity_respects_env() {
    // Without the variable set, the default capacity is used
    let buf = RingBuffer::with_default_capacity(None);
    assert_eq!(buf.current_seq(), 1);
    assert_eq!(buf.capacity(), DEFAULT_BUFFER_SIZE);
    let buf = RingBuffer::with_default_capacity(Some("25"));
    assert_eq!(buf.capacity(), 25);
    let buf = RingBuffer::with_default_capacity(Some("not-a-number"));
    assert_eq!(buf.capacity(), DEFAULT_BUFFER_SIZE);
}

// ── Basic push & read ─────────────────────────────────────

#[test]
fn push_single_entry() {
    let mut buf = RingBuffer::new(10);
    buf.push(1234, "Hello".to_string());

    let (entries, cursor) = buf.get_entries_from(1, 100);
    assert_eq!(entries.len(), 1);
    assert_eq!(entries[0].seq, 1);
    assert_eq!(entries[0].pid, 1234);
    assert_eq!(entries[0].text, "Hello");
    assert!(entries[0].time > 0); // should have a real timestamp
    assert_eq!(cursor, 2);
}

#[test]
fn push_multiple_entries_sequential() {
    let mut buf = RingBuffer::new(10);
    for i in 0..5 {
        buf.push(1000 + i, format!("msg-{}", i));
    }

    let (entries, cursor) = buf.get_entries_from(1, 100);
    assert_eq!(entries.len(), 5);
    for (i, entry) in entries.iter().enumerate() {
        assert_eq!(entry.seq, (i + 1) as u64);
        assert_eq!(entry.pid, 1000 + i as u32);
        assert_eq!(entry.text, format!("msg-{}", i));
    }
    assert_eq!(cursor, 6);
}

#[test]
fn current_seq_advances_with_pushes() {
    let mut buf = RingBuffer::new(10);
    assert_eq!(buf.current_seq(), 1);
    buf.push(1, "a".into());
    assert_eq!(buf.current_seq(), 2);
    buf.push(1, "b".into());
    assert_eq!(buf.current_seq(), 3);
    buf.push(1, "c".into());
    assert_eq!(buf.current_seq(), 4);
}

// ── Wrap-around ───────────────────────────────────────────

#[test]
fn wraps_around_when_full() {
    let mut buf = RingBuffer::new(5);
    for i in 0..10 {
        buf.push(1, format!("msg-{}", i));
    }

    // Only the last 5 should be available
    let (entries, _) = buf.get_entries_from(1, 100);
    assert_eq!(entries.len(), 5);
    assert_eq!(entries[0].text, "msg-5");
    assert_eq!(entries[4].text, "msg-9");
}

#[test]
fn wraps_around_exactly_at_capacity() {
    let mut buf = RingBuffer::new(3);
    for i in 0..3 {
        buf.push(1, format!("msg-{}", i));
    }

    let (entries, cursor) = buf.get_entries_from(1, 100);
    assert_eq!(entries.len(), 3);
    assert_eq!(entries[0].text, "msg-0");
    assert_eq!(entries[2].text, "msg-2");
    assert_eq!(cursor, 4);
}

#[test]
fn wraps_around_multiple_times() {
    let mut buf = RingBuffer::new(3);
    for i in 0..100 {
        buf.push(1, format!("msg-{}", i));
    }

    let (entries, _) = buf.get_entries_from(1, 100);
    assert_eq!(entries.len(), 3);
    assert_eq!(entries[0].text, "msg-97");
    assert_eq!(entries[1].text, "msg-98");
    assert_eq!(entries[2].text, "msg-99");
}

// ── Cursor / partial reads ────────────────────────────────

#[test]
fn read_from_middle() {
    let mut buf = RingBuffer::new(10);
    for i in 0..5 {
        buf.push(1, format!("msg-{}", i));
    }

    // Read starting from seq 3
    let (entries, cursor) = buf.get_entries_from(3, 100);
    assert_eq!(entries.len(), 3);
    assert_eq!(entries[0].text, "msg-2"); // seq 3
    assert_eq!(entries[2].text, "msg-4"); // seq 5
    assert_eq!(cursor, 6);
}

#[test]
fn read_with_limit() {
    let mut buf = RingBuffer::new(10);
    for i in 0..10 {
        buf.push(1, format!("msg-{}", i));
    }

    let (entries, _) = buf.get_entries_from(1, 3);
    assert_eq!(entries.len(), 3);
    assert_eq!(entries[0].text, "msg-0");
    assert_eq!(entries[2].text, "msg-2");
}

#[test]
fn read_from_future_seq_returns_empty() {
    let mut buf = RingBuffer::new(10);
    buf.push(1, "hello".into());

    let (entries, cursor) = buf.get_entries_from(999, 100);
    assert!(entries.is_empty());
    assert_eq!(cursor, 999);
}

#[test]
fn read_from_overwritten_seq_adjusts_to_oldest() {
    let mut buf = RingBuffer::new(3);
    for i in 0..10 {
        buf.push(1, format!("msg-{}", i));
    }

    // Seq 1 is long gone, should adjust to oldest available
    let (entries, _) = buf.get_entries_from(1, 100);
    assert_eq!(entries.len(), 3);
    assert_eq!(entries[0].text, "msg-7"); // oldest available
}

#[test]
fn empty_buffer_returns_empty() {
    let buf = RingBuffer::new(10);
    let (entries, cursor) = buf.get_entries_from(1, 100);
    assert!(entries.is_empty());
    assert_eq!(cursor, 1);
}

// ── Process name cache ────────────────────────────────────

#[test]
fn process_name_is_populated() {
    let mut buf = RingBuffer::new(10);
    // Use PID 1 — should get some name
    buf.push(1, "test".into());

    let (entries, _) = buf.get_entries_from(1, 1);
    assert_eq!(entries.len(), 1);
    // Should have resolved to something (not empty)
    assert!(!entries[0].process_name.is_empty());
}

#[test]
fn unknown_pid_gets_placeholder_name() {
    let mut buf = RingBuffer::new(10);
    // Push with a PID that almost certainly doesn't exist
    buf.push(999999999, "test".into());

    let (entries, _) = buf.get_entries_from(1, 1);
    assert_eq!(entries.len(), 1);
    // Should get a placeholder like "<999999999>"
    assert!(entries[0].process_name.contains("999999999"));
    assert_eq!(entries[0].process_name, "<999999999>");
}

#[test]
fn clear_process_cache() {
    let mut buf = RingBuffer::new(10);
    buf.push(1, "a".into());
    buf.clear_process_cache();
    // Should not crash, cache is now empty
    buf.push(1, "b".into());
    let (entries, _) = buf.get_entries_from(1, 100);
    assert_eq!(entries.len(), 2);
}

// ── Timestamps ────────────────────────────────────────────

#[test]
fn timestamps_are_monotonically_increasing() {
    let mut buf = RingBuffer::new(10);
    buf.push(1, "a".into());
    buf.push(1, "b".into());

    let (entries, _) = buf.get_entries_from(1, 100);
    assert_eq!(entries.len(), 2);
    assert!(entries[1].time >= entries[0].time);
}

// ── In-module tests of the original ───────────────────────

#[test]
fn test_ring_buffer_basic() {
    let mut buffer = RingBuffer::new(10);

    buffer.push(1234, "Hello".to_string());
    buffer.push(1234, "World".to_string());

    let (entries, cursor) = buffer.get_entries_from(1, 100);
    assert_eq!(entries.len(), 2);
    assert_eq!(entries[0].text, "Hello");
    assert_eq!(entries[1].text, "World");
    assert_eq!(cursor, 3);
}

#[test]
fn test_ring_buffer_wrap() {
    let mut buffer = RingBuffer::new(5);

    for i in 0..10 {
        buffer.push(1234, format!("Message {}", i));
    }

    // Only last 5 should be available
    let (entries, _) = buffer.get_entries_from(1, 100);
    assert_eq!(entries.len(), 5);
    assert_eq!(entries[0].text, "Message 5");
    assert_eq!(entries[4].text, "Message 9");
}

// ── Further cases ─────────────────────────────────────────

#[test]
fn read_after_push_returns_the_new_entry() {
    let mut buf = RingBuffer::new(2);
    buf.push(7, "first".into());
    buf.push(7, "second".into());
    let before = buf.current_seq();
    buf.push(8, "third".into());
    let (entries, cursor) = buf.get_entries_from(before, 1);
    assert_eq!(entries.len(), 1);
    assert_eq!(entries[0].text, "third");
    assert_eq!(entries[0].seq, before);
    assert_eq!(cursor, before + 1);
}

#[test]
fn zero_limit_skips_to_oldest() {
    let mut buf = RingBuffer::new(2);
    for i in 0..5 {
        buf.push(1, format!("m{}", i));
    }
    let (entries, cursor) = buf.get_entries_from(1, 0);
    assert!(entries.is_empty());
    assert_eq!(cursor, 4);
}

#[test]
fn zero_capacity_buffer_reads_nothing() {
    let buf = RingBuffer::new(0);
    let (entries, cursor) = buf.get_entries_from(0, 10);
    assert!(entries.is_empty());
    assert_eq!(cursor, 1);
}

#[test]
fn filetime_conversion_exact_values() {
    // The UNIX epoch is 11644473600 seconds after the FILETIME epoch.
    assert_eq!(filetime_from_unix(0, 0), 116_444_736_000_000_000);
    assert_eq!(filetime_from_unix(1, 250), 116_444_736_010_000_002);
    assert_eq!(filetime_from_unix(u64::MAX, 0), u64::MAX);
    assert!(get_filetime() > 116_444_736_000_000_000);
}

#[test]
fn parse_usize_follows_str_parse() {
    assert_eq!(parse_usize("42"), Some(42));
    assert_eq!(parse_usize("+7"), Some(7));
    assert_eq!(parse_usize(""), None);
    assert_eq!(parse_usize("+"), None);
    assert_eq!(parse_usize("-1"), None);
    assert_eq!(parse_usize(" 5"), None);
    assert_eq!(parse_usize("99999999999999999999999"), None);
    assert_eq!(parse_usize("18446744073709551615"), Some(usize::MAX));
}

#[test]
fn reading_on_neither_skips_nor_repeats() {
    let mut buf = RingBuffer::new(5);
    for k in 0..8u32 {
        buf.push(1, format!("m{}", k));
    }
    for start in 0..11u64 {
        for a in 0..7usize {
            for m in 0..7usize {
                let (first, next) = buf.get_entries_from(start, a);
                let (second, after) = buf.get_entries_from(next, m);
                let (both, end) = buf.get_entries_from(start, a + m);
                let joined: Vec<u64> = first.iter().chain(second.iter()).map(|e| e.seq).collect();
                let whole: Vec<u64> = both.iter().map(|e| e.seq).collect();
                assert_eq!(joined, whole);
                assert_eq!(after, end);
            }
        }
    }
}

#[test]
fn push_keeps_older_retained_entries() {
    let mut buf = RingBuffer::new(3);
    buf.push(1, "a".into());
    buf.push(1, "b".into());
    let s = buf.current_seq();
    buf.push(1, "c".into());
    assert_eq!(buf.current_seq(), s + 1);
    let (e, next) = buf.get_entries_from(s, 1);
    assert_eq!(e.len(), 1);
    assert_eq!(e[0].text, "c");
    assert_eq!(next, s + 1);
    let (older, _) = buf.get_entries_from(2, 1);
    assert_eq!(older[0].text, "b");
}

#[test]
fn cached_process_name_is_kept() {
    let mut buf = RingBuffer::new(10);
    buf.push(424242, "one".into());
    buf.push(424242, "two".into());
    let (e, _) = buf.get_entries_from(1, 2);
    assert_eq!(e[0].process_name, e[1].process_name);
}
