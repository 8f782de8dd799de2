//! Debug output capture: the capture's run state and what one captured message does.

use vstd::prelude::*;

use crate::error::DbgViewError;
use crate::ring_buffer::{cache_lookup, RingBuffer};

verus! {

/// Run state of the debug output capture.
///
/// The capture itself (kernel objects, shared memory and the thread that waits on
/// them) needs the Windows API; the state here decides what starting and stopping
/// do, and `record_debug_output` does what the capture does with each message.
#[derive(Debug)]
pub struct DebugCapture {
    running: bool,
    platform_supported: bool,
}

impl DebugCapture {
    /// Whether the capture is running.
    pub closed spec fn running(&self) -> bool {
        self.running
    }

    /// Whether this platform can capture debug output.
    pub closed spec fn supported(&self) -> bool {
        self.platform_supported
    }

    /// Creates a stopped capture; `platform_supported` tells whether the platform can
    /// capture debug output (only Windows can).
    pub fn new(platform_supported: bool) -> (r: Result<Self, DbgViewError>)
        ensures
            r matches Ok(c) && !c.running() && c.supported() == platform_supported,
    {
        Ok(DebugCapture { running: false, platform_supported })
    }

    /// Starts capturing: fails with `PlatformNotSupported` off Windows, with
    /// `CaptureAlreadyRunning` when running; else the capture runs.
    pub fn start(&mut self) -> (r: Result<(), DbgViewError>)
        ensures
            final(self).supported() == old(self).supported(),
            !old(self).supported() ==> (r matches Err(DbgViewError::PlatformNotSupported))
                && final(self).running() == old(self).running(),
            old(self).supported() && old(self).running() ==> (r matches Err(
                DbgViewError::CaptureAlreadyRunning,
            )) && final(self).running(),
            old(self).supported() && !old(self).running() ==> r is Ok && final(self).running(),
    {
        if !self.platform_supported {
            return Err(DbgViewError::PlatformNotSupported);
        }
        if self.running {
            return Err(DbgViewError::CaptureAlreadyRunning);
        }
        self.running = true;
        Ok(())
    }

    /// Stops capturing.
    pub fn stop(&mut self) -> (r: Result<(), DbgViewError>)
        ensures
            r is Ok,
            !final(self).running(),
            final(self).supported() == old(self).supported(),
    {
        self.running = false;
        Ok(())
    }

    /// Whether the capture is running.
    pub fn is_running(&self) -> (r: bool)
        ensures
            r == self.running(),
    {
        self.running
    }
}

/// What `String::from_utf8_lossy` makes of bytes: their UTF-8 text, with each invalid
/// sequence replaced by U+FFFD.
pub uninterp spec fn utf8_lossy(bytes: Seq<u8>) -> Seq<char>;

/// `String::from_utf8_lossy`, taken as an owned string.
#[verifier::external_body]
fn decode_utf8_lossy(bytes: &[u8]) -> (r: String)
    ensures
        r@ == utf8_lossy(bytes@),
{
    String::from_utf8_lossy(bytes).into_owned()
}

/// The length of the message in a debug output buffer: the bytes before the first NUL,
/// or all of them when there is none.
pub open spec fn message_length(data: Seq<u8>) -> nat
    decreases data.len(),
{
    if data.len() == 0 || data[0] == 0 {
        0
    } else {
        1 + message_length(data.drop_first())
    }
}

proof fn lemma_message_length(data: Seq<u8>, n: int)
    requires
        0 <= n <= data.len(),
        forall|j: int| 0 <= j < n ==> data[j] != 0,
        n == data.len() || data[n] == 0,
    ensures
        message_length(data) == n,
    decreases n,
{
    if n > 0 {
        lemma_message_length(data.drop_first(), n - 1);
    }
}

/// Stores one captured message: the bytes of the debug output buffer before the first
/// NUL, decoded lossily as UTF-8, pushed for the process; an empty message is dropped.
pub fn record_debug_output(buffer: &mut RingBuffer, pid: u32, data: &[u8])
    requires
        old(buffer).wf(),
        message_length(data@) > 0 ==> old(buffer)@.capacity > 0 && old(buffer)@.current_seq()
            < u64::MAX,
    ensures
        final(buffer).wf(),
        message_length(data@) == 0 ==> final(buffer)@ == old(buffer)@,
        message_length(data@) > 0 ==> {
            &&& final(buffer)@.capacity == old(buffer)@.capacity
            &&& final(buffer)@.log.drop_last() == old(buffer)@.log
            &&& final(buffer)@.log.len() == old(buffer)@.log.len() + 1
            &&& final(buffer)@.log.last().seq == old(buffer)@.current_seq()
            &&& final(buffer)@.log.last().pid == pid
            &&& final(buffer)@.log.last().text@ == utf8_lossy(
                data@.take(message_length(data@) as int),
            )
            &&& cache_lookup(
                old(buffer)@.process_cache,
                final(buffer)@.process_cache,
                pid,
                final(buffer)@.log.last().process_name,
            )
        },
{
    let mut len: usize = 0;
    while len < data.len() && data[len] != 0
        invariant
            len <= data@.len(),
            forall|j: int| 0 <= j < len ==> data@[j] != 0,
        decreases data.len() - len,
    {
        len = len + 1;
    }
    proof {
        lemma_message_length(data@, len as int);
    }
    if len > 0 {
        let mut message: Vec<u8> = Vec::new();
        let mut i: usize = 0;
        while i < len
            invariant
                i <= len <= data@.len(),
                message@ == data@.take(i as int),
            decreases len - i,
        {
            message.push(data[i]);
            i = i + 1;
            assert(message@ =~= data@.take(i as int));
        }
        let text = decode_utf8_lossy(message.as_slice());
        buffer.push(pid, text);
    }
}

} // verus!
