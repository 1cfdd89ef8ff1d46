//! Completion records and the events made from them.

use vstd::prelude::*;

verus! {

/// One raw record as the kernel's completion queue delivers it: the operation
/// status, the number of bytes transferred, and the completion key (context
/// token) the handle was registered under.
#[derive(Clone, Copy, PartialEq, Eq, Structural, Debug)]
pub struct CompletionRecord {
    pub status: u32,
    pub bytes: u32,
    pub token: u64,
}

/// One validated completion event, produced per drained record and handed
/// downstream. The context token is only observed and forwarded: the
/// per-operation context it names belongs to whichever code submitted the
/// original request.
#[derive(Clone, Copy, PartialEq, Eq, Structural, Debug)]
pub struct CompletionEvent {
    pub status_code: u32,
    pub byte_count: u32,
    pub context_token: u64,
}

/// The event a given raw record turns into.
pub open spec fn event_of(r: CompletionRecord) -> CompletionEvent {
    CompletionEvent { status_code: r.status, byte_count: r.bytes, context_token: r.token }
}

impl CompletionRecord {
    /// Safe adapter from one raw record to its validated event.
    pub fn to_event(&self) -> (e: CompletionEvent)
        ensures
            e == event_of(*self),
    {
        CompletionEvent {
            status_code: self.status,
            byte_count: self.bytes,
            context_token: self.token,
        }
    }
}

} // verus!
