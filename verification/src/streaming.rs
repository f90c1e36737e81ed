//! The streaming assembler: the state of one streamed response body.
//!
//! When a canister returns a streaming strategy, the initial body is sent
//! at once and the remainder arrives through repeated callback calls, each
//! yielding a chunk and possibly a next token.  The caller performs the
//! calls; this state machine decides whether another call may be issued and
//! records what has been delivered.  A hard ceiling bounds the number of
//! callback calls per request; exceeding it aborts the stream.  Streamed
//! bodies are deliberately not certified: the chunks are delivered as
//! received, trusting the canister-call authentication path alone.

use vstd::prelude::*;

use crate::ascii::append_bytes;

verus! {

/// No response may issue more callback calls than this.
pub const MAX_STREAM_CALLBACK_CALLS: u64 = 1000;

/// Where a stream stands.
#[derive(PartialEq, Eq, Structural, Clone, Copy, Debug)]
pub enum StreamStatus {
    /// More chunks may follow.
    Streaming,
    /// The canister returned no next token: the stream ended normally.
    Closed,
    /// The stream was cut off: a callback failed, the client went away, or
    /// the call ceiling was hit.
    Aborted,
}

/// The state of one streamed response.
pub struct StreamAssembler {
    /// Everything handed to the client so far, initial body included.
    pub delivered: Vec<u8>,
    /// Callback calls issued so far.
    pub calls: u64,
    /// Where the stream stands.
    pub status: StreamStatus,
}

impl StreamAssembler {
    /// The state invariant: the call budget is never exceeded.
    pub open spec fn wf(self) -> bool {
        self.calls <= MAX_STREAM_CALLBACK_CALLS
    }

    /// Starts a stream whose initial body bytes go out at once.
    pub fn new(initial_body: Vec<u8>) -> (r: StreamAssembler)
        ensures
            r.wf(),
            r.delivered == initial_body,
            r.calls == 0,
            r.status is Streaming,
    {
        StreamAssembler { delivered: initial_body, calls: 0, status: StreamStatus::Streaming }
    }

    /// Asks leave to issue the next callback call.  Granted while the
    /// stream is live and the budget is not exhausted; hitting the budget
    /// aborts the stream.
    pub fn begin_callback(&mut self) -> (r: bool)
        requires
            old(self).wf(),
            old(self).status is Streaming,
        ensures
            final(self).wf(),
            r == (old(self).calls < MAX_STREAM_CALLBACK_CALLS),
            final(self).delivered == old(self).delivered,
            r ==> final(self).calls == old(self).calls + 1 && final(self).status is Streaming,
            !r ==> final(self).calls == old(self).calls && final(self).status is Aborted,
    {
        if self.calls < MAX_STREAM_CALLBACK_CALLS {
            self.calls = self.calls + 1;
            true
        } else {
            self.status = StreamStatus::Aborted;
            false
        }
    }

    /// Records one successful callback: the chunk goes out to the client,
    /// and the stream stays live exactly when a next token came back.
    pub fn on_chunk(&mut self, chunk: &[u8], has_next_token: bool)
        requires
            old(self).wf(),
            old(self).status is Streaming,
        ensures
            final(self).wf(),
            final(self).delivered@ == old(self).delivered@ + chunk@,
            final(self).calls == old(self).calls,
            has_next_token ==> final(self).status is Streaming,
            !has_next_token ==> final(self).status is Closed,
    {
        append_bytes(&mut self.delivered, chunk);
        if !has_next_token {
            self.status = StreamStatus::Closed;
        }
    }

    /// Records a failure — a callback error or a client that went away.
    /// What was already delivered is kept.
    pub fn on_failure(&mut self)
        requires
            old(self).wf(),
        ensures
            final(self).wf(),
            final(self).delivered == old(self).delivered,
            final(self).calls == old(self).calls,
            final(self).status is Aborted,
    {
        self.status = StreamStatus::Aborted;
    }

    /// The bytes handed to the client so far.
    pub fn delivered_bytes(&self) -> (r: &Vec<u8>)
        ensures
            r == self.delivered,
    {
        &self.delivered
    }

    /// How many callback calls were issued.
    pub fn calls_made(&self) -> (r: u64)
        ensures
            r == self.calls,
    {
        self.calls
    }

    /// Whether the stream was cut off.
    pub fn is_aborted(&self) -> (r: bool)
        ensures
            r == (self.status is Aborted),
    {
        matches!(self.status, StreamStatus::Aborted)
    }

    /// Whether the stream ended normally.
    pub fn is_closed(&self) -> (r: bool)
        ensures
            r == (self.status is Closed),
    {
        matches!(self.status, StreamStatus::Closed)
    }

    /// Whether another callback may still be asked for.
    pub fn is_streaming(&self) -> (r: bool)
        ensures
            r == (self.status is Streaming),
    {
        matches!(self.status, StreamStatus::Streaming)
    }
}

/// Streaming bound: in every reachable state — `new` establishes the
/// invariant and every transition keeps it — the number of callback calls
/// issued stays within the ceiling, and a call is only ever granted while
/// the count is strictly below it.
pub proof fn lemma_streaming_bound(s: StreamAssembler)
    requires
        s.wf(),
    ensures
        s.calls <= MAX_STREAM_CALLBACK_CALLS,
{
}

} // verus!
