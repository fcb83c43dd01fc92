//! One tunnel's state on the server: its identifier, the handle of its backend
//! connection, the two end-of-stream flags and the time of its last use.
//!
//! The socket work itself is done by the caller, who hands in what the socket
//! reported; times are nanoseconds on a monotonic clock.

use vstd::prelude::*;

verus! {

/// Seconds after which an unused session is given up.
pub const CONNECTION_TIMEOUT: u64 = 30;

/// `CONNECTION_TIMEOUT` in nanoseconds.
pub const TIMEOUT_NANOS: u128 = 30_000_000_000;

/// What a socket operation reported when it failed.
pub struct IoFailure {
    /// The operation could not proceed without waiting.
    pub would_block: bool,
    /// The error in words.
    pub message: String,
}

/// The result of a non-blocking operation.
pub enum NonBlocking<T> {
    Success(T),
    Error(IoFailure),
    WouldBlock,
}

/// How the outcome of a socket operation reads as a non-blocking result.
pub open spec fn classify_spec<T>(outcome: Result<T, IoFailure>) -> NonBlocking<T> {
    match outcome {
        Ok(value) => NonBlocking::Success(value),
        Err(failure) => if failure.would_block {
            NonBlocking::WouldBlock
        } else {
            NonBlocking::Error(failure)
        },
    }
}

/// Tells "would block" apart from the other failures.
pub fn classify<T>(outcome: Result<T, IoFailure>) -> (res: NonBlocking<T>)
    ensures
        res == classify_spec(outcome),
{
    match outcome {
        Ok(value) => NonBlocking::Success(value),
        Err(failure) => if failure.would_block {
            NonBlocking::WouldBlock
        } else {
            NonBlocking::Error(failure)
        },
    }
}

/// One operation on a session, with what the backend socket reported for it.
pub enum SessionCall {
    /// A read; on success the bytes that were read, none of them at the end of
    /// the stream.
    Read { data: Result<Vec<u8>, IoFailure> },
    /// A write; on success the number of bytes that the socket took.
    Write { count: Result<usize, IoFailure> },
    /// The write half of the socket was shut down.
    SendEof,
}

/// What an operation on a session gives back.
pub enum SessionReply {
    Read(NonBlocking<Vec<u8>>),
    Written(NonBlocking<usize>),
    Closed,
}

/// Whether a read reported the end of the stream: success with no bytes.
pub open spec fn read_hit_eof(outcome: Result<Vec<u8>, IoFailure>) -> bool {
    outcome is Ok && outcome->Ok_0@.len() == 0
}

/// The reply to an operation. It depends on the socket's report alone.
pub open spec fn reply_to(call: SessionCall) -> SessionReply {
    match call {
        SessionCall::Read { data } => SessionReply::Read(classify_spec(data)),
        SessionCall::Write { count } => SessionReply::Written(classify_spec(count)),
        SessionCall::SendEof => SessionReply::Closed,
    }
}

/// The state of a session, without its socket.
pub struct SessionState {
    pub id: Seq<char>,
    pub sent_eof: bool,
    pub received_eof: bool,
    pub last_used: u128,
}

impl SessionState {
    /// Both directions have reached their end.
    pub open spec fn is_done(self) -> bool {
        self.sent_eof && self.received_eof
    }

    /// More than the timeout has passed at `now` since the last use.
    pub open spec fn is_timed_out(self, now: u128) -> bool {
        now - self.last_used > TIMEOUT_NANOS
    }

    /// The state after an operation at the time `now`.
    pub open spec fn step(self, now: u128, call: SessionCall) -> SessionState {
        match call {
            SessionCall::Read { data } => SessionState {
                received_eof: self.received_eof || read_hit_eof(data),
                last_used: now,
                ..self
            },
            SessionCall::Write { count } => SessionState { last_used: now, ..self },
            SessionCall::SendEof => SessionState { sent_eof: true, last_used: now, ..self },
        }
    }

    /// The state after a run of operations, each with its time.
    pub open spec fn run(self, calls: Seq<(u128, SessionCall)>) -> SessionState
        decreases calls.len(),
    {
        if calls.len() == 0 {
            self
        } else {
            self.run(calls.drop_last()).step(calls.last().0, calls.last().1)
        }
    }
}

/// Whatever operations follow, a flag that is set stays set, and the
/// identifier stays what it was.
pub proof fn lemma_eof_flags_stay(state: SessionState, calls: Seq<(u128, SessionCall)>)
    ensures
        state.sent_eof ==> state.run(calls).sent_eof,
        state.received_eof ==> state.run(calls).received_eof,
        state.run(calls).id == state.id,
    decreases calls.len(),
{
    if calls.len() > 0 {
        lemma_eof_flags_stay(state, calls.drop_last());
    }
}

/// After the write half was shut down the session counts as having sent its
/// end, and after a read of no bytes as having received it, whatever follows.
pub proof fn lemma_eof_is_kept(
    state: SessionState,
    now: u128,
    call: SessionCall,
    calls: Seq<(u128, SessionCall)>,
)
    ensures
        call is SendEof ==> state.step(now, call).run(calls).sent_eof,
        call is Read && read_hit_eof(call->data) ==> state.step(now, call).run(
            calls,
        ).received_eof,
{
    lemma_eof_flags_stay(state.step(now, call), calls);
}

/// A remote connection for a user. `S` is the handle of the backend socket,
/// which the session owns and never looks into.
pub struct Session<S> {
    id: String,
    stream: S,
    sent_eof: bool,
    received_eof: bool,
    last_used: u128,
}

impl<S> View for Session<S> {
    type V = SessionState;

    closed spec fn view(&self) -> SessionState {
        SessionState {
            id: self.id@,
            sent_eof: self.sent_eof,
            received_eof: self.received_eof,
            last_used: self.last_used,
        }
    }
}

impl<S> Session<S> {
    /// The handle of the backend socket.
    pub closed spec fn link(&self) -> S {
        self.stream
    }

    /// A new session on a backend connection that was established at `now`.
    pub fn connect(id: String, stream: S, now: u128) -> (session: Session<S>)
        ensures
            session@ == (SessionState {
                id: id@,
                sent_eof: false,
                received_eof: false,
                last_used: now,
            }),
            session.link() == stream,
    {
        Session { id, stream, sent_eof: false, received_eof: false, last_used: now }
    }

    /// The session's identifier.
    pub fn id(&self) -> (id: &str)
        ensures
            id@ == self@.id,
    {
        self.id.as_str()
    }

    /// The backend socket, for the caller to read, write or shut down.
    pub fn stream(&self) -> (stream: &S)
        ensures
            *stream == self.link(),
    {
        &self.stream
    }

    /// Whether the write half of the backend socket was shut down.
    pub fn has_sent_eof(&self) -> (res: bool)
        ensures
            res == self@.sent_eof,
    {
        self.sent_eof
    }

    /// Whether a read has reached the end of the backend's stream.
    pub fn has_received_eof(&self) -> (res: bool)
        ensures
            res == self@.received_eof,
    {
        self.received_eof
    }

    /// The time of the last operation.
    pub fn last_used(&self) -> (res: u128)
        ensures
            res == self@.last_used,
    {
        self.last_used
    }

    /// Check if both directions have reached their end.
    pub fn is_done(&self) -> (res: bool)
        ensures
            res == self@.is_done(),
    {
        self.sent_eof && self.received_eof
    }

    /// Takes in what a read of the backend socket reported at `now`. A read of
    /// no bytes marks the end of the backend's stream and yields the empty
    /// chunk.
    pub fn read_chunk(&mut self, now: u128, outcome: Result<Vec<u8>, IoFailure>) -> (res:
        NonBlocking<Vec<u8>>)
        ensures
            final(self)@ == old(self)@.step(now, SessionCall::Read { data: outcome }),
            final(self).link() == old(self).link(),
            res == classify_spec(outcome),
    {
        self.last_used = now;
        match &outcome {
            Ok(data) => {
                if data.len() == 0 {
                    self.received_eof = true;
                }
            },
            Err(_) => {},
        }
        classify(outcome)
    }

    /// Takes in what a write to the backend socket reported at `now`: on
    /// success the number of bytes that the socket took, which may be fewer
    /// than were offered.
    pub fn write_chunk(&mut self, now: u128, outcome: Result<usize, IoFailure>) -> (res:
        NonBlocking<usize>)
        ensures
            final(self)@ == old(self)@.step(now, SessionCall::Write { count: outcome }),
            final(self).link() == old(self).link(),
            res == classify_spec(outcome),
    {
        self.last_used = now;
        classify(outcome)
    }

    /// Records at `now` that the write half of the backend socket was shut
    /// down.
    pub fn send_eof(&mut self, now: u128)
        ensures
            final(self)@ == old(self)@.step(now, SessionCall::SendEof),
            final(self).link() == old(self).link(),
    {
        self.last_used = now;
        self.sent_eof = true;
    }

    /// Carries out one operation at `now`.
    pub fn apply(&mut self, now: u128, call: SessionCall) -> (reply: SessionReply)
        ensures
            final(self)@ == old(self)@.step(now, call),
            final(self).link() == old(self).link(),
            reply == reply_to(call),
    {
        match call {
            SessionCall::Read { data } => SessionReply::Read(self.read_chunk(now, data)),
            SessionCall::Write { count } => SessionReply::Written(self.write_chunk(now, count)),
            SessionCall::SendEof => {
                self.send_eof(now);
                SessionReply::Closed
            },
        }
    }

    /// Whether the session has been unused for more than the timeout at `now`.
    pub fn is_timed_out(&self, now: u128) -> (res: bool)
        ensures
            res == self@.is_timed_out(now),
    {
        now > self.last_used && now - self.last_used > TIMEOUT_NANOS
    }
}

} // verus!
