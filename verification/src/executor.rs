//! One-shot command execution over the shared transport: the process-wide
//! connection cache, and the executor's retry-once-after-invalidation
//! policy. The network work of an attempt (connect, open a channel, run the
//! command, collect output) happens outside; its outcome is handed in, and
//! the decision here is what Verus checks.
use crate::errors::TransportError;
use crate::keys::ConnKey;
use crate::keys::ConnKeyV;
use vstd::prelude::*;

verus! {

/// What a finished one-shot command reported.
#[derive(Debug, Clone, PartialEq, Eq)]
pub struct ExecOut {
    pub code: i32,
    pub stdout: String,
    pub stderr: String,
}

/// The exit code reported for a remote process: what the transport saw, or a
/// non-zero sentinel when the remote side never reported one. The sentinel is
/// a fidelity gap inherited from the transport library, kept as it is.
pub fn exit_code_or_sentinel(status: Option<i32>) -> (c: i32)
    ensures
        c == (match status {
            Some(s) => s,
            None => 1i32,
        }),
{
    match status {
        Some(s) => s,
        None => 1,
    }
}

/// The process-wide cache holding at most one live transport, identified by
/// its key. The transport value itself lives with the connection; the cache
/// records which endpoint the live one belongs to, and its validity.
pub struct ConnectionCache {
    cached: Option<ConnKey>,
}

impl View for ConnectionCache {
    type V = Option<ConnKeyV>;

    closed spec fn view(&self) -> Option<ConnKeyV> {
        match self.cached {
            Some(k) => Some(k@),
            None => None,
        }
    }
}

impl ConnectionCache {
    /// An empty cache: no transport yet.
    pub fn new() -> (c: ConnectionCache)
        ensures
            c@ is None,
    {
        ConnectionCache { cached: None }
    }

    /// Whether `acquire` must establish a new transport for this key: the
    /// cache is empty, or holds the transport of another endpoint.
    pub fn needs_connect(&self, key: &ConnKey) -> (r: bool)
        ensures
            r == (self@ != Some(key@)),
    {
        match &self.cached {
            Some(k) => !k.matches(key),
            None => true,
        }
    }

    /// Record a just-established transport for `key` as the cached one,
    /// replacing whatever was there.
    pub fn note_connected(&mut self, key: ConnKey)
        ensures
            final(self)@ == Some(key@),
    {
        self.cached = Some(key);
    }

    /// Unconditionally drop the cached transport: the next acquirer will see
    /// the invalidation and connect anew.
    pub fn invalidate(&mut self)
        ensures
            final(self)@ is None,
    {
        self.cached = None;
    }
}

/// How one attempt of the one-shot sequence ended: the command completed
/// (whatever its exit code), opening or dispatching on the channel failed, or
/// establishing the transport itself failed.
#[derive(Debug, Clone, PartialEq, Eq)]
pub enum AttemptOutcome {
    Completed(ExecOut),
    ChannelFailed(String),
    ConnectFailed(String),
}

/// Where a one-shot call stands after an attempt: retry once, or done.
#[derive(Debug, PartialEq, Eq)]
pub enum RunProgress {
    RetryOnce,
    Done(Result<ExecOut, TransportError>),
}

/// The executor's decision after one attempt. Only a channel failure on the
/// first attempt earns the single retry; connect failures and second
/// failures surface at once, and a completed command is returned as it is.
pub open spec fn spec_run_step(first_attempt: bool, outcome: AttemptOutcome) -> RunProgress {
    match outcome {
        AttemptOutcome::Completed(out) => RunProgress::Done(Ok(out)),
        AttemptOutcome::ConnectFailed(m) => RunProgress::Done(Err(TransportError::Connect(m))),
        AttemptOutcome::ChannelFailed(m) => {
            if first_attempt {
                RunProgress::RetryOnce
            } else {
                RunProgress::Done(Err(TransportError::Channel(m)))
            }
        },
    }
}

/// Decide how a one-shot call goes on after an attempt, invalidating the
/// cache exactly when the attempt's channel failure earns the one retry.
pub fn run_step(cache: &mut ConnectionCache, first_attempt: bool, outcome: AttemptOutcome) -> (p:
    RunProgress)
    ensures
        p == spec_run_step(first_attempt, outcome),
        p is RetryOnce ==> final(cache)@ is None,
        p is Done ==> final(cache)@ == old(cache)@,
{
    match outcome {
        AttemptOutcome::Completed(out) => RunProgress::Done(Ok(out)),
        AttemptOutcome::ConnectFailed(m) => RunProgress::Done(Err(TransportError::Connect(m))),
        AttemptOutcome::ChannelFailed(m) => {
            if first_attempt {
                cache.invalidate();
                RunProgress::RetryOnce
            } else {
                RunProgress::Done(Err(TransportError::Channel(m)))
            }
        },
    }
}

/// The one-shot executor retries at most once, whatever the attempts yield:
/// the first attempt ends the call unless its channel open or dispatch
/// failed, and the second attempt always ends it — with the command's result
/// when the transport recovered, with the channel error when it failed
/// again.
pub proof fn lemma_retry_at_most_once(o1: AttemptOutcome, o2: AttemptOutcome)
    ensures
        !(o1 is ChannelFailed) ==> spec_run_step(true, o1) is Done,
        spec_run_step(false, o2) is Done,
        o2 matches AttemptOutcome::Completed(out) ==> spec_run_step(false, o2)
            == RunProgress::Done(Ok(out)),
        o2 matches AttemptOutcome::ChannelFailed(m) ==> spec_run_step(false, o2)
            == RunProgress::Done(Err(TransportError::Channel(m))),
{
}

} // verus!
