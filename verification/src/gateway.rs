//! The gateway handle: explicit lifecycle, command encoding, liveness, and
//! the closed set of error kinds.
//!
//! The handle here is the verified core of one external-program session.
//! The caller that owns the operating-system child process and its pipes
//! reports what happened at that boundary as plain values — a spawn outcome,
//! a liveness probe, the lines that were read — and this module decides what
//! follows: whether a handle exists, what is written, what a liveness check
//! answers, and which error kind names a failure.

use vstd::prelude::*;
use crate::framing::lemma_newline_count_push;
use crate::framing::lemma_newline_count_zero;
use crate::framing::newline_count;

verus! {

/// Lifecycle of a gateway handle.  A starting handle is transient: the
/// start sequence returns a handle only after the handshake read, so every
/// handle a caller holds is `Ready` until it is stopped.
#[derive(Clone, Copy, Debug, PartialEq, Eq, Structural)]
pub enum Lifecycle {
    Ready,
    Terminated,
}

/// What a non-blocking probe of the child process reported: still running,
/// already exited, or the probe itself could not be made (which counts as
/// not usable, never as an error).
#[derive(Clone, Copy, Debug, PartialEq, Eq, Structural)]
pub enum ProbeStatus {
    Running,
    Exited,
    ProbeFailed,
}

/// How spawning the external program went: a live child with both of its
/// standard pipes, or the particular step that failed.
#[derive(Clone, Copy, Debug, PartialEq, Eq, Structural)]
pub enum SpawnOutcome {
    Spawned,
    SpawnFailed,
    StdinUnavailable,
    StdoutUnavailable,
}

/// The closed set of gateway error kinds, so that callers branch on the
/// failure category instead of matching message strings.  Every kind is
/// terminal for the operation that raised it.
#[derive(Clone, Copy, Debug, PartialEq, Eq, Structural)]
pub enum GatewayError {
    SpawnFailure,
    StreamAcquisitionFailure,
    LockFailure,
    WriteFailure,
    FlushFailure,
    ReadFailure,
    HandleTerminated,
}

impl GatewayError {
    /// The fixed descriptive message of each error kind.
    pub open spec fn message(&self) -> Seq<char> {
        match self {
            GatewayError::SpawnFailure => "spawn failed"@,
            GatewayError::StreamAcquisitionFailure => "failed to get stream"@,
            GatewayError::LockFailure => "lock failed"@,
            GatewayError::WriteFailure => "write failed"@,
            GatewayError::FlushFailure => "flush failed"@,
            GatewayError::ReadFailure => "read failed"@,
            GatewayError::HandleTerminated => "handle terminated"@,
        }
    }

    /// A descriptive message for the error kind.
    pub fn describe(&self) -> (r: &'static str)
        ensures
            r@ == self.message(),
    {
        match self {
            GatewayError::SpawnFailure => "spawn failed",
            GatewayError::StreamAcquisitionFailure => "failed to get stream",
            GatewayError::LockFailure => "lock failed",
            GatewayError::WriteFailure => "write failed",
            GatewayError::FlushFailure => "flush failed",
            GatewayError::ReadFailure => "read failed",
            GatewayError::HandleTerminated => "handle terminated",
        }
    }
}

/// Milliseconds the stop sequence waits for a voluntary exit before the
/// child process is forcibly terminated.
pub const STOP_GRACE_MS: u64 = 100;

/// The gateway handle: one external-program session with its explicit
/// lifecycle state.
#[derive(Debug)]
pub struct MaudeProcess {
    state: Lifecycle,
}

impl MaudeProcess {
    /// The handle's lifecycle state.
    pub closed spec fn lifecycle(&self) -> Lifecycle {
        self.state
    }

    /// What a liveness check answers: positive exactly on a handle that was
    /// not stopped and whose child the probe found still running.
    pub open spec fn responds_alive(&self, probe: ProbeStatus) -> bool {
        self.lifecycle() is Ready && probe is Running
    }

    /// Decide a liveness check from the probe of the child process.  Never
    /// fails: a probe that could not be made answers false.
    pub fn is_alive(&self, probe: ProbeStatus) -> (r: bool)
        ensures
            r == self.responds_alive(probe),
    {
        match self.state {
            Lifecycle::Ready => match probe {
                ProbeStatus::Running => true,
                ProbeStatus::Exited => false,
                ProbeStatus::ProbeFailed => false,
            },
            Lifecycle::Terminated => false,
        }
    }

    /// Record that the stop sequence ran.  Stop never fails, so this is
    /// unconditional: afterward the handle is terminated.
    pub fn mark_stopped(&mut self)
        ensures
            final (self).lifecycle() is Terminated,
    {
        self.state = Lifecycle::Terminated;
    }

    /// The decision and encoding half of an execute call: a ready handle
    /// accepts the command and yields the exact line to write — the command
    /// followed by one line terminator; a terminated handle rejects it.
    pub fn prepare_command(&self, command: &Vec<u8>) -> (r: Result<Vec<u8>, GatewayError>)
        ensures
            match r {
                Ok(line) => self.lifecycle() is Ready && line@ == command@.push(10u8),
                Err(e) => self.lifecycle() is Terminated && e == GatewayError::HandleTerminated,
            },
    {
        match self.state {
            Lifecycle::Ready => Ok(encode_command(command)),
            Lifecycle::Terminated => Err(GatewayError::HandleTerminated),
        }
    }
}

/// The decision half of the start sequence: a handle exists exactly when
/// the spawn succeeded and both standard pipes were obtained, and each
/// failure maps to its error kind — spawn failures to one, missing pipes to
/// the other.
pub fn start_decision(outcome: SpawnOutcome) -> (r: Result<MaudeProcess, GatewayError>)
    ensures
        match r {
            Ok(p) => outcome is Spawned && p.lifecycle() is Ready,
            Err(e) => match outcome {
                SpawnOutcome::Spawned => false,
                SpawnOutcome::SpawnFailed => e == GatewayError::SpawnFailure,
                SpawnOutcome::StdinUnavailable => e == GatewayError::StreamAcquisitionFailure,
                SpawnOutcome::StdoutUnavailable => e == GatewayError::StreamAcquisitionFailure,
            },
        },
{
    match outcome {
        SpawnOutcome::Spawned => Ok(MaudeProcess { state: Lifecycle::Ready }),
        SpawnOutcome::SpawnFailed => Err(GatewayError::SpawnFailure),
        SpawnOutcome::StdinUnavailable => Err(GatewayError::StreamAcquisitionFailure),
        SpawnOutcome::StdoutUnavailable => Err(GatewayError::StreamAcquisitionFailure),
    }
}

/// Append the line terminator: the encoded line is the command followed by
/// one line feed.
pub fn encode_command(command: &Vec<u8>) -> (r: Vec<u8>)
    ensures
        r@ == command@.push(10u8),
{
    let mut r: Vec<u8> = Vec::new();
    let mut i: usize = 0;
    while i < command.len()
        invariant
            i <= command@.len(),
            r@ == command@.subrange(0, i as int),
        decreases command@.len() - i,
    {
        let b = command[i];
        r.push(b);
        assert(command@.subrange(0, i + 1 as int) =~= command@.subrange(0, i as int).push(b));
        i = i + 1;
    }
    assert(command@.subrange(0, command@.len() as int) =~= command@);
    r.push(10);
    r
}

/// The bytes of the quit command, spelling `q`, `u`, `i`, `t`.
pub open spec fn quit_command() -> Seq<u8> {
    seq![113u8, 117u8, 105u8, 116u8]
}

/// The graceful-shutdown line the stop sequence writes before the grace
/// period: the quit command and a line terminator.
pub fn quit_line() -> (r: Vec<u8>)
    ensures
        r@ == quit_command().push(10u8),
{
    let mut r: Vec<u8> = Vec::new();
    r.push(113);
    r.push(117);
    r.push(105);
    r.push(116);
    r.push(10);
    assert(r@ =~= quit_command().push(10u8));
    r
}

/// The fixed, non-configurable argument set the external program is
/// launched with, selecting silent, non-wrapped, non-advisory, fully
/// interactive line mode.
pub fn launch_flags() -> (r: Vec<&'static str>)
    ensures
        r@.len() == 4,
        r@[0]@ == "-no-banner"@,
        r@[1]@ == "-no-wrap"@,
        r@[2]@ == "-no-advise"@,
        r@[3]@ == "-interactive"@,
{
    let mut r: Vec<&'static str> = Vec::new();
    r.push("-no-banner");
    r.push("-no-wrap");
    r.push("-no-advise");
    r.push("-interactive");
    r
}

/// A command without embedded line terminators goes out as exactly one
/// line: what is written is the command itself, closed by a single line
/// feed — its only one.
pub proof fn lemma_command_sent_as_one_line(c: Seq<u8>)
    requires
        forall|k: int| 0 <= k < c.len() ==> c[k] != 10u8,
    ensures
        newline_count(c.push(10u8)) == 1,
        c.push(10u8).last() == 10u8,
        c.push(10u8).drop_last() == c,
{
    lemma_newline_count_zero(c);
    lemma_newline_count_push(c, 10u8);
    assert(c.push(10u8).drop_last() =~= c);
}

/// Liveness checks are idempotent: a check never changes the handle, so
/// with no intervening stop, checks that find the child still running all
/// agree, and on a ready handle they answer true — until the child itself
/// exits.
pub proof fn lemma_is_alive_idempotent(p: MaudeProcess, first: ProbeStatus, second: ProbeStatus)
    requires
        first is Running,
        second is Running,
    ensures
        p.responds_alive(first) == p.responds_alive(second),
        p.lifecycle() is Ready ==> p.responds_alive(first),
{
}

/// After a stop, every liveness check on the same handle answers false,
/// whatever the probe of the child reports.
pub proof fn lemma_not_alive_after_stop(p: MaudeProcess, probe: ProbeStatus)
    requires
        p.lifecycle() is Terminated,
    ensures
        !p.responds_alive(probe),
{
}

} // verus!
