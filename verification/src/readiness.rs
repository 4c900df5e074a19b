//! A single-use gate between a producer that makes a resource ready and a
//! consumer that waits for it with a deadline.
//!
//! A gate records what the consumer has seen of the producer and settles
//! the wait once: signaled, abandoned or timed out. A settled gate stays as
//! it is.

use vstd::prelude::*;

verus! {

/// Why a wait ended without the resource being ready.
#[derive(Debug, Clone, Copy, PartialEq, Eq, Structural)]
pub enum ReadinessError {
    /// The producer went away without signaling.
    Abandoned,
    /// The deadline passed while the producer had neither signaled nor gone
    /// away.
    Timeout,
}

/// What the consumer can see of the producer.
#[derive(Debug, Clone, Copy, PartialEq, Eq, Structural)]
pub enum ProducerStatus {
    /// Still at work: it has neither signaled nor gone away.
    Running,
    /// It has signaled that the resource is ready.
    Signaled,
    /// It has ended without signaling.
    Gone,
}

/// The states of a gate.
#[derive(Debug, Clone, Copy, PartialEq, Eq, Structural)]
pub enum ReadinessState {
    Pending,
    Signaled,
    Abandoned,
    TimedOut,
}

/// How a wait ends, if it ends, at `elapsed_ms` of `timeout_ms`: what the
/// producer has done decides before the deadline does.
pub open spec fn settled(producer: ProducerStatus, elapsed_ms: u64, timeout_ms: u64) -> Option<
    Result<(), ReadinessError>,
> {
    match producer {
        ProducerStatus::Signaled => Some(Ok(())),
        ProducerStatus::Gone => Some(Err(ReadinessError::Abandoned)),
        ProducerStatus::Running => if elapsed_ms >= timeout_ms {
            Some(Err(ReadinessError::Timeout))
        } else {
            None
        },
    }
}

/// The state that an outcome stands for.
pub open spec fn state_of(outcome: Option<Result<(), ReadinessError>>) -> ReadinessState {
    match outcome {
        None => ReadinessState::Pending,
        Some(Ok(())) => ReadinessState::Signaled,
        Some(Err(ReadinessError::Abandoned)) => ReadinessState::Abandoned,
        Some(Err(ReadinessError::Timeout)) => ReadinessState::TimedOut,
    }
}

/// A readiness gate: the producer's status and the outcome of the wait, once there
/// is one.
#[derive(Debug, Clone, Copy, PartialEq, Eq)]
pub struct ReadinessGate {
    /// What the producer has done so far.
    pub producer: ProducerStatus,
    /// How the wait ended; `None` while it is pending.
    pub outcome: Option<Result<(), ReadinessError>>,
}

impl ReadinessGate {
    /// The state that this gate is in.
    pub open spec fn state_spec(self) -> ReadinessState {
        state_of(self.outcome)
    }

    /// This gate after the consumer has looked at it `elapsed_ms` into a wait
    /// of `timeout_ms`: a settled gate is unchanged, a pending one takes the
    /// outcome that is due, if one is.
    pub open spec fn after_wait(self, elapsed_ms: u64, timeout_ms: u64) -> ReadinessGate {
        if self.outcome is Some {
            self
        } else {
            ReadinessGate {
                producer: self.producer,
                outcome: settled(self.producer, elapsed_ms, timeout_ms),
            }
        }
    }

    /// A pending gate whose producer is at work.
    pub fn new() -> (gate: Self)
        ensures
            gate.producer == ProducerStatus::Running,
            gate.outcome is None,
            gate.state_spec() == ReadinessState::Pending,
    {
        ReadinessGate { producer: ProducerStatus::Running, outcome: None }
    }

    /// The state that this gate is in.
    pub fn state(&self) -> (state: ReadinessState)
        ensures
            state == self.state_spec(),
    {
        match self.outcome {
            None => ReadinessState::Pending,
            Some(Ok(())) => ReadinessState::Signaled,
            Some(Err(ReadinessError::Abandoned)) => ReadinessState::Abandoned,
            Some(Err(ReadinessError::Timeout)) => ReadinessState::TimedOut,
        }
    }

    /// Whether the wait has ended.
    pub fn is_settled(&self) -> (settled: bool)
        ensures
            settled == (self.state_spec() != ReadinessState::Pending),
    {
        self.outcome.is_some()
    }

    /// The producer signals that the resource is ready. It does so once, and
    /// only while it is at work. A wait that has already ended stays ended.
    pub fn signal(&mut self)
        requires
            old(self).producer == ProducerStatus::Running,
        ensures
            final(self).producer == ProducerStatus::Signaled,
            final(self).outcome == old(self).outcome,
    {
        self.producer = ProducerStatus::Signaled;
    }

    /// The producer ends. If it had not signaled, it is gone for the
    /// consumer; a signal that was given stays given.
    pub fn producer_ended(&mut self)
        ensures
            final(self).producer == if old(self).producer == ProducerStatus::Running {
                ProducerStatus::Gone
            } else {
                old(self).producer
            },
            final(self).outcome == old(self).outcome,
    {
        if self.producer == ProducerStatus::Running {
            self.producer = ProducerStatus::Gone;
        }
    }

    /// The consumer looks at this gate `elapsed_ms` after it began a wait of
    /// `timeout_ms`. A settled gate answers as it did before. A pending one
    /// settles if the producer has signaled or gone away or if the deadline
    /// has passed, and answers `None` if the wait goes on.
    pub fn wait(&mut self, elapsed_ms: u64, timeout_ms: u64) -> (outcome: Option<
        Result<(), ReadinessError>,
    >)
        ensures
            *final(self) == old(self).after_wait(elapsed_ms, timeout_ms),
            outcome == final(self).outcome,
    {
        if self.outcome.is_none() {
            self.outcome = match self.producer {
                ProducerStatus::Signaled => Some(Ok(())),
                ProducerStatus::Gone => Some(Err(ReadinessError::Abandoned)),
                ProducerStatus::Running => if elapsed_ms >= timeout_ms {
                    Some(Err(ReadinessError::Timeout))
                } else {
                    None
                },
            };
        }
        self.outcome
    }
}

/// A producer that never signals and never goes away makes the wait end
/// with `Timeout`, at the deadline and not before.
pub proof fn lemma_silent_producer_times_out(elapsed_ms: u64, timeout_ms: u64)
    ensures
        elapsed_ms >= timeout_ms ==> settled(ProducerStatus::Running, elapsed_ms, timeout_ms)
            == Some(Err::<(), ReadinessError>(ReadinessError::Timeout)),
        elapsed_ms < timeout_ms ==> settled(ProducerStatus::Running, elapsed_ms, timeout_ms)
            is None,
{
}

/// A producer that went away without signaling makes the wait end with
/// `Abandoned`, whether the deadline has passed or not.
pub proof fn lemma_gone_producer_abandons(elapsed_ms: u64, timeout_ms: u64)
    ensures
        settled(ProducerStatus::Gone, elapsed_ms, timeout_ms) == Some(
            Err::<(), ReadinessError>(ReadinessError::Abandoned),
        ),
{
}

/// A wait ends in success exactly when the producer has signaled.
pub proof fn lemma_success_needs_signal(
    producer: ProducerStatus,
    elapsed_ms: u64,
    timeout_ms: u64,
)
    ensures
        settled(producer, elapsed_ms, timeout_ms) == Some(Ok::<(), ReadinessError>(()))
            <==> producer == ProducerStatus::Signaled,
{
}

/// The states that end a wait are final: however late the consumer looks
/// again, a settled gate stays as it is.
pub proof fn lemma_settled_gate_is_final(gate: ReadinessGate, elapsed_ms: u64, timeout_ms: u64)
    requires
        gate.state_spec() != ReadinessState::Pending,
    ensures
        gate.after_wait(elapsed_ms, timeout_ms) == gate,
{
}

/// A look at a gate leaves it pending only if the producer is still at
/// work and the deadline has not passed.
pub proof fn lemma_pending_means_waiting(gate: ReadinessGate, elapsed_ms: u64, timeout_ms: u64)
    ensures
        gate.after_wait(elapsed_ms, timeout_ms).state_spec() == ReadinessState::Pending <==> {
            &&& gate.state_spec() == ReadinessState::Pending
            &&& gate.producer == ProducerStatus::Running
            &&& elapsed_ms < timeout_ms
        },
{
}

} // verus!
