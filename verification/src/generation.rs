//! The loop that has the database generate log rows, cycle after cycle.
//!
//! A [`GenerationLoop`] is the state of the loop between two signals. Its
//! driver calls [`GenerationLoop::advance`] with each signal as it comes: a
//! wake-up when it is time for a cycle, the database's answer to the step in
//! flight, or the request to stop. It performs the action it gets back.

use vstd::prelude::*;

use crate::greeting_pg_trace::PgTraceContext;
use crate::statement::Statement;
use crate::transaction::{Operation, Reply, Step, UnitOfWork};
use crate::Failure;

verus! {

/// What reaches the loop from outside.
#[derive(Debug, Clone, PartialEq)]
pub enum Signal {
    /// It is time for a cycle, to run under this trace context.
    Wake(PgTraceContext),
    /// The database's answer to the step in flight.
    Answer(Reply),
    /// The loop is to end.
    Cancel,
}

/// What the driver of the loop is to do next.
#[derive(Debug, Clone, PartialEq)]
pub enum Action {
    /// Open the cycle's transaction and report the outcome.
    Begin,
    /// Execute the statement in the cycle's transaction and report the outcome.
    Execute(Statement),
    /// Commit the cycle's transaction and report the outcome.
    Commit,
    /// The cycle has failed: discard its transaction, make the failure
    /// known, and rest until the next wake-up.
    Report(Failure),
    /// Nothing is in flight: rest until the next wake-up.
    Rest,
    /// A step is in flight: go on waiting for its outcome.
    Await,
    /// The loop has ended.
    Stop,
}

/// The state of the loop between two signals.
#[derive(Debug, Clone, PartialEq)]
pub enum GenerationLoop {
    /// Between two cycles, outside any transaction.
    Idle,
    /// In a cycle. `cancelled` records a request to stop that came while the
    /// cycle was running; it is honoured when the cycle is over.
    InTransaction { unit: UnitOfWork, cancelled: bool },
    /// Ended.
    Stopped,
}

/// Where the loop stands when a cycle is over.
pub open spec fn between_cycles(cancelled: bool) -> GenerationLoop {
    if cancelled {
        GenerationLoop::Stopped
    } else {
        GenerationLoop::Idle
    }
}

impl GenerationLoop {
    /// A loop that has not run a cycle yet.
    pub fn new() -> (fresh: GenerationLoop)
        ensures
            fresh == GenerationLoop::Idle,
    {
        GenerationLoop::Idle
    }

    /// The state after `signal`, and the action to perform next.
    pub open spec fn next(self, signal: Signal) -> (GenerationLoop, Action) {
        match self {
            GenerationLoop::Idle => match signal {
                Signal::Wake(trace) => (
                    GenerationLoop::InTransaction {
                        unit: UnitOfWork::Beginning { trace, operation: Operation::GenerateLog },
                        cancelled: false,
                    },
                    Action::Begin,
                ),
                Signal::Answer(_) => (GenerationLoop::Idle, Action::Rest),
                Signal::Cancel => (GenerationLoop::Stopped, Action::Stop),
            },
            GenerationLoop::InTransaction { unit, cancelled } => match signal {
                Signal::Wake(_) => (GenerationLoop::InTransaction { unit, cancelled }, Action::Await),
                Signal::Cancel => (
                    GenerationLoop::InTransaction { unit, cancelled: true },
                    Action::Await,
                ),
                Signal::Answer(reply) => match unit.next(reply).1 {
                    Step::Begin => (
                        GenerationLoop::InTransaction { unit: unit.next(reply).0, cancelled },
                        Action::Begin,
                    ),
                    Step::Execute(statement) => (
                        GenerationLoop::InTransaction { unit: unit.next(reply).0, cancelled },
                        Action::Execute(statement),
                    ),
                    Step::Commit => (
                        GenerationLoop::InTransaction { unit: unit.next(reply).0, cancelled },
                        Action::Commit,
                    ),
                    Step::Abandon(failure) => (between_cycles(cancelled), Action::Report(failure)),
                    Step::Finish(_) => (
                        between_cycles(cancelled),
                        if cancelled {
                            Action::Stop
                        } else {
                            Action::Rest
                        },
                    ),
                },
            },
            GenerationLoop::Stopped => (GenerationLoop::Stopped, Action::Stop),
        }
    }

    /// Takes a signal and decides what to do next.
    ///
    /// A wake-up between two cycles starts a cycle: one transaction, in which
    /// the trace context is applied and the procedure is called once. A
    /// cycle that fails is reported and leaves the loop ready for the next
    /// wake-up. A request to stop ends the loop at once between two cycles,
    /// and at the end of the cycle when one is running.
    pub fn advance(self, signal: Signal) -> (next: (GenerationLoop, Action))
        ensures
            next == self.next(signal),
    {
        match self {
            GenerationLoop::Idle => match signal {
                Signal::Wake(trace) => {
                    let (unit, _) = crate::generate_logg(trace).advance(Reply::Ready);
                    (GenerationLoop::InTransaction { unit, cancelled: false }, Action::Begin)
                },
                Signal::Answer(_) => (GenerationLoop::Idle, Action::Rest),
                Signal::Cancel => (GenerationLoop::Stopped, Action::Stop),
            },
            GenerationLoop::InTransaction { unit, cancelled } => match signal {
                Signal::Wake(_) => (GenerationLoop::InTransaction { unit, cancelled }, Action::Await),
                Signal::Cancel => (
                    GenerationLoop::InTransaction { unit, cancelled: true },
                    Action::Await,
                ),
                Signal::Answer(reply) => {
                    let (unit, step) = unit.advance(reply);
                    match step {
                        Step::Begin => (
                            GenerationLoop::InTransaction { unit, cancelled },
                            Action::Begin,
                        ),
                        Step::Execute(statement) => (
                            GenerationLoop::InTransaction { unit, cancelled },
                            Action::Execute(statement),
                        ),
                        Step::Commit => (
                            GenerationLoop::InTransaction { unit, cancelled },
                            Action::Commit,
                        ),
                        Step::Abandon(failure) => if cancelled {
                            (GenerationLoop::Stopped, Action::Report(failure))
                        } else {
                            (GenerationLoop::Idle, Action::Report(failure))
                        },
                        Step::Finish(_) => if cancelled {
                            (GenerationLoop::Stopped, Action::Stop)
                        } else {
                            (GenerationLoop::Idle, Action::Rest)
                        },
                    }
                },
            },
            GenerationLoop::Stopped => (GenerationLoop::Stopped, Action::Stop),
        }
    }

    /// The state after the first `n` of `signals`.
    pub open spec fn state_after(self, signals: Seq<Signal>, n: nat) -> GenerationLoop
        decreases n,
    {
        if n == 0 {
            self
        } else {
            self.state_after(signals, (n - 1) as nat).next(signals[n - 1]).0
        }
    }

    /// The action decided in answer to `signals[i]`.
    pub open spec fn action_at(self, signals: Seq<Signal>, i: nat) -> Action {
        self.state_after(signals, i).next(signals[i as int]).1
    }
}

/// Nothing but a request to stop ends the loop: if the loop has ended after
/// `n` signals, one of them was the request. No failure of a cycle, and no
/// answer of whatever kind, ends it.
pub proof fn law_stops_only_on_request(start: GenerationLoop, signals: Seq<Signal>, n: nat)
    requires
        !(start is Stopped),
        start matches GenerationLoop::InTransaction { cancelled, .. } ==> !cancelled,
        n <= signals.len(),
        start.state_after(signals, n) is Stopped,
    ensures
        exists|j: int| 0 <= j < n && signals[j] is Cancel,
    decreases n,
{
    if n > 0 {
        let before = start.state_after(signals, (n - 1) as nat);
        if before is Stopped {
            law_stops_only_on_request(start, signals, (n - 1) as nat);
        } else if signals[n - 1] is Cancel {
        } else {
            lemma_cancelled_after_request(start, signals, (n - 1) as nat);
        }
    }
}

/// A cycle notes a request to stop only when one was made.
proof fn lemma_cancelled_after_request(start: GenerationLoop, signals: Seq<Signal>, n: nat)
    requires
        !(start is Stopped),
        start matches GenerationLoop::InTransaction { cancelled, .. } ==> !cancelled,
        n <= signals.len(),
        start.state_after(signals, n) matches GenerationLoop::InTransaction { cancelled, .. }
            && cancelled,
    ensures
        exists|j: int| 0 <= j < n && signals[j] is Cancel,
    decreases n,
{
    if n > 0 {
        let before = start.state_after(signals, (n - 1) as nat);
        if signals[n - 1] is Cancel {
        } else {
            lemma_cancelled_after_request(start, signals, (n - 1) as nat);
        }
    }
}

/// A failed cycle does not end the loop. Whatever the state of a running
/// cycle, when the database reports a failure and no request to stop has
/// come, the failure is reported, the loop is between two cycles again, and
/// the next wake-up begins a new cycle.
pub proof fn law_goes_on_after_failure(
    unit: UnitOfWork,
    message: String,
    trace: PgTraceContext,
)
    requires
        !(unit is Finished),
        !(unit is Idle),
    ensures
        (GenerationLoop::InTransaction { unit, cancelled: false }).next(
            Signal::Answer(Reply::Failed(message)),
        ) == (GenerationLoop::Idle, Action::Report(Failure::Database(message))),
        GenerationLoop::Idle.next(Signal::Wake(trace)).1 == Action::Begin,
        GenerationLoop::Idle.next(Signal::Wake(trace)).0 is InTransaction,
{
}

/// A cycle that fails at the procedure and the cycle after it, which goes
/// well: the second runs as if the first had never been, from its own begin
/// to its own commit.
pub proof fn law_cycle_after_failed_cycle(
    first: PgTraceContext,
    second: PgTraceContext,
    message: String,
)
    ensures
        ({
            let signals = seq![
                Signal::Wake(first),
                Signal::Answer(Reply::Done),
                Signal::Answer(Reply::Done),
                Signal::Answer(Reply::Failed(message)),
                Signal::Wake(second),
                Signal::Answer(Reply::Done),
                Signal::Answer(Reply::Done),
                Signal::Answer(Reply::Done),
                Signal::Answer(Reply::Done),
            ];
            let fresh = GenerationLoop::Idle;
            &&& fresh.action_at(signals, 0) == Action::Begin
            &&& fresh.action_at(signals, 1) == Action::Execute(Statement::SetTrace { trace: first })
            &&& fresh.action_at(signals, 2) == Action::Execute(Statement::GenerateLog)
            &&& fresh.action_at(signals, 3) == Action::Report(Failure::Database(message))
            &&& fresh.action_at(signals, 4) == Action::Begin
            &&& fresh.action_at(signals, 5) == Action::Execute(
                Statement::SetTrace { trace: second },
            )
            &&& fresh.action_at(signals, 6) == Action::Execute(Statement::GenerateLog)
            &&& fresh.action_at(signals, 7) == Action::Commit
            &&& fresh.action_at(signals, 8) == Action::Rest
            &&& fresh.state_after(signals, 9) == GenerationLoop::Idle
        }),
{
    reveal_with_fuel(GenerationLoop::state_after, 10);
}

/// A request to stop does not cut a cycle short: it changes nothing in the
/// transaction under way, and the loop ends when the cycle is over.
pub proof fn law_stop_waits_for_cycle(unit: UnitOfWork, cancelled: bool, reply: Reply)
    ensures
        (GenerationLoop::InTransaction { unit, cancelled }).next(Signal::Cancel) == (
            GenerationLoop::InTransaction { unit, cancelled: true },
            Action::Await,
        ),
        unit.next(reply).1 is Finish ==> (GenerationLoop::InTransaction {
            unit,
            cancelled: true,
        }).next(Signal::Answer(reply)) == (GenerationLoop::Stopped, Action::Stop),
        unit.next(reply).1 matches Step::Abandon(failure) ==> (GenerationLoop::InTransaction {
            unit,
            cancelled: true,
        }).next(Signal::Answer(reply)) == (GenerationLoop::Stopped, Action::Report(failure)),
        GenerationLoop::Idle.next(Signal::Cancel) == (GenerationLoop::Stopped, Action::Stop),
{
}

} // verus!
