//! What a group of cooperating tasks decides without waiting.
//!
//! Spawning, joining and the shutdown signal belong to the program that
//! hosts the tasks; what is here is what it computes in between.

use vstd::prelude::*;

verus! {

/// A deadline passed before the awaited thing happened.
#[derive(Clone, Copy, Debug, PartialEq, Eq, Structural)]
pub struct Elapsed;

impl Elapsed {
    /// What the error says.
    pub fn message(&self) -> (text: &'static str)
        ensures
            text@ == "deadline has elapsed"@,
    {
        "deadline has elapsed"
    }
}

/// `MaybeSend` is `Send` wherever tasks may move between threads.
pub trait MaybeSend: Send {

}

impl<T: Send> MaybeSend for T {

}

/// `MaybeSync` is `Sync` wherever tasks may share between threads.
pub trait MaybeSync: Sync {

}

impl<T: Sync> MaybeSync for T {

}

/// Runs `f` in place and hands back what it returns.
pub fn block_in_place<F, R>(f: F) -> (r: R) where F: FnOnce() -> R
    requires
        call_requires(f, ()),
    ensures
        call_ensures(f, (), r),
{
    f()
}

/// How long the join of a task waits when the time to join is over, in
/// milliseconds.
pub const JOIN_GRACE_MS: u64 = 10;

/// How long to wait for the next task of a group, in milliseconds: until
/// the deadline, or [`JOIN_GRACE_MS`] once the deadline has passed; `None`
/// without a deadline.
pub fn join_timeout(deadline_ms: Option<u64>, now_ms: u64) -> (timeout_ms: Option<u64>)
    ensures
        timeout_ms == match deadline_ms {
            None => None::<u64>,
            Some(deadline) => Some(
                if now_ms <= deadline {
                    (deadline - now_ms) as u64
                } else {
                    JOIN_GRACE_MS
                },
            ),
        },
{
    match deadline_ms {
        None => None,
        Some(deadline) => {
            if now_ms <= deadline {
                Some(deadline - now_ms)
            } else {
                Some(JOIN_GRACE_MS)
            }
        },
    }
}

/// How the wait for one task ended.
#[derive(Clone, Copy, Debug, PartialEq, Eq, Structural)]
pub enum JoinOutcome {
    /// The task finished.
    Finished,
    /// The task panicked.
    Panicked,
    /// The task was still running when the wait ended.
    TimedOut,
}

/// The number of tasks among `outcomes` that panicked.
pub open spec fn panicked_count(outcomes: Seq<JoinOutcome>) -> nat
    decreases outcomes.len(),
{
    if outcomes.len() == 0 {
        0
    } else {
        panicked_count(outcomes.drop_last()) + if outcomes.last() == JoinOutcome::Panicked {
            1nat
        } else {
            0nat
        }
    }
}

/// Whether a group of tasks finished cleanly: it did unless a task
/// panicked, and then the error is the number of tasks that did. A task
/// that was still running when its wait ended does not count.
pub fn join_result(outcomes: &Vec<JoinOutcome>) -> (r: Result<(), usize>)
    ensures
        r is Ok <==> panicked_count(outcomes@) == 0,
        r matches Err(count) ==> count == panicked_count(outcomes@),
{
    let mut count: usize = 0;
    let mut i: usize = 0;
    while i < outcomes.len()
        invariant
            0 <= i <= outcomes.len(),
            count == panicked_count(outcomes@.take(i as int)),
            count <= i,
        decreases outcomes.len() - i,
    {
        proof {
            assert(outcomes@.take(i + 1).drop_last() =~= outcomes@.take(i as int));
        }
        match outcomes[i] {
            JoinOutcome::Panicked => {
                count = count + 1;
            },
            _ => {},
        }
        i = i + 1;
    }
    proof {
        assert(outcomes@.take(i as int) =~= outcomes@);
    }
    if count == 0 {
        Ok(())
    } else {
        Err(count)
    }
}

/// What a group of tasks knows about its shutdown: whether it was asked
/// for, and what is to run when it is. `F` is what runs.
pub struct ShutdownState<F> {
    is_shutting_down: bool,
    on_shutdown: Vec<F>,
}

/// A [`ShutdownState`] as a mathematical value.
pub struct ShutdownModel<F> {
    /// Was the shutdown requested, either externally or due to any task
    /// failure?
    pub is_shutting_down: bool,
    /// What waits to run on shutdown, in the order registered.
    pub handlers: Seq<F>,
}

impl<F> View for ShutdownState<F> {
    type V = ShutdownModel<F>;

    closed spec fn view(&self) -> ShutdownModel<F> {
        ShutdownModel { is_shutting_down: self.is_shutting_down, handlers: self.on_shutdown@ }
    }
}

/// The order in which the handlers of a shutdown run: the one registered
/// last runs first.
pub open spec fn shutdown_order<F>(handlers: Seq<F>) -> Seq<F>
    decreases handlers.len(),
{
    if handlers.len() == 0 {
        Seq::empty()
    } else {
        seq![handlers.last()] + shutdown_order(handlers.drop_last())
    }
}

/// Handlers run in the reverse of the order in which they were registered,
/// each once.
pub proof fn lemma_shutdown_order_is_reverse<F>(handlers: Seq<F>)
    ensures
        shutdown_order(handlers) == handlers.reverse(),
    decreases handlers.len(),
{
    if handlers.len() > 0 {
        lemma_shutdown_order_is_reverse(handlers.drop_last());
        assert(handlers.reverse() =~= seq![handlers.last()] + handlers.drop_last().reverse());
    } else {
        assert(handlers.reverse() =~= Seq::<F>::empty());
    }
}

impl<F> ShutdownState<F> {
    /// A group that was not asked to shut down, with nothing to run when it
    /// is.
    pub fn new() -> (state: ShutdownState<F>)
        ensures
            state@ == (ShutdownModel { is_shutting_down: false, handlers: Seq::<F>::empty() }),
    {
        ShutdownState { is_shutting_down: false, on_shutdown: Vec::new() }
    }

    /// Is the group shutting down?
    pub fn is_shutting_down(&self) -> (r: bool)
        ensures
            r == self@.is_shutting_down,
    {
        self.is_shutting_down
    }

    /// Notes that the shutdown was asked for. The handlers are taken
    /// afterwards, one by one, with `next_handler`.
    pub fn shutdown(&mut self)
        ensures
            final(self)@ == (ShutdownModel { is_shutting_down: true, ..old(self)@ }),
    {
        self.is_shutting_down = true;
    }

    /// Takes the handler to run next: the one registered last. `None` when
    /// none is left.
    pub fn next_handler(&mut self) -> (handler: Option<F>)
        ensures
            handler == if old(self)@.handlers.len() > 0 {
                Some(old(self)@.handlers.last())
            } else {
                None::<F>
            },
            final(self)@ == (ShutdownModel {
                handlers: if old(self)@.handlers.len() > 0 {
                    old(self)@.handlers.drop_last()
                } else {
                    old(self)@.handlers
                },
                ..old(self)@
            }),
    {
        self.on_shutdown.pop()
    }

    /// Registers `f` to run on shutdown. If the group is already shutting
    /// down, `f` is handed back, to be run at once.
    pub fn on_shutdown(&mut self, f: F) -> (run_now: Option<F>)
        ensures
            run_now == if old(self)@.is_shutting_down {
                Some(f)
            } else {
                None::<F>
            },
            final(self)@ == (ShutdownModel {
                handlers: if old(self)@.is_shutting_down {
                    old(self)@.handlers
                } else {
                    old(self)@.handlers.push(f)
                },
                ..old(self)@
            }),
    {
        if self.is_shutting_down {
            Some(f)
        } else {
            self.on_shutdown.push(f);
            None
        }
    }

    /// Notes that a task of the group has ended. A task that ended without
    /// completing takes the group down with it.
    pub fn task_ended(&mut self, completed: bool)
        ensures
            final(self)@ == (ShutdownModel {
                is_shutting_down: old(self)@.is_shutting_down || !completed,
                ..old(self)@
            }),
    {
        if !completed {
            self.is_shutting_down = true;
        }
    }
}

} // verus!
