//! Pacing of reconnection attempts.
//!
//! A [`FibonacciBackoff`] hands out the delays to wait between consecutive
//! attempts to reach a peer. The delays start at a floor, grow like the
//! Fibonacci numbers, never shrink, stop growing at a cap and never run out.

use vstd::prelude::*;

verus! {

/// Shortest delay between two reconnection attempts, in milliseconds.
pub const NETWORKING_BACKOFF_MIN_MS: u64 = 250;

/// Longest delay between two reconnection attempts, in milliseconds.
pub const NETWORKING_BACKOFF_MAX_MS: u64 = 10_000;

/// The Fibonacci numbers 0, 1, 1, 2, 3, 5, ...
pub open spec fn fib(n: nat) -> nat
    decreases n,
{
    if n == 0 {
        0
    } else if n == 1 {
        1
    } else {
        fib((n - 1) as nat) + fib((n - 2) as nat)
    }
}

/// The smaller of two numbers.
pub open spec fn min_nat(a: nat, b: nat) -> nat {
    if a <= b {
        a
    } else {
        b
    }
}

/// What a backoff generator is, mathematically: its two limits and the last
/// two delays it handed out.
pub struct BackoffModel {
    /// The first delay (milliseconds).
    pub floor: nat,
    /// No delay exceeds this (milliseconds).
    pub cap: nat,
    /// The delay handed out before the last one, once two were handed out.
    pub previous: Option<nat>,
    /// The delay handed out last, once one was handed out.
    pub current: Option<nat>,
}

impl BackoffModel {
    /// A generator that has not handed out any delay yet.
    pub open spec fn fresh(floor: nat, cap: nat) -> BackoffModel {
        BackoffModel { floor, cap, previous: None, current: None }
    }

    /// The states that a generator can be in.
    pub open spec fn wf(self) -> bool {
        &&& self.floor <= self.cap
        &&& match self.current {
            None => self.previous is None,
            Some(c) => {
                &&& self.floor <= c <= self.cap
                &&& match self.previous {
                    None => true,
                    Some(p) => p <= c,
                }
            },
        }
    }

    /// The delay that the next request hands out.
    pub open spec fn delay(self) -> nat {
        match self.current {
            None => self.floor,
            Some(c) => match self.previous {
                None => c,
                Some(p) => min_nat(self.cap, c + p),
            },
        }
    }

    /// The generator after the next request.
    pub open spec fn advance(self) -> BackoffModel {
        BackoffModel {
            floor: self.floor,
            cap: self.cap,
            previous: match self.current {
                None => None,
                Some(c) => Some(c),
            },
            current: Some(self.delay()),
        }
    }

    /// The generator after `n` requests.
    pub open spec fn after(self, n: nat) -> BackoffModel
        decreases n,
    {
        if n == 0 {
            self
        } else {
            self.after((n - 1) as nat).advance()
        }
    }

    /// The delay that request number `n` hands out, counting from 0.
    pub open spec fn nth_delay(self, n: nat) -> nat {
        self.after(n).delay()
    }

    /// The delay handed out last, if any was.
    pub open spec fn last_delay(self) -> Option<nat> {
        self.current
    }
}

/// A never-ending source of retry delays in milliseconds.
#[derive(Debug, PartialEq, Eq)]
pub struct FibonacciBackoff {
    min_delay_ms: u64,
    max_delay_ms: u64,
    previous_ms: Option<u64>,
    current_ms: Option<u64>,
}

/// An optional delay as a mathematical number.
pub open spec fn delay_view(d: Option<u64>) -> Option<nat> {
    match d {
        None => None,
        Some(v) => Some(v as nat),
    }
}

impl View for FibonacciBackoff {
    type V = BackoffModel;

    closed spec fn view(&self) -> BackoffModel {
        BackoffModel {
            floor: self.min_delay_ms as nat,
            cap: self.max_delay_ms as nat,
            previous: delay_view(self.previous_ms),
            current: delay_view(self.current_ms),
        }
    }
}

impl FibonacciBackoff {
    /// Every generator that exists is in one of the states of its model.
    #[verifier::type_invariant]
    pub open spec fn inv(self) -> bool {
        self@.wf()
    }

    /// A generator with the given limits, or `None` where the floor lies
    /// above the cap.
    pub fn new(min_delay_ms: u64, max_delay_ms: u64) -> (r: Option<FibonacciBackoff>)
        ensures
            r is Some <==> min_delay_ms <= max_delay_ms,
            r matches Some(b) ==> b@ == BackoffModel::fresh(
                min_delay_ms as nat,
                max_delay_ms as nat,
            ),
    {
        if min_delay_ms <= max_delay_ms {
            Some(FibonacciBackoff { min_delay_ms, max_delay_ms, previous_ms: None, current_ms: None })
        } else {
            None
        }
    }

    /// The first delay of a fresh generator.
    pub fn min_delay_ms(&self) -> (r: u64)
        ensures
            r == self@.floor,
    {
        self.min_delay_ms
    }

    /// The limit that no delay exceeds.
    pub fn max_delay_ms(&self) -> (r: u64)
        ensures
            r == self@.cap,
    {
        self.max_delay_ms
    }

    /// The delay that was handed out last, if any was.
    pub fn last_delay_ms(&self) -> (r: Option<u64>)
        ensures
            delay_view(r) == self@.last_delay(),
    {
        self.current_ms
    }

    /// The delay that the next request hands out, as a machine number.
    pub closed spec fn spec_delay(self) -> u64 {
        match self.current_ms {
            None => self.min_delay_ms,
            Some(current) => match self.previous_ms {
                None => current,
                Some(previous) => {
                    if previous >= self.max_delay_ms - current {
                        self.max_delay_ms
                    } else {
                        (current + previous) as u64
                    }
                },
            },
        }
    }

    /// The generator after the next request.
    pub closed spec fn spec_advance(self) -> FibonacciBackoff {
        FibonacciBackoff {
            min_delay_ms: self.min_delay_ms,
            max_delay_ms: self.max_delay_ms,
            previous_ms: self.current_ms,
            current_ms: Some(self.spec_delay()),
        }
    }

    /// What `spec_delay` and `spec_advance` are in the model.
    pub proof fn lemma_spec_next(self)
        requires
            self@.wf(),
        ensures
            self.spec_delay() == self@.delay(),
            self.spec_advance()@ == self@.advance(),
            self.spec_advance()@.wf(),
    {
    }

    /// Hands out the next delay in milliseconds. There always is one.
    pub fn next(&mut self) -> (delay_ms: u64)
        ensures
            delay_ms == old(self).spec_delay(),
            *final(self) == old(self).spec_advance(),
            delay_ms == old(self)@.delay(),
            final(self)@ == old(self)@.advance(),
            old(self)@.wf(),
            final(self)@.wf(),
    {
        proof {
            use_type_invariant(&*self);
        }
        let delay_ms: u64 = match self.current_ms {
            None => self.min_delay_ms,
            Some(current) => match self.previous_ms {
                None => current,
                Some(previous) => {
                    if previous >= self.max_delay_ms - current {
                        self.max_delay_ms
                    } else {
                        current + previous
                    }
                },
            },
        };
        *self = FibonacciBackoff {
            min_delay_ms: self.min_delay_ms,
            max_delay_ms: self.max_delay_ms,
            previous_ms: self.current_ms,
            current_ms: Some(delay_ms),
        };
        delay_ms
    }
}

/// The value that [`api_networking_backoff`] returns.
pub closed spec fn spec_api_networking_backoff() -> FibonacciBackoff {
    FibonacciBackoff {
        min_delay_ms: NETWORKING_BACKOFF_MIN_MS,
        max_delay_ms: NETWORKING_BACKOFF_MAX_MS,
        previous_ms: None,
        current_ms: None,
    }
}

/// The generator for reconnection attempts is fresh, with a floor of 250 ms
/// and a cap of 10 s.
pub proof fn lemma_api_networking_backoff_is_fresh()
    ensures
        spec_api_networking_backoff()@ == BackoffModel::fresh(
            NETWORKING_BACKOFF_MIN_MS as nat,
            NETWORKING_BACKOFF_MAX_MS as nat,
        ),
        spec_api_networking_backoff()@.wf(),
        spec_api_networking_backoff().spec_delay() == NETWORKING_BACKOFF_MIN_MS,
{
}

/// The generator that paces reconnection attempts between federation members:
/// 250 ms at first, 10 s at most.
pub fn api_networking_backoff() -> (b: FibonacciBackoff)
    ensures
        b == spec_api_networking_backoff(),
        b@ == BackoffModel::fresh(
            NETWORKING_BACKOFF_MIN_MS as nat,
            NETWORKING_BACKOFF_MAX_MS as nat,
        ),
{
    FibonacciBackoff {
        min_delay_ms: NETWORKING_BACKOFF_MIN_MS,
        max_delay_ms: NETWORKING_BACKOFF_MAX_MS,
        previous_ms: None,
        current_ms: None,
    }
}

/// A request leaves a well-formed generator well-formed, and hands out at
/// least what the request before it handed out.
pub proof fn lemma_advance_keeps_wf(b: BackoffModel)
    requires
        b.wf(),
    ensures
        b.advance().wf(),
        b.floor <= b.delay() <= b.cap,
        b.last_delay() matches Some(last) ==> last <= b.delay(),
        b.advance().last_delay() == Some(b.delay()),
        b.advance().floor == b.floor,
        b.advance().cap == b.cap,
{
}

/// Any number of requests leaves a well-formed generator well-formed and
/// its limits unchanged.
pub proof fn lemma_after_keeps_wf(b: BackoffModel, n: nat)
    requires
        b.wf(),
    ensures
        b.after(n).wf(),
        b.after(n).floor == b.floor,
        b.after(n).cap == b.cap,
    decreases n,
{
    if n > 0 {
        lemma_after_keeps_wf(b, (n - 1) as nat);
        lemma_advance_keeps_wf(b.after((n - 1) as nat));
    }
}

/// Every delay lies between the floor and the cap.
pub proof fn lemma_delays_within_limits(b: BackoffModel, n: nat)
    requires
        b.wf(),
    ensures
        b.floor <= b.nth_delay(n) <= b.cap,
{
    lemma_after_keeps_wf(b, n);
    lemma_advance_keeps_wf(b.after(n));
}

/// Delays handed out one after the other never shrink: a later request
/// hands out at least as much as an earlier one.
pub proof fn lemma_delays_non_decreasing(b: BackoffModel, i: nat, j: nat)
    requires
        b.wf(),
        i <= j,
    ensures
        b.nth_delay(i) <= b.nth_delay(j),
    decreases j - i,
{
    if i < j {
        lemma_delays_non_decreasing(b, i, (j - 1) as nat);
        lemma_after_keeps_wf(b, (j - 1) as nat);
        lemma_advance_keeps_wf(b.after((j - 1) as nat));
    }
}

/// The first delay of a generator that has handed out none is its floor.
pub proof fn lemma_first_delay_is_floor(floor: nat, cap: nat)
    ensures
        BackoffModel::fresh(floor, cap).nth_delay(0) == floor,
        BackoffModel::fresh(floor, cap).delay() == floor,
{
}

/// The Fibonacci numbers never shrink from 1 on.
pub proof fn lemma_fib_monotonic(n: nat)
    ensures
        fib(n) <= fib(n + 1),
        n >= 1 ==> fib(n) >= 1,
    decreases n,
{
    if n >= 2 {
        lemma_fib_monotonic((n - 1) as nat);
        lemma_fib_monotonic((n - 2) as nat);
    }
}

/// The delays of a fresh generator are the floor times the Fibonacci
/// numbers 1, 1, 2, 3, 5, ..., cut off at the cap.
pub proof fn lemma_fresh_delays_are_fibonacci(floor: nat, cap: nat, n: nat)
    requires
        floor <= cap,
    ensures
        BackoffModel::fresh(floor, cap).nth_delay(n) == min_nat(cap, floor * fib(n + 1)),
    decreases n,
{
    let b = BackoffModel::fresh(floor, cap);
    if n == 0 {
        assert(fib(1) == 1);
        assert(floor * 1 == floor);
    } else if n == 1 {
        assert(b.after(1) == b.after(0).advance());
        assert(fib(2) == 1) by {
            assert(fib(2) == fib(1) + fib(0));
        }
        assert(floor * 1 == floor);
    } else {
        let m2 = (n - 2) as nat;
        let m1 = (n - 1) as nat;
        lemma_fresh_delays_are_fibonacci(floor, cap, m2);
        lemma_fresh_delays_are_fibonacci(floor, cap, m1);
        lemma_after_keeps_wf(b, m2);
        lemma_after_keeps_wf(b, m1);
        let s2 = b.after(m2);
        let s1 = b.after(m1);
        let s0 = b.after(n);
        assert(s1 == s2.advance());
        assert(s0 == s1.advance());
        // the two delays handed out last
        let d2 = s2.delay();
        let d1 = s1.delay();
        assert(s1.current == Some(d2));
        assert(s0.current == Some(d1));
        assert(s0.previous == Some(d2));
        assert(s0.delay() == min_nat(cap, d1 + d2));
        let f2 = floor * fib(m2 + 1);
        let f1 = floor * fib(m1 + 1);
        assert(d2 == min_nat(cap, f2));
        assert(d1 == min_nat(cap, f1));
        assert(fib(n + 1) == fib(m1 + 1) + fib(m2 + 1));
        assert(floor * fib(n + 1) == f1 + f2) by (nonlinear_arith)
            requires
                fib(n + 1) == fib(m1 + 1) + fib(m2 + 1),
                f2 == floor * fib(m2 + 1),
                f1 == floor * fib(m1 + 1),
        ;
        lemma_fib_monotonic(m2 + 1);
        assert(f2 <= f1) by (nonlinear_arith)
            requires
                fib(m2 + 1) <= fib(m1 + 1),
                m1 == m2 + 1,
                f2 == floor * fib(m2 + 1),
                f1 == floor * fib(m1 + 1),
        ;
    }
}

} // verus!
