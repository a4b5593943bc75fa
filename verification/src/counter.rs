//! The event counter: one accumulator shared by every edge source, read and
//! cleared in a single indivisible step when a count query is served.
//!
//! `increment` and `read_and_reset` are the only operations; there is no raw
//! read or write, so the read-and-reset atomicity cannot be broken by a
//! caller. Because both operations are indivisible with respect to each
//! other, every interleaving of concurrent calls is equivalent to some total
//! order of them, i.e. to a sequence of [`CounterOp`] values; the laws below
//! are stated over such sequences.

use vstd::prelude::*;

verus! {

/// One operation on the event counter, as it appears in a serialized history
/// of concurrent calls.
#[derive(Clone, Copy, Debug, PartialEq, Eq, Structural)]
pub enum CounterOp {
    /// One edge notification: `increment()`.
    Increment,
    /// One serviced count query: `read_and_reset()`.
    ReadAndReset,
}

/// Successor with the wrap-around that the fixed-width accumulator has.
pub open spec fn wrapping_succ(v: u64) -> u64 {
    if v == u64::MAX {
        0
    } else {
        (v + 1) as u64
    }
}

/// The accumulated number of qualifying edges since the last read-and-reset.
///
/// Created at zero; incremented once per edge notification for the lifetime
/// of the device; cleared exactly once per serviced count query.
pub struct EventCounter {
    value: u64,
}

impl EventCounter {
    /// The current accumulator value.
    pub closed spec fn count(self) -> u64 {
        self.value
    }

    /// A fresh counter holds zero.
    pub fn new() -> (r: Self)
        ensures
            r.count() == 0,
    {
        EventCounter { value: 0 }
    }

    /// Record one qualifying edge. Total: never fails, never blocks, and at
    /// the accumulator's width wraps around as the hardware register would.
    pub fn increment(&mut self)
        ensures
            final(self).count() == wrapping_succ(old(self).count()),
    {
        self.value = if self.value == u64::MAX {
            0
        } else {
            self.value + 1
        };
    }

    /// Capture the current value and clear it, as one indivisible step with
    /// respect to `increment`.
    pub fn read_and_reset(&mut self) -> (r: u64)
        ensures
            r == old(self).count(),
            final(self).count() == 0,
    {
        let v = self.value;
        self.value = 0;
        v
    }
}

/// The accumulator value after running `ops` in order from value `v`.
pub open spec fn run_value(v: u64, ops: Seq<CounterOp>) -> u64
    decreases ops.len(),
{
    if ops.len() == 0 {
        v
    } else {
        match ops[0] {
            CounterOp::Increment => run_value(wrapping_succ(v), ops.drop_first()),
            CounterOp::ReadAndReset => run_value(0, ops.drop_first()),
        }
    }
}

/// The values returned by the read-and-reset operations in `ops`, in order,
/// when run from value `v`.
pub open spec fn run_returns(v: u64, ops: Seq<CounterOp>) -> Seq<u64>
    decreases ops.len(),
{
    if ops.len() == 0 {
        Seq::empty()
    } else {
        match ops[0] {
            CounterOp::Increment => run_returns(wrapping_succ(v), ops.drop_first()),
            CounterOp::ReadAndReset => seq![v] + run_returns(0, ops.drop_first()),
        }
    }
}

/// How many increments `ops` holds.
pub open spec fn num_increments(ops: Seq<CounterOp>) -> nat
    decreases ops.len(),
{
    if ops.len() == 0 {
        0
    } else {
        (if ops[0] is Increment {
            1nat
        } else {
            0nat
        }) + num_increments(ops.drop_first())
    }
}

/// The sum of a sequence of counter readings.
pub open spec fn sum(s: Seq<u64>) -> nat
    decreases s.len(),
{
    if s.len() == 0 {
        0
    } else {
        (s[0] + sum(s.drop_first())) as nat
    }
}

/// Accounting invariant behind the atomicity law: running any history from
/// value `v`, everything handed out by read-and-resets plus what remains in
/// the accumulator equals `v` plus the number of increments, as long as the
/// accumulator never overflows.
pub proof fn lemma_run_accounting(v: u64, ops: Seq<CounterOp>)
    requires
        v + num_increments(ops) <= u64::MAX,
    ensures
        sum(run_returns(v, ops)) + run_value(v, ops) == v + num_increments(ops),
    decreases ops.len(),
{
    if ops.len() > 0 {
        let rest = ops.drop_first();
        match ops[0] {
            CounterOp::Increment => {
                lemma_run_accounting(wrapping_succ(v), rest);
            },
            CounterOp::ReadAndReset => {
                lemma_run_accounting(0, rest);
                let handed = seq![v] + run_returns(0, rest);
                assert(handed.drop_first() =~= run_returns(0, rest));
            },
        }
    }
}

/// Counter atomicity: for every interleaving of increments and
/// read-and-resets — in particular, of `N` concurrent increments and one
/// read-and-reset — the sum of the values returned plus the value left in
/// the counter equals the number of increments: no increment is lost and
/// none is counted in two windows.
pub proof fn lemma_counter_atomicity(ops: Seq<CounterOp>)
    requires
        num_increments(ops) <= u64::MAX,
    ensures
        sum(run_returns(0, ops)) + run_value(0, ops) == num_increments(ops),
{
    lemma_run_accounting(0, ops);
}

/// Idempotence of an empty window: two read-and-resets with no intervening
/// increment return the current value and then zero.
pub proof fn lemma_empty_window(v: u64)
    ensures
        run_returns(v, seq![CounterOp::ReadAndReset, CounterOp::ReadAndReset]) == seq![v, 0u64],
        run_value(v, seq![CounterOp::ReadAndReset, CounterOp::ReadAndReset]) == 0,
{
    let ops = seq![CounterOp::ReadAndReset, CounterOp::ReadAndReset];
    let tail = ops.drop_first();
    assert(tail.len() == 1 && tail[0] == CounterOp::ReadAndReset);
    assert(tail.drop_first() =~= Seq::<CounterOp>::empty());
    assert(run_returns(0, tail.drop_first()) =~= Seq::<u64>::empty());
    assert(run_returns(0, tail) =~= seq![0u64] + Seq::<u64>::empty());
    assert(run_returns(0, tail) =~= seq![0u64]);
    assert(run_returns(v, ops) =~= seq![v] + seq![0u64]);
    assert(seq![v] + seq![0u64] =~= seq![v, 0u64]);
    assert(run_value(v, ops) == run_value(0, tail));
    assert(run_value(0, tail) == run_value(0, tail.drop_first()));
    assert(run_value(0, tail.drop_first()) == 0);
}

} // verus!
