//! Edge detection over a polled line: the logic of the monitors that watch
//! an input line by repeatedly sampling its level and report one edge per
//! high-to-low transition.
//!
//! The surrounding collaborator samples the pin and calls
//! [`Monitor::sample`] with the level; a `true` result is one qualifying
//! edge, to be counted. A low level is reported once, however long the
//! line stays low.

use vstd::prelude::*;

verus! {

/// Latch state of one monitored line.
pub struct Monitor {
    handled: bool,
}

impl Monitor {
    /// Whether the current low period, if any, has already been reported.
    pub closed spec fn handled(self) -> bool {
        self.handled
    }

    /// A monitor for a line whose level at construction is `initial_high`.
    /// A line that is already low counts as low to report: its first low
    /// sample is an edge.
    pub fn from_level(initial_high: bool) -> (r: Self)
        ensures
            r.handled() == initial_high,
    {
        Monitor { handled: initial_high }
    }

    /// Feed one sampled level; the result says whether this sample is a
    /// newly observed high-to-low edge.
    pub fn sample(&mut self, high: bool) -> (edge: bool)
        ensures
            edge == (!high && !old(self).handled()),
            final(self).handled() == !high,
    {
        if high {
            self.handled = false;
            false
        } else if !self.handled {
            self.handled = true;
            true
        } else {
            false
        }
    }
}

/// How many edges a monitor with latch state `handled` reports over the
/// sampled levels, in order.
pub open spec fn spec_detections(handled: bool, levels: Seq<bool>) -> nat
    decreases levels.len(),
{
    if levels.len() == 0 {
        0
    } else {
        (if !levels[0] && !handled {
            1nat
        } else {
            0nat
        }) + spec_detections(!levels[0], levels.drop_first())
    }
}

/// How many high-to-low transitions a sampled level sequence holds.
pub open spec fn spec_falling_edges(levels: Seq<bool>) -> nat
    decreases levels.len(),
{
    if levels.len() < 2 {
        0
    } else {
        (if levels[0] && !levels[1] {
            1nat
        } else {
            0nat
        }) + spec_falling_edges(levels.drop_first())
    }
}

/// A monitor reports exactly the high-to-low transitions of what it
/// samples, the level before its first sample being the one its latch was
/// constructed from.
pub proof fn lemma_monitor_counts_falling_edges(handled: bool, levels: Seq<bool>)
    ensures
        spec_detections(handled, levels) == spec_falling_edges(seq![!handled] + levels),
    decreases levels.len(),
{
    let ext = seq![!handled] + levels;
    if levels.len() == 0 {
        assert(ext.len() == 1);
    } else {
        lemma_monitor_counts_falling_edges(!levels[0], levels.drop_first());
        assert(seq![!(!levels[0])] + levels.drop_first() =~= levels);
        assert(ext.drop_first() =~= levels);
        assert(ext[0] == !handled && ext[1] == levels[0]);
    }
}

} // verus!
