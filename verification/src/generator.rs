//! The edge generator: drives the output line through a requested number of
//! transitions at a requested period and reports how the generation ended.
//!
//! The generator decides; the surrounding collaborator performs. It drives
//! one output transition per [`EdgeGenerator::edge_emitted`] call, waiting
//! the period between calls, and tells the generator of a hardware fault
//! with [`EdgeGenerator::drive_fault`]. The terminal report is handed to the
//! dispatcher through a single-slot holder ([`EdgeGenerator::take_report`]),
//! so exactly one writer owns the transport.

use vstd::prelude::*;

use crate::actuator::Response;

verus! {

/// The generator's state machine. A command is refused while a generation
/// runs; it is neither queued nor does it cancel the running one.
#[derive(Clone, Copy, Debug, PartialEq, Eq, Structural)]
pub enum GeneratorState {
    /// No generation has run since startup.
    Idle,
    /// `remaining_edges` transitions are still to be driven, one per
    /// `period_picos` picoseconds.
    Running { remaining_edges: u32, period_picos: u64 },
    /// The last generation was aborted by a drive fault.
    Failed,
    /// The last generation drove all its edges.
    Finished,
}

/// The generator as the contracts see it: its state and the not yet
/// collected terminal report, if any.
#[derive(Clone, Copy, Debug, PartialEq, Eq, Structural)]
pub struct GenModel {
    pub state: GeneratorState,
    pub report: Option<Response>,
}

impl GenModel {
    /// A running generation always has at least one edge left to drive.
    pub open spec fn wf(self) -> bool {
        self.state matches GeneratorState::Running { remaining_edges, .. } ==> remaining_edges
            >= 1
    }
}

/// What accepting or refusing a command does: refused while running, else
/// the generation starts (and, asked for zero edges, finishes on the spot).
pub open spec fn spec_start(g: GenModel, rising_edges: u32, period_picos: u64) -> (GenModel,
    Response,
) {
    if g.state is Running {
        (g, Response::FailedGenerating)
    } else if rising_edges == 0 {
        (
            GenModel {
                state: GeneratorState::Finished,
                report: Some(Response::FinishedGenerating),
            },
            Response::StartedGenerating,
        )
    } else {
        (
            GenModel {
                state: GeneratorState::Running { remaining_edges: rising_edges, period_picos },
                report: None,
            },
            Response::StartedGenerating,
        )
    }
}

/// What one successfully driven edge does: the count goes down; the last
/// edge finishes the generation and fills the report slot.
pub open spec fn spec_edge(g: GenModel) -> GenModel
    recommends
        g.state is Running,
{
    match g.state {
        GeneratorState::Running { remaining_edges: n, period_picos: p } => {
            if n <= 1 {
                GenModel {
                    state: GeneratorState::Finished,
                    report: Some(Response::FinishedGenerating),
                }
            } else {
                GenModel {
                    state: GeneratorState::Running {
                        remaining_edges: (n - 1) as u32,
                        period_picos: p,
                    },
                    report: g.report,
                }
            }
        },
        _ => g,
    }
}

/// What a drive fault does: the generation stops and the report slot holds
/// the failure.
pub open spec fn spec_fault(g: GenModel) -> GenModel
    recommends
        g.state is Running,
{
    GenModel { state: GeneratorState::Failed, report: Some(Response::FailedGenerating) }
}

/// `k` successfully driven edges in a row.
pub open spec fn spec_run_edges(g: GenModel, k: nat) -> GenModel
    decreases k,
{
    if k == 0 {
        g
    } else {
        spec_run_edges(spec_edge(g), (k - 1) as nat)
    }
}

/// The edge generator. Owned by the device core; the scheduling harness
/// reaches it only through the device's methods.
pub struct EdgeGenerator {
    state: GeneratorState,
    report: Option<Response>,
}

impl View for EdgeGenerator {
    type V = GenModel;

    closed spec fn view(&self) -> GenModel {
        GenModel { state: self.state, report: self.report }
    }
}

impl EdgeGenerator {
    /// A fresh generator is idle with nothing to report.
    pub fn new() -> (r: Self)
        ensures
            r@ == (GenModel { state: GeneratorState::Idle, report: None }),
            r@.wf(),
    {
        EdgeGenerator { state: GeneratorState::Idle, report: None }
    }

    /// The current state, for the harness that schedules edge driving.
    pub fn status(&self) -> (s: GeneratorState)
        ensures
            s == self@.state,
    {
        self.state
    }

    /// Whether a generation is in progress.
    pub fn is_running(&self) -> (r: bool)
        ensures
            r == (self@.state is Running),
    {
        match self.state {
            GeneratorState::Running { .. } => true,
            _ => false,
        }
    }

    /// Accept or refuse a generation command. Returns the immediate status
    /// report for the requester: refused with `FailedGenerating` while a
    /// generation is already running (which keeps running untouched),
    /// otherwise accepted with `StartedGenerating`.
    pub fn start(&mut self, rising_edges: u32, period_picos: u64) -> (r: Response)
        requires
            old(self)@.wf(),
        ensures
            (final(self)@, r) == spec_start(old(self)@, rising_edges, period_picos),
            final(self)@.wf(),
    {
        match self.state {
            GeneratorState::Running { .. } => Response::FailedGenerating,
            _ => {
                if rising_edges == 0 {
                    self.state = GeneratorState::Finished;
                    self.report = Some(Response::FinishedGenerating);
                } else {
                    self.state = GeneratorState::Running {
                        remaining_edges: rising_edges,
                        period_picos,
                    };
                    self.report = None;
                }
                Response::StartedGenerating
            },
        }
    }

    /// Record one successfully driven output transition.
    pub fn edge_emitted(&mut self)
        requires
            old(self)@.state is Running,
            old(self)@.wf(),
        ensures
            final(self)@ == spec_edge(old(self)@),
            final(self)@.wf(),
    {
        match self.state {
            GeneratorState::Running { remaining_edges, period_picos } => {
                if remaining_edges <= 1 {
                    self.state = GeneratorState::Finished;
                    self.report = Some(Response::FinishedGenerating);
                } else {
                    self.state = GeneratorState::Running {
                        remaining_edges: remaining_edges - 1,
                        period_picos,
                    };
                }
            },
            _ => {
            },
        }
    }

    /// Record that the hardware could not drive the output: the generation
    /// stops and its terminal report becomes the failure.
    pub fn drive_fault(&mut self)
        requires
            old(self)@.state is Running,
        ensures
            final(self)@ == spec_fault(old(self)@),
            final(self)@.wf(),
    {
        self.state = GeneratorState::Failed;
        self.report = Some(Response::FailedGenerating);
    }

    /// Hand out the terminal report, emptying the single slot, so the
    /// dispatcher forwards it exactly once.
    pub fn take_report(&mut self) -> (r: Option<Response>)
        ensures
            r == old(self)@.report,
            final(self)@.report is None,
            final(self)@.state == old(self)@.state,
            old(self)@.wf() ==> final(self)@.wf(),
    {
        let r = self.report;
        self.report = None;
        r
    }
}

/// Driving every remaining edge without a fault finishes the generation
/// and leaves exactly the finish report in the slot.
pub proof fn lemma_run_to_completion(g: GenModel)
    requires
        g.state matches GeneratorState::Running { remaining_edges, .. } && remaining_edges >= 1,
    ensures
        ({
            let fin = spec_run_edges(g, g.state->Running_remaining_edges as nat);
            fin.state is Finished && fin.report == Some(Response::FinishedGenerating)
        }),
    decreases g.state->Running_remaining_edges,
{
    let n = g.state->Running_remaining_edges;
    if n == 1 {
        assert(spec_run_edges(g, 1) == spec_run_edges(spec_edge(g), 0));
    } else {
        let g1 = spec_edge(g);
        lemma_run_to_completion(g1);
        assert(spec_run_edges(g, n as nat) == spec_run_edges(g1, (n - 1) as nat));
    }
}

/// Generator exclusivity: a second command while a generation runs is
/// refused with `FailedGenerating` and alters nothing, and the running
/// generation still completes normally with `FinishedGenerating`.
pub proof fn lemma_generator_exclusivity(g: GenModel, rising_edges: u32, period_picos: u64)
    requires
        g.state is Running,
        g.wf(),
    ensures
        spec_start(g, rising_edges, period_picos) == (g, Response::FailedGenerating),
        ({
            let fin = spec_run_edges(g, g.state->Running_remaining_edges as nat);
            fin.state is Finished && fin.report == Some(Response::FinishedGenerating)
        }),
{
    lemma_run_to_completion(g);
}

} // verus!
