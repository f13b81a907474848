//! The climb as it is carried out: one step at a time, each written, left to
//! settle and read back, and the card put back where it was if any step fails.
use vstd::prelude::*;

use crate::error::ErrorView;
use crate::error::ModuleError;
use crate::overclock::hardware;
use crate::overclock::plan;
use crate::overclock::plan::Target;

verus! {

/// What is to be done to the card next.
#[derive(Debug, Clone, Copy, PartialEq, Eq, Structural)]
pub enum ClimbAction {
    /// Write this target.
    Write(Target),
    /// Let the card settle, then read it back against this target.
    Verify(Target),
    /// Write this target again, whatever comes of it.
    PutBack(Target),
    /// Nothing: the climb is over.
    Finished,
}

#[derive(Debug, Clone)]
pub enum Phase {
    Writing,
    Verifying,
    PuttingBack(ModuleError),
    Arrived,
    Failed(ModuleError),
}

#[derive(Debug, Clone)]
pub struct Climb {
    from: Target,
    steps: Vec<Target>,
    at: usize,
    phase: Phase,
}

#[verifier::ext_equal]
pub enum PhaseView {
    Writing,
    Verifying,
    PuttingBack(ErrorView),
    Arrived,
    Failed(ErrorView),
}

/// A climb under way: where it started, all its steps, and which one it is at.
#[verifier::ext_equal]
pub struct ClimbView {
    pub from: Target,
    pub steps: Seq<Target>,
    pub at: int,
    pub phase: PhaseView,
}

impl View for Phase {
    type V = PhaseView;

    open spec fn view(&self) -> PhaseView {
        match self {
            Phase::Writing => PhaseView::Writing,
            Phase::Verifying => PhaseView::Verifying,
            Phase::PuttingBack(e) => PhaseView::PuttingBack(e@),
            Phase::Arrived => PhaseView::Arrived,
            Phase::Failed(e) => PhaseView::Failed(e@),
        }
    }
}

impl View for Climb {
    type V = ClimbView;

    closed spec fn view(&self) -> ClimbView {
        ClimbView {
            from: self.from,
            steps: self.steps@,
            at: self.at as int,
            phase: self.phase@,
        }
    }
}

impl ClimbView {
    pub open spec fn wf(self) -> bool {
        &&& 0 <= self.at <= self.steps.len()
        &&& self.phase is Writing || self.phase is Verifying ==> self.at < self.steps.len()
    }

    /// A climb that has not begun.
    pub open spec fn begun(from: Target, to: Target) -> ClimbView {
        ClimbView { from, steps: plan::climb(from, to), at: 0, phase: PhaseView::Writing }
    }

    pub open spec fn action(self) -> ClimbAction {
        match self.phase {
            PhaseView::Writing => ClimbAction::Write(self.steps[self.at]),
            PhaseView::Verifying => ClimbAction::Verify(self.steps[self.at]),
            PhaseView::PuttingBack(_) => ClimbAction::PutBack(self.from),
            PhaseView::Arrived => ClimbAction::Finished,
            PhaseView::Failed(_) => ClimbAction::Finished,
        }
    }

    /// The climb with its error, on the way back.
    pub open spec fn stopped(self, e: ErrorView) -> ClimbView {
        ClimbView {
            phase: PhaseView::PuttingBack(
                hardware::in_context(e, hardware::step_context(self.steps[self.at], self.from)),
            ),
            ..self
        }
    }

    /// The climb after its action came to this.
    pub open spec fn after(self, result: Result<(), ErrorView>) -> ClimbView {
        match self.phase {
            PhaseView::Writing => match result {
                Ok(()) => ClimbView { phase: PhaseView::Verifying, ..self },
                Err(e) => self.stopped(e),
            },
            PhaseView::Verifying => match result {
                Ok(()) => if self.at + 1 == self.steps.len() {
                    ClimbView { at: self.at + 1, phase: PhaseView::Arrived, ..self }
                } else {
                    ClimbView { at: self.at + 1, phase: PhaseView::Writing, ..self }
                },
                Err(e) => self.stopped(e),
            },
            PhaseView::PuttingBack(e) => ClimbView { phase: PhaseView::Failed(e), ..self },
            _ => self,
        }
    }

    /// How the climb ended, once it has.
    pub open spec fn result(self) -> Option<Result<(), ErrorView>> {
        match self.phase {
            PhaseView::Arrived => Some(Ok(())),
            PhaseView::Failed(e) => Some(Err(e)),
            _ => None,
        }
    }
}

impl Climb {
    pub fn begin(from: Target, to: Target) -> (r: Climb)
        ensures
            r@ == ClimbView::begun(from, to),
            r@.wf(),
    {
        proof {
            plan::law_climb_ends_at_target(from, to);
        }
        Climb { from, steps: plan::ramp(from, to), at: 0, phase: Phase::Writing }
    }

    pub fn action(&self) -> (r: ClimbAction)
        requires
            self@.wf(),
        ensures
            r == self@.action(),
    {
        match &self.phase {
            Phase::Writing => ClimbAction::Write(self.steps[self.at]),
            Phase::Verifying => ClimbAction::Verify(self.steps[self.at]),
            Phase::PuttingBack(_) => ClimbAction::PutBack(self.from),
            Phase::Arrived => ClimbAction::Finished,
            Phase::Failed(_) => ClimbAction::Finished,
        }
    }

    /// Takes what the action came to. A climb that is over stays as it is.
    pub fn report(self, result: Result<(), ModuleError>) -> (r: Climb)
        requires
            self@.wf(),
        ensures
            r@ == self@.after(hardware::outcome(result)),
            r@.wf(),
    {
        let Climb { from, steps, at, phase } = self;
        match phase {
            Phase::Writing => match result {
                Ok(()) => Climb { from, steps, at, phase: Phase::Verifying },
                Err(e) => {
                    let error = hardware::step_error(steps[at], from, e);
                    Climb { from, steps, at, phase: Phase::PuttingBack(error) }
                },
            },
            Phase::Verifying => match result {
                Ok(()) => {
                    let count: usize = steps.len();
                    let next: usize = at + 1;
                    if next == count {
                        Climb { from, steps, at: next, phase: Phase::Arrived }
                    } else {
                        Climb { from, steps, at: next, phase: Phase::Writing }
                    }
                },
                Err(e) => {
                    let error = hardware::step_error(steps[at], from, e);
                    Climb { from, steps, at, phase: Phase::PuttingBack(error) }
                },
            },
            Phase::PuttingBack(e) => Climb { from, steps, at, phase: Phase::Failed(e) },
            Phase::Arrived => Climb { from, steps, at, phase: Phase::Arrived },
            Phase::Failed(e) => Climb { from, steps, at, phase: Phase::Failed(e) },
        }
    }

    /// How the climb ended; nothing while it goes on.
    pub fn result(&self) -> (r: Option<Result<(), ModuleError>>)
        ensures
            match r {
                Some(out) => self@.result() == Some(hardware::outcome(out)),
                None => self@.result() is None,
            },
    {
        match &self.phase {
            Phase::Arrived => Some(Ok(())),
            Phase::Failed(e) => Some(Err(e.copy())),
            _ => None,
        }
    }
}

// --- laws ----------------------------------------------------------------

/// A climb only fails after the card was told to go back to where it was.
pub proof fn law_failure_goes_back_first(c: ClimbView, result: Result<(), ErrorView>)
    requires
        c.wf(),
        c.after(result).phase is Failed,
    ensures
        c.phase is Failed || c.action() == ClimbAction::PutBack(c.from),
{
}

/// Whatever is reported, the climb keeps its start and its steps, and never
/// goes back to an earlier step.
pub proof fn law_climb_moves_on(c: ClimbView, result: Result<(), ErrorView>)
    requires
        c.wf(),
    ensures
        c.after(result).wf(),
        c.after(result).from == c.from,
        c.after(result).steps == c.steps,
        c.at <= c.after(result).at <= c.at + 1,
{
}

/// A climb that arrives has written its last step, which is the target.
pub proof fn law_arrival_is_at_the_target(
    from: Target,
    to: Target,
    c: ClimbView,
    result: Result<(), ErrorView>,
)
    requires
        c.wf(),
        c.steps == plan::climb(from, to),
        c.phase !is Arrived,
        c.after(result).phase is Arrived,
    ensures
        c.action() == ClimbAction::Verify(to),
{
    plan::law_climb_ends_at_target(from, to);
}

/// The climb after so many actions in a row that went well.
pub open spec fn after_good(c: ClimbView, n: nat) -> ClimbView
    decreases n,
{
    if n == 0 {
        c
    } else {
        after_good(c, (n - 1) as nat).after(Ok(()))
    }
}

/// Where all goes well, every step of the climb is written and read back before
/// the next one is written, in their order; after the last one the climb has
/// arrived.
pub proof fn law_every_step_is_written_and_read_back(from: Target, to: Target, k: nat)
    requires
        k <= plan::climb(from, to).len(),
    ensures
        k < plan::climb(from, to).len() ==> {
            &&& after_good(ClimbView::begun(from, to), 2 * k).action() == ClimbAction::Write(
                plan::climb(from, to)[k as int],
            )
            &&& after_good(ClimbView::begun(from, to), 2 * k + 1).action() == ClimbAction::Verify(
                plan::climb(from, to)[k as int],
            )
        },
        k == plan::climb(from, to).len() ==> {
            &&& after_good(ClimbView::begun(from, to), 2 * k).action() == ClimbAction::Finished
            &&& after_good(ClimbView::begun(from, to), 2 * k).result() == Some(
                Ok::<(), ErrorView>(()),
            )
        },
    decreases k,
{
    lemma_good_climb(from, to, k);
}

proof fn lemma_good_climb(from: Target, to: Target, k: nat)
    requires
        k <= plan::climb(from, to).len(),
    ensures
        ({
            let c = after_good(ClimbView::begun(from, to), 2 * k);
            let next = after_good(ClimbView::begun(from, to), 2 * k + 1);
            &&& c.from == from
            &&& c.steps == plan::climb(from, to)
            &&& c.at == k
            &&& c.phase == (if k < plan::climb(from, to).len() {
                PhaseView::Writing
            } else {
                PhaseView::Arrived
            })
            &&& k < plan::climb(from, to).len() ==> next == (ClimbView {
                phase: PhaseView::Verifying,
                ..c
            })
        }),
    decreases k,
{
    plan::law_climb_ends_at_target(from, to);
    let start = ClimbView::begun(from, to);
    if k > 0 {
        lemma_good_climb(from, to, (k - 1) as nat);
        assert(2 * k == 2 * (k - 1) + 2);
        assert(after_good(start, 2 * k) == after_good(start, (2 * k - 1) as nat).after(Ok(())));
    }
    assert(after_good(start, 2 * k + 1) == after_good(start, 2 * k).after(Ok(())));
}

/// A failure at any step sends the card back to where it was, whatever that
/// comes to, and the climb then ends with that failure, in its kind.
pub proof fn law_a_failed_step_undoes_the_climb(
    c: ClimbView,
    e: ErrorView,
    put_back: Result<(), ErrorView>,
)
    requires
        c.wf(),
        c.phase is Writing || c.phase is Verifying,
    ensures
        c.after(Err(e)).action() == ClimbAction::PutBack(c.from),
        c.after(Err(e)).result() is None,
        c.after(Err(e)).after(put_back).action() == ClimbAction::Finished,
        c.after(Err(e)).after(put_back).result() matches Some(Err(said)) && said.kind()
            == e.kind(),
{
    hardware::law_context_keeps_kind(e, hardware::step_context(c.steps[c.at], c.from));
}

} // verus!
