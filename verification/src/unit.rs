//! One host's unit of work: a list of steps, run one after the other, with
//! the steps that release what was acquired run on every way out.

use crate::outcome::{ExecutionOutcome, OutcomeView};
use crate::step::{
    fatal_class, failure_outcome, steps_view, Operation, ResultView, Step, StepResult, StepView,
};
use vstd::prelude::*;

verus! {

/// Whether the step at `z` releases what the step at `f` may have acquired.
pub open spec fn covers(steps: Seq<StepView>, z: int, f: int) -> bool {
    f < z && z - f <= steps[z].reach
}

/// Whether the step at `i` still runs once the work was ended at `aborted_at`.
pub open spec fn runs_after(steps: Seq<StepView>, aborted_at: Option<int>, i: int) -> bool {
    match aborted_at {
        None => true,
        Some(f) => covers(steps, i, f),
    }
}

/// The first step at or after `from` that still runs; `steps.len()` if there is none.
pub open spec fn next_from(steps: Seq<StepView>, aborted_at: Option<int>, from: int) -> int
    decreases steps.len() - from,
{
    if from >= steps.len() {
        steps.len() as int
    } else if runs_after(steps, aborted_at, from) {
        from
    } else {
        next_from(steps, aborted_at, from + 1)
    }
}

/// The state of a unit of work.
pub struct UnitView {
    /// The host that the work is for.
    pub host: Seq<char>,
    /// The steps of the work.
    pub steps: Seq<StepView>,
    /// The step that awaits its result; `steps.len()` when the work is finished.
    pub cursor: int,
    /// The step whose failure ended the work, if one did.
    pub aborted_at: Option<int>,
    /// The outcome that the failure stands for, if there was one.
    pub failure: Option<OutcomeView>,
    /// The steps that were started, in the order in which they were.
    pub performed: Seq<int>,
}

impl UnitView {
    /// The state before any result: the first step is started.
    pub open spec fn start(host: Seq<char>, steps: Seq<StepView>) -> UnitView {
        UnitView {
            host,
            steps,
            cursor: 0,
            aborted_at: None,
            failure: None,
            performed: if steps.len() > 0 {
                seq![0int]
            } else {
                Seq::empty()
            },
        }
    }

    /// Whether every step that was to run has run.
    pub open spec fn finished(self) -> bool {
        self.cursor >= self.steps.len()
    }

    /// The outcome of the work as far as it has come.
    pub open spec fn outcome(self) -> OutcomeView {
        match self.failure {
            Some(outcome) => outcome,
            None => OutcomeView::Success,
        }
    }

    /// Whether the step at `i` is one that runs, given where the work was ended.
    pub open spec fn due(self, i: int) -> bool {
        match self.aborted_at {
            None => true,
            Some(f) => i <= f || covers(self.steps, i, f),
        }
    }

    /// The state after the step that awaited its result has got `result`.
    ///
    /// The first failure that the step's policy does not let pass ends the
    /// work and fixes the outcome. The next step to start is the next one in
    /// the list or, once the work was ended, the next one that releases
    /// something acquired before the failure.
    pub open spec fn advance(self, result: ResultView) -> UnitView {
        if self.finished() {
            self
        } else {
            let class = fatal_class(self.steps[self.cursor].policy, result);
            let fails = self.aborted_at is None && class is Some;
            let aborted_at = if fails {
                Some(self.cursor)
            } else {
                self.aborted_at
            };
            let failure = if fails {
                Some(failure_outcome(class->0, result))
            } else {
                self.failure
            };
            let next = next_from(self.steps, aborted_at, self.cursor + 1);
            UnitView {
                host: self.host,
                steps: self.steps,
                cursor: next,
                aborted_at,
                failure,
                performed: if next < self.steps.len() {
                    self.performed.push(next)
                } else {
                    self.performed
                },
            }
        }
    }

    /// The state after the results in `results` have come in, one by one.
    pub open spec fn run(self, results: Seq<ResultView>) -> UnitView
        decreases results.len(),
    {
        if results.len() == 0 {
            self
        } else {
            self.run(results.drop_last()).advance(results.last())
        }
    }

    /// What holds of every state that a unit of work can be in.
    pub open spec fn wf(self) -> bool {
        &&& 0 <= self.cursor <= self.steps.len()
        &&& match self.aborted_at {
            Some(f) => 0 <= f < self.cursor && self.failure is Some,
            None => self.failure is None,
        }
        &&& self.failure matches Some(outcome) ==> !(outcome is Success)
        &&& self.cursor < self.steps.len() ==> self.due(self.cursor)
        &&& forall|a: int, b: int|
            0 <= a < b < self.performed.len() ==> self.performed[a] < self.performed[b]
        &&& forall|a: int|
            0 <= a < self.performed.len() ==> 0 <= #[trigger] self.performed[a] < self.steps.len()
        &&& forall|i: int|
            0 <= i < self.steps.len() ==> (#[trigger] self.performed.contains(i) <==> i
                <= self.cursor && self.due(i))
    }
}

/// `next_from` skips exactly the steps that do not run.
pub proof fn lemma_next_from(steps: Seq<StepView>, aborted_at: Option<int>, from: int)
    requires
        0 <= from <= steps.len(),
    ensures
        from <= next_from(steps, aborted_at, from) <= steps.len(),
        next_from(steps, aborted_at, from) < steps.len() ==> runs_after(
            steps,
            aborted_at,
            next_from(steps, aborted_at, from),
        ),
        forall|j: int|
            from <= j < next_from(steps, aborted_at, from) ==> !runs_after(steps, aborted_at, j),
    decreases steps.len() - from,
{
    if from < steps.len() && !runs_after(steps, aborted_at, from) {
        lemma_next_from(steps, aborted_at, from + 1);
    }
}

/// The state before any result is one that a unit of work can be in.
pub proof fn lemma_start_wf(host: Seq<char>, steps: Seq<StepView>)
    ensures
        UnitView::start(host, steps).wf(),
{
    let u = UnitView::start(host, steps);
    if steps.len() > 0 {
        assert(u.performed[0] == 0);
    }
}

/// A result takes a state that a unit of work can be in to another such state.
pub proof fn lemma_advance_wf(u: UnitView, result: ResultView)
    requires
        u.wf(),
    ensures
        u.advance(result).wf(),
        u.advance(result).steps == u.steps,
        u.advance(result).host == u.host,
        u.finished() ==> u.advance(result) == u,
        !u.finished() ==> u.advance(result).cursor > u.cursor,
        u.aborted_at is Some ==> u.advance(result).aborted_at == u.aborted_at
            && u.advance(result).failure == u.failure,
{
    if !u.finished() {
        let v = u.advance(result);
        let c = u.cursor;
        lemma_next_from(u.steps, v.aborted_at, c + 1);
        let next = v.cursor;
        assert forall|a: int| 0 <= a < u.performed.len() implies #[trigger] u.performed[a] <= c by {
            assert(u.performed.contains(u.performed[a]));
        }
        assert forall|i: int| 0 <= i < v.steps.len() implies (#[trigger] v.performed.contains(i) <==> i
            <= v.cursor && v.due(i)) by {
            if next < u.steps.len() {
                assert(v.performed[u.performed.len() as int] == next);
                if u.performed.contains(i) {
                    let a = choose|a: int| 0 <= a < u.performed.len() && u.performed[a] == i;
                    assert(v.performed[a] == i);
                }
            }
            if c < i && i < next {
                assert(!runs_after(u.steps, v.aborted_at, i));
            }
        }
    }
}

/// Whatever results come in, the state is one that a unit of work can be in.
pub proof fn lemma_run_wf(u: UnitView, results: Seq<ResultView>)
    requires
        u.wf(),
    ensures
        u.run(results).wf(),
        u.run(results).steps == u.steps,
        u.run(results).host == u.host,
        u.aborted_at is Some ==> u.run(results).aborted_at == u.aborted_at && u.run(
            results,
        ).failure == u.failure,
    decreases results.len(),
{
    if results.len() > 0 {
        lemma_run_wf(u, results.drop_last());
        lemma_advance_wf(u.run(results.drop_last()), results.last());
    }
}

/// The outcome is success exactly as long as no failure has ended the work.
pub proof fn lemma_success_means_no_failure(u: UnitView)
    requires
        u.wf(),
    ensures
        u.outcome() is Success <==> u.aborted_at is None,
{
}

/// While nothing has failed, every step up to the one that awaits its result was started.
pub proof fn lemma_started_without_failure(u: UnitView, i: int)
    requires
        u.wf(),
        u.aborted_at is None,
        0 <= i <= u.cursor,
        i < u.steps.len(),
    ensures
        u.performed.contains(i),
{
}

/// Once a failure has ended the work, every step up to the failed one was
/// started, and a later step that releases nothing never is.
pub proof fn lemma_failure_halts(u: UnitView, i: int)
    requires
        u.wf(),
        u.aborted_at is Some,
        0 <= i < u.steps.len(),
    ensures
        i <= u.aborted_at->0 ==> u.performed.contains(i),
        i > u.aborted_at->0 && u.steps[i].reach == 0 ==> !u.performed.contains(i),
{
}

/// Once the work has moved past a step that releases what an ordinary step
/// may have acquired, that step was started after the ordinary one, if the
/// ordinary one was started at all.
pub proof fn lemma_release_follows(u: UnitView, c: int, z: int)
    requires
        u.wf(),
        0 <= c < z < u.steps.len(),
        z < u.cursor,
        u.steps[c].reach == 0,
        z - c <= u.steps[z].reach,
        u.performed.contains(c),
    ensures
        exists|a: int, b: int|
            0 <= a < b < u.performed.len() && u.performed[a] == c && u.performed[b] == z,
{
    assert(u.performed.contains(z));
}

/// Results that no step's policy takes for the end of the work move the
/// work one step on each.
pub proof fn lemma_run_without_failure(
    host: Seq<char>,
    steps: Seq<StepView>,
    results: Seq<ResultView>,
)
    requires
        results.len() <= steps.len(),
        forall|i: int|
            0 <= i < results.len() ==> fatal_class(steps[i].policy, #[trigger] results[i]) is None,
    ensures
        UnitView::start(host, steps).run(results).wf(),
        UnitView::start(host, steps).run(results).cursor == results.len(),
        UnitView::start(host, steps).run(results).aborted_at is None,
        UnitView::start(host, steps).run(results).steps == steps,
    decreases results.len(),
{
    lemma_start_wf(host, steps);
    if results.len() > 0 {
        let front = results.drop_last();
        lemma_run_without_failure(host, steps, front);
        let u = UnitView::start(host, steps).run(front);
        lemma_advance_wf(u, results.last());
        lemma_next_from(steps, None, u.cursor + 1);
    }
}

/// The first result that a step's policy takes for the end of the work
/// fixes where the work was ended and its outcome, whatever comes in later.
pub proof fn lemma_run_with_failure(
    host: Seq<char>,
    steps: Seq<StepView>,
    results: Seq<ResultView>,
    f: int,
)
    requires
        0 <= f < steps.len(),
        f < results.len(),
        forall|i: int| 0 <= i < f ==> fatal_class(steps[i].policy, #[trigger] results[i]) is None,
        fatal_class(steps[f].policy, results[f]) is Some,
    ensures
        UnitView::start(host, steps).run(results).wf(),
        UnitView::start(host, steps).run(results).steps == steps,
        UnitView::start(host, steps).run(results).aborted_at == Some(f),
        UnitView::start(host, steps).run(results).failure == Some(
            failure_outcome(fatal_class(steps[f].policy, results[f])->0, results[f]),
        ),
    decreases results.len(),
{
    lemma_start_wf(host, steps);
    let front = results.drop_last();
    if results.len() == f + 1 {
        lemma_run_without_failure(host, steps, front);
    } else {
        lemma_run_with_failure(host, steps, front, f);
    }
    lemma_advance_wf(UnitView::start(host, steps).run(front), results.last());
}

/// A unit of work for one host.
#[derive(Debug)]
pub struct HostUnit {
    host: String,
    steps: Vec<Step>,
    cursor: usize,
    aborted_at: Option<usize>,
    failure: Option<ExecutionOutcome>,
    performed: Vec<usize>,
}

impl View for HostUnit {
    type V = UnitView;

    closed spec fn view(&self) -> UnitView {
        UnitView {
            host: self.host@,
            steps: steps_view(self.steps@),
            cursor: self.cursor as int,
            aborted_at: match self.aborted_at {
                Some(f) => Some(f as int),
                None => None,
            },
            failure: match self.failure {
                Some(outcome) => Some(outcome@),
                None => None,
            },
            performed: Seq::new(self.performed@.len(), |i: int| self.performed@[i] as int),
        }
    }
}

impl HostUnit {
    #[verifier::type_invariant]
    spec fn inv(&self) -> bool {
        self@.wf()
    }

    /// The unit of work that runs `steps` for `host`; its first step is started.
    pub fn new(host: String, steps: Vec<Step>) -> (unit: HostUnit)
        ensures
            unit@ == UnitView::start(host@, steps_view(steps@)),
            unit@.wf(),
    {
        let mut performed: Vec<usize> = Vec::new();
        if steps.len() > 0 {
            performed.push(0);
        }
        proof {
            lemma_start_wf(host@, steps_view(steps@));
            assert(Seq::new(performed@.len(), |i: int| performed@[i] as int) =~= UnitView::start(
                host@,
                steps_view(steps@),
            ).performed);
        }
        HostUnit { host, steps, cursor: 0, aborted_at: None, failure: None, performed }
    }

    /// The host that the work is for.
    pub fn host(&self) -> (host: &String)
        ensures
            host@ == self@.host,
    {
        &self.host
    }

    /// The number of steps of the work.
    pub fn len(&self) -> (n: usize)
        ensures
            n == self@.steps.len(),
    {
        self.steps.len()
    }

    /// The step at `index`.
    pub fn step(&self, index: usize) -> (step: Option<&Step>)
        ensures
            index < self@.steps.len() ==> step is Some && step->0@ == self@.steps[index as int],
            index >= self@.steps.len() ==> step is None,
    {
        if index < self.steps.len() {
            Some(&self.steps[index])
        } else {
            None
        }
    }

    /// Whether every step that was to run has run.
    pub fn is_finished(&self) -> (b: bool)
        ensures
            b == self@.finished(),
    {
        self.cursor >= self.steps.len()
    }

    /// The index of the step that awaits its result, if the work is not finished.
    pub fn position(&self) -> (index: Option<usize>)
        ensures
            self@.finished() ==> index is None,
            !self@.finished() ==> index == Some(self@.cursor as usize) && 0 <= self@.cursor
                < self@.steps.len(),
    {
        proof {
            use_type_invariant(self);
        }
        if self.cursor < self.steps.len() {
            Some(self.cursor)
        } else {
            None
        }
    }

    /// The operation that awaits its result, if the work is not finished.
    pub fn pending(&self) -> (operation: Option<&Operation>)
        ensures
            self@.finished() ==> operation is None,
            !self@.finished() ==> operation is Some && operation->0@
                == self@.steps[self@.cursor].operation,
    {
        proof {
            use_type_invariant(self);
        }
        if self.cursor < self.steps.len() {
            Some(&self.steps[self.cursor].operation)
        } else {
            None
        }
    }

    /// The outcome of the work as far as it has come: that of the failure
    /// that ended it, or success.
    pub fn outcome(&self) -> (outcome: ExecutionOutcome)
        ensures
            outcome@ == self@.outcome(),
    {
        match &self.failure {
            Some(outcome) => outcome.duplicate(),
            None => ExecutionOutcome::Success,
        }
    }

    /// The step whose failure ended the work, if one did.
    pub fn aborted_at(&self) -> (index: Option<usize>)
        ensures
            match index {
                Some(f) => self@.aborted_at == Some(f as int),
                None => self@.aborted_at is None,
            },
    {
        self.aborted_at
    }

    /// The steps that were started, in the order in which they were.
    pub fn performed(&self) -> (indices: &Vec<usize>)
        ensures
            indices@.len() == self@.performed.len(),
            forall|i: int| 0 <= i < indices@.len() ==> indices@[i] as int == self@.performed[i],
    {
        &self.performed
    }

    /// Whether the step at `i` still runs, given where the work was ended.
    fn runs(steps: &Vec<Step>, aborted_at: Option<usize>, i: usize) -> (b: bool)
        requires
            i < steps@.len(),
        ensures
            b == runs_after(
                steps_view(steps@),
                match aborted_at {
                    Some(f) => Some(f as int),
                    None => None,
                },
                i as int,
            ),
    {
        match aborted_at {
            None => true,
            Some(f) => f < i && i - f <= steps[i].reach,
        }
    }

    /// Takes in the result of the step that awaited one, and starts the next.
    ///
    /// A result that comes in after the work is finished changes nothing.
    pub fn advance(self, result: StepResult) -> (next: HostUnit)
        ensures
            next@ == self@.advance(result@),
            next@.wf(),
    {
        proof {
            use_type_invariant(&self);
            lemma_advance_wf(self@, result@);
        }
        let n = self.steps.len();
        if self.cursor >= n {
            return self;
        }
        let ghost before = self@;
        let HostUnit { host, steps, cursor, aborted_at, failure, performed } = self;
        let class = steps[cursor].policy.fatal_class(&result);
        let (aborted_at, failure) = match (aborted_at, class) {
            (None, Some(class)) => (Some(cursor), Some(class.outcome(result))),
            (aborted_at, _) => (aborted_at, failure),
        };
        let ghost ended: Option<int> = match aborted_at {
            Some(f) => Some(f as int),
            None => None,
        };
        let mut next: usize = cursor + 1;
        while next < n && !Self::runs(&steps, aborted_at, next)
            invariant
                n == steps@.len(),
                cursor < next <= n,
                ended == match aborted_at {
                    Some(f) => Some(f as int),
                    None => None,
                },
                next_from(steps_view(steps@), ended, next as int) == next_from(
                    steps_view(steps@),
                    ended,
                    cursor + 1,
                ),
            decreases n - next,
        {
            next += 1;
        }
        let mut performed = performed;
        if next < n {
            performed.push(next);
        }
        proof {
            assert(Seq::new(performed@.len(), |i: int| performed@[i] as int)
                =~= before.advance(result@).performed);
        }
        HostUnit { host, steps, cursor: next, aborted_at, failure, performed }
    }
}

} // verus!
