//! The fan-in of a run: the outcomes of the hosts' units of work, taken in
//! as they complete, and the one status that the process ends with.
//!
//! A host that fails does not stop the others: every unit runs to its own
//! end, and the status of the process is decided when all have reported.

use crate::outcome::{spec_exit_status, ExecutionOutcome, OutcomeView, STATUS_SUCCESS};
use vstd::prelude::*;

verus! {

/// The views of a sequence of outcomes.
pub open spec fn outcome_views(outcomes: Seq<ExecutionOutcome>) -> Seq<OutcomeView> {
    Seq::new(outcomes.len(), |i: int| outcomes[i]@)
}

/// The status of the process for `outcomes` in the order of completion:
/// that of the first outcome that is no success; success if there is none.
pub open spec fn spec_process_status(outcomes: Seq<OutcomeView>) -> i32
    decreases outcomes.len(),
{
    if outcomes.len() == 0 {
        STATUS_SUCCESS
    } else if !(outcomes[0] is Success) {
        spec_exit_status(outcomes[0])
    } else {
        spec_process_status(outcomes.skip(1))
    }
}

/// The status of the process is that of the outcome at `first`, if none
/// before it is a failure and it is one.
pub proof fn lemma_first_failure_decides(outcomes: Seq<OutcomeView>, first: int)
    requires
        0 <= first < outcomes.len(),
        forall|i: int| 0 <= i < first ==> #[trigger] outcomes[i] is Success,
        !(outcomes[first] is Success),
    ensures
        spec_process_status(outcomes) == spec_exit_status(outcomes[first]),
        spec_process_status(outcomes) != STATUS_SUCCESS,
    decreases first,
{
    if first > 0 {
        let rest = outcomes.skip(1);
        lemma_first_failure_decides(rest, first - 1);
    }
}

/// The status of the process is success exactly when every host succeeded.
pub proof fn lemma_success_needs_all(outcomes: Seq<OutcomeView>)
    ensures
        spec_process_status(outcomes) == STATUS_SUCCESS <==> forall|i: int|
            0 <= i < outcomes.len() ==> #[trigger] outcomes[i] is Success,
    decreases outcomes.len(),
{
    if outcomes.len() > 0 {
        let rest = outcomes.skip(1);
        lemma_success_needs_all(rest);
        if outcomes[0] is Success {
            if forall|i: int| 0 <= i < rest.len() ==> #[trigger] rest[i] is Success {
                assert forall|i: int| 0 <= i < outcomes.len() implies #[trigger] outcomes[i]
                    is Success by {
                    if i > 0 {
                        assert(rest[i - 1] == outcomes[i]);
                    }
                }
            }
        }
    }
}

/// The status of the process for `outcomes` in the order of completion.
pub fn process_status(outcomes: &Vec<ExecutionOutcome>) -> (status: i32)
    ensures
        status == spec_process_status(outcome_views(outcomes@)),
{
    let mut i: usize = 0;
    let ghost all = outcome_views(outcomes@);
    assert(all.skip(0) =~= all);
    while i < outcomes.len()
        invariant
            i <= outcomes@.len(),
            all == outcome_views(outcomes@),
            spec_process_status(all.skip(i as int)) == spec_process_status(all),
        decreases outcomes@.len() - i,
    {
        if !outcomes[i].is_success() {
            return outcomes[i].exit_status();
        }
        assert(all.skip(i as int).skip(1) =~= all.skip(i + 1));
        i += 1;
    }
    STATUS_SUCCESS
}

/// The number of hosts in `reported` that have not reported.
pub open spec fn count_waiting(reported: Seq<bool>) -> nat
    decreases reported.len(),
{
    if reported.len() == 0 {
        0
    } else {
        count_waiting(reported.drop_last()) + if reported.last() {
            0nat
        } else {
            1nat
        }
    }
}

/// No host is waited for exactly when all have reported.
proof fn lemma_none_waiting(reported: Seq<bool>)
    ensures
        count_waiting(reported) == 0 <==> forall|h: int| 0 <= h < reported.len() ==> reported[h],
        count_waiting(reported) <= reported.len(),
    decreases reported.len(),
{
    if reported.len() > 0 {
        let front = reported.drop_last();
        lemma_none_waiting(front);
        if count_waiting(reported) == 0 {
            assert forall|h: int| 0 <= h < reported.len() implies reported[h] by {
                if h < front.len() {
                    assert(front[h] == reported[h]);
                }
            }
        }
    }
}

/// A host that reports is one host less to wait for.
proof fn lemma_one_less_waiting(reported: Seq<bool>, host: int)
    requires
        0 <= host < reported.len(),
        !reported[host],
    ensures
        count_waiting(reported.update(host, true)) == count_waiting(reported) - 1,
    decreases reported.len(),
{
    let after = reported.update(host, true);
    if host == reported.len() - 1 {
        assert(after.drop_last() =~= reported.drop_last());
    } else {
        assert(after.drop_last() =~= reported.drop_last().update(host, true));
        lemma_one_less_waiting(reported.drop_last(), host);
    }
}

/// What a dispatcher has taken in.
pub struct DispatchView {
    /// The number of hosts of the run.
    pub hosts: nat,
    /// The hosts that have reported, in the order in which they did.
    pub order: Seq<int>,
    /// Their outcomes, in the same order.
    pub outcomes: Seq<OutcomeView>,
}

impl DispatchView {
    /// Whether `host` has reported.
    pub open spec fn has_reported(self, host: int) -> bool {
        self.order.contains(host)
    }

    /// Whether an outcome for `host` is taken in: the host is one of the
    /// run, and has not reported before.
    pub open spec fn accepts(self, host: int) -> bool {
        0 <= host < self.hosts && !self.has_reported(host)
    }

    /// Whether every host has reported.
    pub open spec fn complete(self) -> bool {
        forall|h: int| 0 <= h < self.hosts ==> self.has_reported(h)
    }

    /// The state after `host` has reported `outcome`.
    pub open spec fn report(self, host: int, outcome: OutcomeView) -> DispatchView {
        if self.accepts(host) {
            DispatchView {
                hosts: self.hosts,
                order: self.order.push(host),
                outcomes: self.outcomes.push(outcome),
            }
        } else {
            self
        }
    }

    /// The status of the process: none before every host has reported.
    pub open spec fn status(self) -> Option<i32> {
        if self.complete() {
            Some(spec_process_status(self.outcomes))
        } else {
            None
        }
    }

    /// What holds of every state of a dispatcher: each report is of a host
    /// of the run, and no host has reported twice.
    pub open spec fn wf(self) -> bool {
        &&& self.order.len() == self.outcomes.len()
        &&& forall|i: int| 0 <= i < self.order.len() ==> 0 <= #[trigger] self.order[i] < self.hosts
        &&& forall|i: int, j: int|
            0 <= i < j < self.order.len() ==> self.order[i] != self.order[j]
    }
}

/// A report takes a state of a dispatcher to another one, and a host that
/// has reported stays so.
pub proof fn lemma_report_wf(state: DispatchView, host: int, outcome: OutcomeView)
    requires
        state.wf(),
    ensures
        state.report(host, outcome).wf(),
        state.accepts(host) ==> state.report(host, outcome).has_reported(host),
        forall|h: int| state.has_reported(h) ==> state.report(host, outcome).has_reported(h),
{
    let after = state.report(host, outcome);
    if state.accepts(host) {
        assert(after.order[state.order.len() as int] == host);
        assert forall|h: int| state.has_reported(h) implies after.has_reported(h) by {
            let i = choose|i: int| 0 <= i < state.order.len() && state.order[i] == h;
            assert(after.order[i] == h);
        }
    }
}

/// Takes in the outcomes of the hosts of a run as they complete.
#[derive(Debug)]
pub struct Dispatcher {
    reported: Vec<bool>,
    waiting: usize,
    order: Vec<usize>,
    outcomes: Vec<ExecutionOutcome>,
}

impl View for Dispatcher {
    type V = DispatchView;

    closed spec fn view(&self) -> DispatchView {
        DispatchView {
            hosts: self.reported@.len(),
            order: Seq::new(self.order@.len(), |i: int| self.order@[i] as int),
            outcomes: outcome_views(self.outcomes@),
        }
    }
}

impl Dispatcher {
    #[verifier::type_invariant]
    spec fn inv(&self) -> bool {
        &&& self@.wf()
        &&& self.waiting == count_waiting(self.reported@)
        &&& forall|h: int|
            0 <= h < self.reported@.len() ==> (self.reported@[h] <==> self@.has_reported(h))
    }

    /// The dispatcher of a run on `hosts` hosts, none of which has reported.
    pub fn new(hosts: usize) -> (dispatcher: Dispatcher)
        ensures
            dispatcher@ == (DispatchView {
                hosts: hosts as nat,
                order: Seq::empty(),
                outcomes: Seq::empty(),
            }),
            dispatcher@.wf(),
    {
        let mut reported: Vec<bool> = Vec::new();
        let mut i: usize = 0;
        while i < hosts
            invariant
                i <= hosts,
                reported@.len() == i,
                forall|h: int| 0 <= h < i ==> !reported@[h],
                count_waiting(reported@) == i,
            decreases hosts - i,
        {
            let ghost before = reported@;
            reported.push(false);
            assert(reported@.drop_last() =~= before);
            i += 1;
        }
        let order: Vec<usize> = Vec::new();
        let outcomes: Vec<ExecutionOutcome> = Vec::new();
        proof {
            let view = DispatchView {
                hosts: hosts as nat,
                order: Seq::<int>::empty(),
                outcomes: Seq::<OutcomeView>::empty(),
            };
            assert(Seq::new(order@.len(), |i: int| order@[i] as int) =~= view.order);
            assert(outcome_views(outcomes@) =~= view.outcomes);
            assert forall|h: int| 0 <= h < hosts implies !view.has_reported(h) by {}
        }
        Dispatcher { reported, waiting: hosts, order, outcomes }
    }

    /// The number of hosts of the run.
    pub fn hosts(&self) -> (n: usize)
        ensures
            n == self@.hosts,
    {
        self.reported.len()
    }

    /// Whether `host` has reported.
    pub fn has_reported(&self, host: usize) -> (b: bool)
        ensures
            b == self@.has_reported(host as int),
    {
        proof {
            use_type_invariant(self);
        }
        if host < self.reported.len() {
            self.reported[host]
        } else {
            false
        }
    }

    /// Takes in the outcome of `host`. It is passed over if the run has no
    /// such host, or if the host has reported before.
    pub fn report(self, host: usize, outcome: ExecutionOutcome) -> (dispatcher: Dispatcher)
        ensures
            dispatcher@ == self@.report(host as int, outcome@),
            dispatcher@.wf(),
    {
        proof {
            use_type_invariant(&self);
            lemma_report_wf(self@, host as int, outcome@);
        }
        if self.has_reported(host) || host >= self.reported.len() {
            return self;
        }
        let ghost before = self@;
        let ghost flags = self.reported@;
        let Dispatcher { reported, waiting, order, outcomes } = self;
        let mut reported = reported;
        let mut order = order;
        let mut outcomes = outcomes;
        proof {
            lemma_one_less_waiting(flags, host as int);
            lemma_none_waiting(flags);
        }
        reported.set(host, true);
        order.push(host);
        outcomes.push(outcome);
        proof {
            let after = before.report(host as int, outcome@);
            assert(Seq::new(order@.len(), |i: int| order@[i] as int) =~= after.order);
            assert(outcome_views(outcomes@) =~= after.outcomes);
            assert forall|h: int| 0 <= h < reported@.len() implies (reported@[h]
                <==> after.has_reported(h)) by {
                if h != host {
                    assert(flags[h] <==> before.has_reported(h));
                }
            }
        }
        Dispatcher { reported, waiting: waiting - 1, order, outcomes }
    }

    /// Whether every host has reported.
    pub fn is_complete(&self) -> (b: bool)
        ensures
            b == self@.complete(),
    {
        proof {
            use_type_invariant(self);
            lemma_none_waiting(self.reported@);
            if self@.complete() {
                assert forall|h: int| 0 <= h < self.reported@.len() implies self.reported@[h] by {
                    assert(self@.has_reported(h));
                }
            }
        }
        self.waiting == 0
    }

    /// The outcomes that were taken in, in the order of completion.
    pub fn outcomes(&self) -> (outcomes: &Vec<ExecutionOutcome>)
        ensures
            outcome_views(outcomes@) == self@.outcomes,
    {
        &self.outcomes
    }

    /// The status of the process: that of the first outcome in the order of
    /// completion that is no success, or success; none before every host
    /// has reported.
    pub fn exit_status(&self) -> (status: Option<i32>)
        ensures
            status == self@.status(),
    {
        if self.is_complete() {
            Some(process_status(&self.outcomes))
        } else {
            None
        }
    }
}

} // verus!
