//! The steps that run a script on one host.
//!
//! The session is opened, the commands run one after the other, each with
//! the environment before it, and the session is closed. A command that
//! fails ends the script; the session is closed all the same.

use crate::step::{
    failure_outcome, is_failure, ordinary, releasing, spec_open_session, steps_view,
    FailureClass, Operation, OperationView, Policy, ResultView, Step, StepView,
};
use crate::text::{followed_by, is_blank, spec_is_blank, texts};
use crate::unit::{
    lemma_failure_halts, lemma_run_wf, lemma_run_with_failure, lemma_run_without_failure,
    lemma_start_wf, UnitView,
};
use vstd::prelude::*;

verus! {

/// The line that runs `command` with `environment` before it; the command
/// alone where the environment holds nothing but white space.
pub open spec fn spec_command_line(environment: Seq<char>, command: Seq<char>) -> Seq<char> {
    if spec_is_blank(environment) {
        command
    } else {
        environment + "; "@ + command
    }
}

/// The line that runs `command` with `environment` before it.
pub fn command_line(environment: &str, command: &str) -> (line: String)
    ensures
        line@ == spec_command_line(environment@, command@),
{
    if is_blank(environment) {
        command.to_owned()
    } else {
        let mut line = followed_by(environment, "; ");
        line.append(command);
        line
    }
}

/// The step that runs `command`.
pub open spec fn spec_command_step(
    command: Seq<char>,
    environment: Seq<char>,
    timeout: i32,
) -> StepView {
    ordinary(
        OperationView::RunCommand {
            command,
            line: spec_command_line(environment, command),
            timeout,
        },
        Policy::Fatal(FailureClass::Command),
    )
}

/// The steps that run `commands` on a host: the step at `i + 1` runs the
/// command at `i`; the first opens the session and the last closes it.
pub open spec fn spec_command_steps(
    commands: Seq<Seq<char>>,
    environment: Seq<char>,
    timeout: i32,
) -> Seq<StepView> {
    seq![spec_open_session()] + Seq::new(
        commands.len(),
        |i: int| spec_command_step(commands[i], environment, timeout),
    ) + seq![releasing(OperationView::CloseSession, commands.len())]
}

/// The steps that run `commands` on a host, each with `environment` before
/// it and `timeout` seconds to end in.
pub fn command_steps(commands: &Vec<String>, environment: &str, timeout: i32) -> (steps: Vec<Step>)
    ensures
        steps_view(steps@) == spec_command_steps(texts(commands@), environment@, timeout),
{
    let mut steps: Vec<Step> = Vec::new();
    steps.push(Step::open_session());
    let mut i: usize = 0;
    while i < commands.len()
        invariant
            i <= commands@.len(),
            steps@.len() == i + 1,
            steps@[0]@ == spec_open_session(),
            forall|j: int|
                0 <= j < i ==> (#[trigger] steps@[j + 1])@ == spec_command_step(
                    commands@[j]@,
                    environment@,
                    timeout,
                ),
        decreases commands@.len() - i,
    {
        steps.push(
            Step::ordinary(
                Operation::RunCommand {
                    command: commands[i].clone(),
                    line: command_line(environment, commands[i].as_str()),
                    timeout,
                },
                Policy::Fatal(FailureClass::Command),
            ),
        );
        i += 1;
    }
    steps.push(Step::releasing(Operation::CloseSession, commands.len()));
    proof {
        let spec = spec_command_steps(texts(commands@), environment@, timeout);
        assert forall|j: int| 0 <= j < spec.len() implies steps_view(steps@)[j] == spec[j] by {
            if 1 <= j <= commands@.len() {
                assert(steps@[(j - 1) + 1]@ == spec_command_step(
                    commands@[j - 1]@,
                    environment@,
                    timeout,
                ));
            }
        }
    }
    steps
}

/// A host on which command `k` of a script fails, after the session was
/// opened and the commands before it went through, runs the commands up to
/// `k` and none after it, whatever is reported later. The failure of that
/// command is the host's outcome, and the session is closed.
pub proof fn lemma_failed_command_halts_script(
    host: Seq<char>,
    commands: Seq<Seq<char>>,
    environment: Seq<char>,
    timeout: i32,
    results: Seq<ResultView>,
    k: int,
)
    requires
        1 <= k <= commands.len(),
        k < results.len(),
        forall|i: int| 0 <= i < k ==> !is_failure(#[trigger] results[i]),
        is_failure(results[k]),
    ensures
        ({
            let steps = spec_command_steps(commands, environment, timeout);
            let unit = UnitView::start(host, steps).run(results);
            &&& unit.wf()
            &&& unit.steps == steps
            &&& forall|j: int| 1 <= j <= k ==> unit.performed.contains(j)
            &&& forall|j: int| k < j <= commands.len() ==> !unit.performed.contains(j)
            &&& unit.outcome() == failure_outcome(FailureClass::Command, results[k])
            &&& !(unit.outcome() is Success)
            &&& unit.finished() ==> unit.performed.contains(commands.len() as int + 1)
        }),
{
    let steps = spec_command_steps(commands, environment, timeout);
    lemma_run_with_failure(host, steps, results, k);
    let unit = UnitView::start(host, steps).run(results);
    assert forall|j: int| 1 <= j <= k implies unit.performed.contains(j) by {
        lemma_failure_halts(unit, j);
    }
    assert forall|j: int| k < j <= commands.len() implies !unit.performed.contains(j) by {
        lemma_failure_halts(unit, j);
    }
}

/// A script whose commands all go through on a host runs every one of them
/// in its turn, closes the session, and ends in success.
pub proof fn lemma_script_runs_to_success(
    host: Seq<char>,
    commands: Seq<Seq<char>>,
    environment: Seq<char>,
    timeout: i32,
    results: Seq<ResultView>,
)
    requires
        results.len() == commands.len() + 2,
        forall|i: int| 0 <= i <= commands.len() ==> !is_failure(#[trigger] results[i]),
    ensures
        ({
            let steps = spec_command_steps(commands, environment, timeout);
            let unit = UnitView::start(host, steps).run(results);
            &&& unit.finished()
            &&& unit.outcome() is Success
            &&& forall|j: int| 0 <= j < steps.len() ==> unit.performed.contains(j)
            &&& forall|a: int, b: int|
                0 <= a < b < unit.performed.len() ==> unit.performed[a] < unit.performed[b]
        }),
{
    let steps = spec_command_steps(commands, environment, timeout);
    lemma_run_without_failure(host, steps, results);
}

/// A host that cannot be reached gets the outcome of a failed connection,
/// and nothing is run on it: no command, and no closing of a session that
/// was never opened.
pub proof fn lemma_unreachable_host_runs_nothing(
    host: Seq<char>,
    commands: Seq<Seq<char>>,
    environment: Seq<char>,
    timeout: i32,
    results: Seq<ResultView>,
)
    requires
        results.len() > 0,
        is_failure(results[0]),
    ensures
        ({
            let steps = spec_command_steps(commands, environment, timeout);
            let unit = UnitView::start(host, steps).run(results);
            &&& unit.finished()
            &&& unit.outcome() is ConnectionFailed
            &&& unit.performed == seq![0int]
        }),
{
    let steps = spec_command_steps(commands, environment, timeout);
    lemma_run_with_failure(host, steps, results, 0);
    let unit = UnitView::start(host, steps).run(results);
    assert forall|j: int| 1 <= j < steps.len() implies !unit.performed.contains(j) by {
        if j <= commands.len() {
            lemma_failure_halts(unit, j);
        }
    }
    lemma_failure_halts(unit, 0);
    assert(unit.performed.len() == 1) by {
        if unit.performed.len() > 1 {
            assert(unit.performed.contains(unit.performed[0]));
            assert(unit.performed.contains(unit.performed[1]));
        }
    }
}

/// The session is closed on every way out, and only if it was opened: in
/// finished work the step that closes the session was started unless the
/// session could not be opened.
pub proof fn lemma_script_closes_what_it_opened(
    host: Seq<char>,
    commands: Seq<Seq<char>>,
    environment: Seq<char>,
    timeout: i32,
    results: Seq<ResultView>,
)
    requires
        UnitView::start(host, spec_command_steps(commands, environment, timeout)).run(
            results,
        ).finished(),
    ensures
        ({
            let steps = spec_command_steps(commands, environment, timeout);
            let unit = UnitView::start(host, steps).run(results);
            let session = steps.len() - 1;
            &&& steps[session].operation == OperationView::CloseSession
            &&& unit.performed.contains(session) <==> unit.aborted_at != Some(0int)
        }),
{
    let steps = spec_command_steps(commands, environment, timeout);
    lemma_start_wf(host, steps);
    lemma_run_wf(UnitView::start(host, steps), results);
}

} // verus!
