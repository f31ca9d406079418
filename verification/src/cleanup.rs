//! The local files of a transfer, and why none of them remains.
//!
//! A step that builds or compresses an archive leaves a file on the local
//! disk, whether it goes through or not. A step that removes a local file
//! takes it away if it goes through. The files that are there after some
//! results have come in follow from that; where every removal that was
//! started went through, finished work leaves no file behind.

use crate::pairs::Pair;
use crate::pipeline::{
    cleans_up, creates_local, lemma_transfer_cleans_up, removes_after, spec_transfer_steps,
};
use crate::step::{is_failure, OperationView, ResultView, StepView};
use crate::unit::{
    lemma_advance_wf, lemma_next_from, lemma_run_wf, lemma_start_wf, runs_after, UnitView,
};
use vstd::prelude::*;

verus! {

/// The local files after a step with `operation` has got `result`, where
/// `files` were there before.
pub open spec fn after_step(
    files: Set<Seq<char>>,
    operation: OperationView,
    result: ResultView,
) -> Set<Seq<char>> {
    match operation {
        OperationView::BuildArchive { path } => files.insert(path),
        OperationView::Compress { target, .. } => files.insert(target),
        OperationView::RemoveLocal { path } => if is_failure(result) {
            files
        } else {
            files.remove(path)
        },
        _ => files,
    }
}

/// The local files after the results in `results` have come in, one by one,
/// each for the step that awaited it.
pub open spec fn local_files(start: UnitView, results: Seq<ResultView>) -> Set<Seq<char>>
    decreases results.len(),
{
    if results.len() == 0 {
        Set::empty()
    } else {
        let before = start.run(results.drop_last());
        let files = local_files(start, results.drop_last());
        if before.finished() {
            files
        } else {
            after_step(files, before.steps[before.cursor].operation, results.last())
        }
    }
}

/// Whether every removal of a local file that awaited a result in
/// `results` went through.
pub open spec fn removals_succeed(start: UnitView, results: Seq<ResultView>) -> bool {
    forall|t: int|
        0 <= t < results.len() ==> {
            let before = #[trigger] start.run(results.take(t));
            !before.finished() && before.steps[before.cursor].operation is RemoveLocal
                ==> !is_failure(results[t])
        }
}

/// Whether the file `path` was created by a step of `unit` that was
/// started, and the step that removes it is still to come.
pub open spec fn awaits_removal(unit: UnitView, path: Seq<char>) -> bool {
    exists|c: int, z: int|
        {
            &&& 0 <= c < unit.cursor
            &&& unit.performed.contains(c)
            &&& unit.steps[c].reach == 0
            &&& creates_local(unit.steps[c].operation) == Some(path)
            &&& #[trigger] removes_after(unit.steps, c, z)
            &&& unit.cursor <= z
        }
}

/// Every local file that is there has its removal still to come.
proof fn lemma_files_await_removal(host: Seq<char>, steps: Seq<StepView>, results: Seq<ResultView>)
    requires
        cleans_up(steps),
        removals_succeed(UnitView::start(host, steps), results),
    ensures
        forall|path: Seq<char>|
            local_files(UnitView::start(host, steps), results).contains(path) ==> awaits_removal(
                UnitView::start(host, steps).run(results),
                path,
            ),
    decreases results.len(),
{
    let start = UnitView::start(host, steps);
    lemma_start_wf(host, steps);
    if results.len() > 0 {
        let front = results.drop_last();
        let result = results.last();
        assert forall|t: int| 0 <= t < front.len() implies {
            let before = #[trigger] start.run(front.take(t));
            !before.finished() && before.steps[before.cursor].operation is RemoveLocal
                ==> !is_failure(front[t])
        } by {
            assert(front.take(t) =~= results.take(t));
        }
        lemma_files_await_removal(host, steps, front);
        lemma_run_wf(start, front);
        let before = start.run(front);
        let files = local_files(start, front);
        if !before.finished() {
            let i = before.cursor;
            let unit = before.advance(result);
            lemma_advance_wf(before, result);
            lemma_next_from(steps, unit.aborted_at, i + 1);
            assert(results.take(front.len() as int) =~= front);
            assert forall|path: Seq<char>|
                local_files(start, results).contains(path) implies awaits_removal(unit, path) by {
                if files.contains(path) && !(steps[i].operation == (OperationView::RemoveLocal {
                    path,
                }) && !is_failure(result)) {
                    let (c, z) = choose|c: int, z: int|
                        {
                            &&& 0 <= c < before.cursor
                            &&& before.performed.contains(c)
                            &&& before.steps[c].reach == 0
                            &&& creates_local(before.steps[c].operation) == Some(path)
                            &&& #[trigger] removes_after(before.steps, c, z)
                            &&& before.cursor <= z
                        };
                    assert(before.due(c));
                    assert(z != i);
                    lemma_stays_started(before, result, c);
                    assert(runs_after(steps, unit.aborted_at, z));
                    assert(unit.cursor <= z);
                } else {
                    assert(creates_local(steps[i].operation) == Some(path));
                    assert(before.due(i));
                    let z = choose|z: int| removes_after(steps, i, z);
                    lemma_stays_started(before, result, i);
                    assert(runs_after(steps, unit.aborted_at, z));
                    assert(unit.cursor <= z);
                }
            }
        }
    }
}

/// A step that was started stays so.
proof fn lemma_stays_started(unit: UnitView, result: ResultView, i: int)
    requires
        unit.performed.contains(i),
    ensures
        unit.advance(result).performed.contains(i),
{
    let k = choose|k: int| 0 <= k < unit.performed.len() && unit.performed[k] == i;
    assert(unit.advance(result).performed[k] == i);
}

/// No local file outlasts the work of a host: whatever results come in,
/// when the work is finished and every removal of a local file that was
/// started went through, no local file is left of it.
pub proof fn lemma_no_local_file_remains(
    host: Seq<char>,
    mapping: Seq<Pair>,
    tokens: Seq<Seq<char>>,
    compress: bool,
    level: i32,
    results: Seq<ResultView>,
)
    requires
        ({
            let start = UnitView::start(
                host,
                spec_transfer_steps(mapping, tokens, compress, level),
            );
            start.run(results).finished() && removals_succeed(start, results)
        }),
    ensures
        local_files(
            UnitView::start(host, spec_transfer_steps(mapping, tokens, compress, level)),
            results,
        ) == Set::<Seq<char>>::empty(),
{
    let steps = spec_transfer_steps(mapping, tokens, compress, level);
    let start = UnitView::start(host, steps);
    lemma_transfer_cleans_up(mapping, tokens, compress, level);
    lemma_files_await_removal(host, steps, results);
    lemma_start_wf(host, steps);
    lemma_run_wf(start, results);
    assert forall|path: Seq<char>| !local_files(start, results).contains(path) by {
        if local_files(start, results).contains(path) {
            assert(awaits_removal(start.run(results), path));
        }
    }
    assert(local_files(start, results) =~= Set::<Seq<char>>::empty());
}

} // verus!
