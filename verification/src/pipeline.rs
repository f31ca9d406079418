//! The steps that carry the files of one source pattern to one host, and
//! those of a whole file mapping.
//!
//! For each pair of a source pattern and a destination directory, in the
//! order of the mapping: the pattern is expanded, the destination and the
//! directories above it are created on the host, the matched files are
//! packed into a local archive, the archive is compressed if that is asked
//! for, written to the host in chunks, unpacked there and removed, and at
//! last removed from the local disk.

use crate::archive::{
    archive_name, fresh_token, is_token, local_path, spec_archive_name, spec_local_path,
    spec_tar_name, spec_zst_name, tar_name, zst_name,
};
use crate::outcome::TransferStage;
use crate::pairs::{OrderedMap, Pair};
use crate::remote::{
    directories_to_create, extract_line, file_in, is_topmost, lemma_parents_come_first,
    path_parent, provisioning_order, remove_line, spec_extract_line, spec_file_in,
    spec_remove_line,
};
use crate::step::{
    ordinary, releasing, spec_open_session, stage_step, steps_view, FailureClass, GlobOptions,
    OpenFlags, Operation, OperationView, Policy, ResultView, Step, StepView,
};
use crate::text::texts;
use crate::unit::{lemma_release_follows, lemma_run_wf, lemma_start_wf, UnitView};
use crate::upload::CHUNK_SIZE;
use vstd::prelude::*;

verus! {

/// The permission bits of a directory that is created on the host: read,
/// write and execute for its owner and its group.
pub const DIRECTORY_MODE: u32 = 0o770;

/// How source patterns are matched: without regard to case, with wildcards
/// that match separators and leading dots.
pub open spec fn spec_glob_options() -> GlobOptions {
    GlobOptions {
        case_sensitive: false,
        require_literal_separator: false,
        require_literal_leading_dot: false,
    }
}

/// How source patterns are matched.
pub fn glob_options() -> (options: GlobOptions)
    ensures
        options == spec_glob_options(),
{
    GlobOptions {
        case_sensitive: false,
        require_literal_separator: false,
        require_literal_leading_dot: false,
    }
}

/// How the archive's file on the host is opened: for reading and writing,
/// created if it is not there, and emptied if it is.
pub open spec fn spec_archive_flags() -> OpenFlags {
    OpenFlags { read: true, write: true, create: true, truncate: true }
}

/// How the archive's file on the host is opened.
pub fn archive_flags() -> (flags: OpenFlags)
    ensures
        flags == spec_archive_flags(),
{
    OpenFlags { read: true, write: true, create: true, truncate: true }
}

/// The step that opens the file channel: the subsystem `sftp` of the session.
pub open spec fn spec_open_channel() -> StepView {
    ordinary(
        OperationView::OpenChannel { subsystem: "sftp"@ },
        Policy::Fatal(FailureClass::Connection),
    )
}

/// The two steps for each directory in `directories`: it is created, which
/// may find it present, and its permission bits are set, which may fail.
pub open spec fn spec_provisioning_steps(directories: Seq<Seq<char>>) -> Seq<StepView> {
    Seq::new(
        2 * directories.len(),
        |i: int|
            if i % 2 == 0 {
                ordinary(
                    OperationView::CreateDirectory { path: directories[i / 2] },
                    Policy::FatalUnlessPresent(FailureClass::Transfer(TransferStage::Provisioning)),
                )
            } else {
                ordinary(
                    OperationView::SetPermissions { path: directories[i / 2], mode: DIRECTORY_MODE },
                    Policy::BestEffort,
                )
            },
    )
}

/// The steps that build the local archive for `token`, compressed or not.
pub open spec fn spec_packing_steps(token: Seq<char>, compress: bool, level: i32) -> Seq<
    StepView,
> {
    let tar = spec_local_path(spec_tar_name(token));
    let build = stage_step(OperationView::BuildArchive { path: tar }, TransferStage::Archive);
    if compress {
        seq![
            build,
            stage_step(
                OperationView::Compress {
                    source: tar,
                    target: spec_local_path(spec_zst_name(token)),
                    level,
                },
                TransferStage::Compress,
            ),
            releasing(OperationView::RemoveLocal { path: tar }, 2),
        ]
    } else {
        seq![build]
    }
}

/// The steps that send the local archive `local` to the file `remote` on
/// the host, unpack it into `destination` and remove it there.
pub open spec fn spec_shipping_steps(
    local: Seq<char>,
    remote: Seq<char>,
    destination: Seq<char>,
) -> Seq<StepView> {
    seq![
        stage_step(
            OperationView::OpenRemote { path: remote, flags: spec_archive_flags() },
            TransferStage::Upload,
        ),
        stage_step(
            OperationView::Upload { source: local, chunk: CHUNK_SIZE },
            TransferStage::Upload,
        ),
        releasing(OperationView::CloseRemote, 1),
        ordinary(
            OperationView::Extract { line: spec_extract_line(remote, destination) },
            Policy::BestEffort,
        ),
        ordinary(
            OperationView::RemoveRemote { line: spec_remove_line(remote) },
            Policy::BestEffort,
        ),
    ]
}

/// The steps that come before the local cleanup of one pair.
pub open spec fn spec_pair_body(
    source: Seq<char>,
    destination: Seq<char>,
    token: Seq<char>,
    compress: bool,
    level: i32,
) -> Seq<StepView> {
    let archive = spec_archive_name(token, compress);
    seq![
        stage_step(
            OperationView::ResolveGlob { pattern: source, options: spec_glob_options() },
            TransferStage::Glob,
        ),
    ] + spec_provisioning_steps(provisioning_order(destination)) + spec_packing_steps(
        token,
        compress,
        level,
    ) + spec_shipping_steps(spec_local_path(archive), spec_file_in(destination, archive), destination)
}

/// The steps for one pair of a source pattern and a destination directory.
///
/// The last step removes the local archive. It runs wherever in the pair
/// the work was ended.
pub open spec fn spec_pair_steps(
    source: Seq<char>,
    destination: Seq<char>,
    token: Seq<char>,
    compress: bool,
    level: i32,
) -> Seq<StepView> {
    let body = spec_pair_body(source, destination, token, compress, level);
    body.push(
        releasing(
            OperationView::RemoveLocal {
                path: spec_local_path(spec_archive_name(token, compress)),
            },
            body.len(),
        ),
    )
}

/// Adds `step` at the end of `steps`.
fn push_step(steps: &mut Vec<Step>, step: Step)
    ensures
        steps_view(final(steps)@) == steps_view(old(steps)@).push(step@),
{
    steps.push(step);
}

/// Adds the steps that create `directories` to `steps`.
fn push_provisioning_steps(steps: &mut Vec<Step>, directories: &Vec<String>)
    ensures
        steps_view(final(steps)@) == steps_view(old(steps)@) + spec_provisioning_steps(
            texts(directories@),
        ),
{
    let ghost before = steps_view(steps@);
    let mut j: usize = 0;
    while j < directories.len()
        invariant
            j <= directories@.len(),
            steps_view(steps@) == before + spec_provisioning_steps(
                texts(directories@).take(j as int),
            ),
        decreases directories@.len() - j,
    {
        push_step(
            steps,
            Step::ordinary(
                Operation::CreateDirectory { path: directories[j].clone() },
                Policy::FatalUnlessPresent(FailureClass::Transfer(TransferStage::Provisioning)),
            ),
        );
        push_step(
            steps,
            Step::ordinary(
                Operation::SetPermissions { path: directories[j].clone(), mode: DIRECTORY_MODE },
                Policy::BestEffort,
            ),
        );
        proof {
            let done = spec_provisioning_steps(texts(directories@).take(j as int));
            let more = spec_provisioning_steps(texts(directories@).take(j + 1));
            assert forall|i: int| 0 <= i < more.len() implies more[i] == (if i < done.len() {
                done[i]
            } else {
                steps_view(steps@)[before.len() + i]
            }) by {
                if i < done.len() {
                    assert(texts(directories@).take(j + 1)[i / 2] == texts(directories@).take(
                        j as int,
                    )[i / 2]);
                }
            }
        }
        j += 1;
    }
}

/// The steps for one pair of a source pattern and a destination directory,
/// with `token` as the random part of the archive's name.
pub fn pair_steps(source: &str, destination: &str, token: &str, compress: bool, level: i32) -> (steps:
    Vec<Step>)
    ensures
        steps_view(steps@) == spec_pair_steps(source@, destination@, token@, compress, level),
{
    let mut steps: Vec<Step> = Vec::new();
    push_pair_steps(&mut steps, source, destination, token, compress, level);
    assert(steps_view(Seq::<Step>::empty()) + spec_pair_steps(
        source@,
        destination@,
        token@,
        compress,
        level,
    ) =~= spec_pair_steps(source@, destination@, token@, compress, level));
    steps
}

/// Adds the steps for one pair to `steps`.
fn push_pair_steps(
    steps: &mut Vec<Step>,
    source: &str,
    destination: &str,
    token: &str,
    compress: bool,
    level: i32,
)
    ensures
        steps_view(final(steps)@) == steps_view(old(steps)@) + spec_pair_steps(
            source@,
            destination@,
            token@,
            compress,
            level,
        ),
{
    let ghost before = steps_view(steps@);
    let start: usize = steps.len();
    let tar = local_path(tar_name(token).as_str());
    let archive = archive_name(token, compress);
    let local = local_path(archive.as_str());
    let remote = file_in(destination, archive.as_str());
    push_step(
        steps,
        Step::stage(
            Operation::ResolveGlob { pattern: source.to_owned(), options: glob_options() },
            TransferStage::Glob,
        ),
    );
    let directories = directories_to_create(destination);
    push_provisioning_steps(steps, &directories);
    push_step(
        steps,
        Step::stage(Operation::BuildArchive { path: tar.clone() }, TransferStage::Archive),
    );
    if compress {
        push_step(
            steps,
            Step::stage(
                Operation::Compress {
                    source: tar.clone(),
                    target: local_path(zst_name(token).as_str()),
                    level,
                },
                TransferStage::Compress,
            ),
        );
        push_step(steps, Step::releasing(Operation::RemoveLocal { path: tar }, 2));
    }
    push_step(
        steps,
        Step::stage(
            Operation::OpenRemote { path: remote.clone(), flags: archive_flags() },
            TransferStage::Upload,
        ),
    );
    push_step(
        steps,
        Step::stage(
            Operation::Upload { source: local.clone(), chunk: CHUNK_SIZE },
            TransferStage::Upload,
        ),
    );
    push_step(steps, Step::releasing(Operation::CloseRemote, 1));
    push_step(
        steps,
        Step::ordinary(
            Operation::Extract { line: extract_line(remote.as_str(), destination) },
            Policy::BestEffort,
        ),
    );
    push_step(
        steps,
        Step::ordinary(
            Operation::RemoveRemote { line: remove_line(remote.as_str()) },
            Policy::BestEffort,
        ),
    );
    let ghost body = spec_pair_body(source@, destination@, token@, compress, level);
    assert(steps_view(steps@) =~= before + body);
    let reach: usize = steps.len() - start;
    push_step(steps, Step::releasing(Operation::RemoveLocal { path: local }, reach));
    assert(steps_view(steps@) =~= before + spec_pair_steps(
        source@,
        destination@,
        token@,
        compress,
        level,
    ));
}

/// The steps for the pairs of `mapping`, in its order, with the random part
/// at `i` of `tokens` for the archive of the pair at `i`.
pub open spec fn spec_mapping_steps(
    mapping: Seq<Pair>,
    tokens: Seq<Seq<char>>,
    compress: bool,
    level: i32,
) -> Seq<StepView>
    decreases mapping.len(),
{
    if mapping.len() == 0 {
        Seq::empty()
    } else {
        spec_mapping_steps(mapping.drop_last(), tokens.drop_last(), compress, level)
            + spec_pair_steps(
            mapping.last().0,
            mapping.last().1,
            tokens.last(),
            compress,
            level,
        )
    }
}

/// The steps that carry the files of `mapping` to one host.
///
/// The session and the file channel are opened first. Each is closed at
/// the end, and also after a failure, if it was opened before.
pub open spec fn spec_transfer_steps(
    mapping: Seq<Pair>,
    tokens: Seq<Seq<char>>,
    compress: bool,
    level: i32,
) -> Seq<StepView> {
    let pairs = spec_mapping_steps(mapping, tokens, compress, level);
    seq![spec_open_session(), spec_open_channel()] + pairs + seq![
        releasing(OperationView::CloseChannel, pairs.len()),
        releasing(OperationView::CloseSession, pairs.len() + 2),
    ]
}

/// Whether `tokens` holds the random parts for `count` archives.
pub open spec fn are_tokens(tokens: Seq<Seq<char>>, count: nat) -> bool {
    &&& tokens.len() == count
    &&& forall|i: int| 0 <= i < tokens.len() ==> is_token(#[trigger] tokens[i])
}

/// Whether `steps` carry the files of `mapping` to one host, with some
/// random parts for the names of the archives.
pub open spec fn is_transfer_plan(
    steps: Seq<StepView>,
    mapping: Seq<Pair>,
    compress: bool,
    level: i32,
) -> bool {
    exists|tokens: Seq<Seq<char>>| #[trigger]
        are_tokens(tokens, mapping.len()) && steps == spec_transfer_steps(
            mapping,
            tokens,
            compress,
            level,
        )
}

/// The steps that carry the files of `mapping` to one host. The random part
/// of each archive's name is drawn anew.
pub fn transfer_steps(mapping: &OrderedMap, compress: bool, level: i32) -> (steps: Vec<Step>)
    ensures
        is_transfer_plan(steps_view(steps@), mapping@, compress, level),
{
    let mut steps: Vec<Step> = Vec::new();
    push_step(
        &mut steps,
        Step::open_session(),
    );
    push_step(
        &mut steps,
        Step::ordinary(
            Operation::OpenChannel { subsystem: String::from_str("sftp") },
            Policy::Fatal(FailureClass::Connection),
        ),
    );
    let ghost head = steps_view(steps@);
    let ghost mut tokens: Seq<Seq<char>> = Seq::empty();
    let mut i: usize = 0;
    while i < mapping.len()
        invariant
            i <= mapping@.len(),
            are_tokens(tokens, i as nat),
            head.len() == 2,
            steps_view(steps@) == head + spec_mapping_steps(
                mapping@.take(i as int),
                tokens,
                compress,
                level,
            ),
        decreases mapping@.len() - i,
    {
        let token = fresh_token();
        match (mapping.key(i), mapping.value(i)) {
            (Some(source), Some(destination)) => {
                push_pair_steps(
                    &mut steps,
                    source.as_str(),
                    destination.as_str(),
                    token.as_str(),
                    compress,
                    level,
                );
            },
            _ => {},
        }
        proof {
            let ghost earlier = tokens;
            tokens = tokens.push(token@);
            assert(tokens.drop_last() =~= earlier);
            assert(mapping@.take(i + 1).drop_last() =~= mapping@.take(i as int));
            assert(steps_view(steps@) =~= head + spec_mapping_steps(
                mapping@.take(i + 1),
                tokens,
                compress,
                level,
            ));
        }
        i += 1;
    }
    assert(mapping@.take(mapping@.len() as int) =~= mapping@);
    let count: usize = steps.len() - 2;
    push_step(&mut steps, Step::releasing(Operation::CloseChannel, count));
    push_step(&mut steps, Step::releasing(Operation::CloseSession, count + 2));
    proof {
        assert(steps_view(steps@) =~= spec_transfer_steps(mapping@, tokens, compress, level));
    }
    steps
}

/// The local file that a step creates, if it creates one.
pub open spec fn creates_local(operation: OperationView) -> Option<Seq<char>> {
    match operation {
        OperationView::BuildArchive { path } => Some(path),
        OperationView::Compress { target, .. } => Some(target),
        _ => None,
    }
}

/// Whether the step at `z` removes the local file that the step at `c`
/// creates, and runs also where the work was ended at `c` or after it.
pub open spec fn removes_after(steps: Seq<StepView>, c: int, z: int) -> bool {
    &&& c < z < steps.len()
    &&& z - c <= steps[z].reach
    &&& creates_local(steps[c].operation) matches Some(path)
    &&& steps[z].operation == (OperationView::RemoveLocal { path })
}

/// Whether every step of `steps` that creates a local file is an ordinary
/// step with a later step that removes the file on every way out.
pub open spec fn cleans_up(steps: Seq<StepView>) -> bool {
    forall|c: int|
        0 <= c < steps.len() && creates_local((#[trigger] steps[c]).operation) is Some
            ==> steps[c].reach == 0 && exists|z: int| removes_after(steps, c, z)
}

/// The steps of one pair remove the local files that they create.
pub proof fn lemma_pair_cleans_up(
    source: Seq<char>,
    destination: Seq<char>,
    token: Seq<char>,
    compress: bool,
    level: i32,
)
    ensures
        cleans_up(spec_pair_steps(source, destination, token, compress, level)),
{
    let steps = spec_pair_steps(source, destination, token, compress, level);
    let built = 1 + spec_provisioning_steps(provisioning_order(destination)).len() as int;
    let last = steps.len() - 1;
    assert forall|c: int|
        0 <= c < steps.len() && creates_local((#[trigger] steps[c]).operation) is Some implies steps[c].reach
        == 0 && exists|z: int| removes_after(steps, c, z) by {
        if c == built && compress {
            assert(removes_after(steps, c, built + 2));
        } else {
            assert(removes_after(steps, c, last));
        }
    }
}

/// Steps that remove the local files that they create still do so when
/// they are put one after the other.
pub proof fn lemma_cleans_up_together(first: Seq<StepView>, second: Seq<StepView>)
    requires
        cleans_up(first),
        cleans_up(second),
    ensures
        cleans_up(first + second),
{
    let both = first + second;
    assert forall|c: int|
        0 <= c < both.len() && creates_local((#[trigger] both[c]).operation) is Some implies both[c].reach
        == 0 && exists|z: int| removes_after(both, c, z) by {
        if c < first.len() {
            let z = choose|z: int| removes_after(first, c, z);
            assert(removes_after(both, c, z));
        } else {
            let d = c - first.len();
            let z = choose|z: int| removes_after(second, d, z);
            assert(removes_after(both, c, z + first.len()));
        }
    }
}

/// The steps of a file mapping remove the local files that they create.
pub proof fn lemma_mapping_cleans_up(
    mapping: Seq<Pair>,
    tokens: Seq<Seq<char>>,
    compress: bool,
    level: i32,
)
    ensures
        cleans_up(spec_mapping_steps(mapping, tokens, compress, level)),
    decreases mapping.len(),
{
    if mapping.len() > 0 {
        lemma_mapping_cleans_up(mapping.drop_last(), tokens.drop_last(), compress, level);
        lemma_pair_cleans_up(mapping.last().0, mapping.last().1, tokens.last(), compress, level);
        lemma_cleans_up_together(
            spec_mapping_steps(mapping.drop_last(), tokens.drop_last(), compress, level),
            spec_pair_steps(mapping.last().0, mapping.last().1, tokens.last(), compress, level),
        );
    }
}

/// The steps of a transfer remove the local files that they create.
pub proof fn lemma_transfer_cleans_up(
    mapping: Seq<Pair>,
    tokens: Seq<Seq<char>>,
    compress: bool,
    level: i32,
)
    ensures
        cleans_up(spec_transfer_steps(mapping, tokens, compress, level)),
{
    let pairs = spec_mapping_steps(mapping, tokens, compress, level);
    let head = seq![spec_open_session(), spec_open_channel()];
    let tail = seq![
        releasing(OperationView::CloseChannel, pairs.len()),
        releasing(OperationView::CloseSession, pairs.len() + 2),
    ];
    lemma_mapping_cleans_up(mapping, tokens, compress, level);
    lemma_cleans_up_together(head, pairs);
    lemma_cleans_up_together(head + pairs, tail);
}

/// No local archive outlasts the work on it: each step that creates a
/// local file has a later step that removes the file, and whatever results
/// come in, once the work of a host has moved past that step, and so when
/// it is finished, the step was started after the one that created the
/// file, if that one was started at all.
pub proof fn lemma_local_archives_are_removed(
    host: Seq<char>,
    mapping: Seq<Pair>,
    tokens: Seq<Seq<char>>,
    compress: bool,
    level: i32,
    results: Seq<ResultView>,
    c: int,
)
    requires
        0 <= c < spec_transfer_steps(mapping, tokens, compress, level).len(),
        creates_local(spec_transfer_steps(mapping, tokens, compress, level)[c].operation)
            is Some,
    ensures
        ({
            let steps = spec_transfer_steps(mapping, tokens, compress, level);
            let unit = UnitView::start(host, steps).run(results);
            exists|z: int|
                {
                    &&& #[trigger] removes_after(steps, c, z)
                    &&& (unit.finished() || z < unit.cursor) && unit.performed.contains(c)
                        ==> exists|a: int, b: int|
                        0 <= a < b < unit.performed.len() && unit.performed[a] == c
                            && unit.performed[b] == z
                }
        }),
{
    let steps = spec_transfer_steps(mapping, tokens, compress, level);
    lemma_start_wf(host, steps);
    lemma_run_wf(UnitView::start(host, steps), results);
    lemma_transfer_cleans_up(mapping, tokens, compress, level);
    let unit = UnitView::start(host, steps).run(results);
    let z = choose|z: int| removes_after(steps, c, z);
    if (unit.finished() || z < unit.cursor) && unit.performed.contains(c) {
        lemma_release_follows(unit, c, z);
    }
}

/// Provisioning creates the destination and every directory above it, up
/// to the root, and no directory before its parent: the steps of a pair
/// create the directories of `provisioning_order(destination)` in that
/// order and no others, and each created directory is the topmost one or
/// has its parent created by an earlier step.
pub proof fn lemma_directories_created_parent_first(
    source: Seq<char>,
    destination: Seq<char>,
    token: Seq<char>,
    compress: bool,
    level: i32,
)
    ensures
        ({
            let steps = spec_pair_steps(source, destination, token, compress, level);
            let order = provisioning_order(destination);
            &&& forall|j: int|
                0 <= j < order.len() ==> (#[trigger] steps[1 + 2 * j]).operation == (
                OperationView::CreateDirectory { path: order[j] })
            &&& forall|i: int|
                0 <= i < steps.len() && (#[trigger] steps[i]).operation is CreateDirectory ==> i % 2
                    == 1 && i < 1 + 2 * order.len()
            &&& forall|i: int|
                0 <= i < steps.len() ==> ((#[trigger] steps[i]).operation matches OperationView::CreateDirectory {
                    path,
                } ==> is_topmost(path) || exists|h: int|
                    0 <= h < i && steps[h].operation == (OperationView::CreateDirectory {
                        path: path_parent(path)->0,
                    }))
        }),
{
    let steps = spec_pair_steps(source, destination, token, compress, level);
    let order = provisioning_order(destination);
    let provisioning = spec_provisioning_steps(order);
    let packing = spec_packing_steps(token, compress, level);
    let m = provisioning.len() as int;
    lemma_parents_come_first(destination);
    assert forall|j: int| 0 <= j < order.len() implies (#[trigger] steps[1 + 2 * j]).operation == (
    OperationView::CreateDirectory { path: order[j] }) by {
        assert(steps[1 + 2 * j] == provisioning[2 * j]);
    }
    assert forall|i: int|
        0 <= i < steps.len() && (#[trigger] steps[i]).operation is CreateDirectory implies i % 2 == 1
        && i < 1 + 2 * order.len() by {
        if 1 <= i < 1 + m {
            assert(steps[i] == provisioning[i - 1]);
        } else if 1 + m <= i < 1 + m + packing.len() {
            assert(steps[i] == packing[i - 1 - m]);
        }
    }
    assert forall|i: int| 0 <= i < steps.len() implies ((#[trigger] steps[i]).operation matches OperationView::CreateDirectory {
        path,
    } ==> is_topmost(path) || exists|h: int|
        0 <= h < i && steps[h].operation == (OperationView::CreateDirectory {
            path: path_parent(path)->0,
        })) by {
        if steps[i].operation is CreateDirectory {
            let j = (i - 1) / 2;
            assert(i == 1 + 2 * j);
            assert(steps[1 + 2 * j].operation == (OperationView::CreateDirectory {
                path: order[j],
            }));
            if j > 0 {
                assert(path_parent(order[j]) == Some(order[j - 1]));
                assert(steps[1 + 2 * (j - 1)].operation == (OperationView::CreateDirectory {
                    path: order[j - 1],
                }));
            }
        }
    }
}

/// Whether no step of `steps` releases anything from before the first of them.
pub open spec fn stays_within(steps: Seq<StepView>) -> bool {
    forall|i: int| 0 <= i < steps.len() ==> (#[trigger] steps[i]).reach <= i
}

/// The steps of one pair release nothing from before the pair.
pub proof fn lemma_pair_stays_within(
    source: Seq<char>,
    destination: Seq<char>,
    token: Seq<char>,
    compress: bool,
    level: i32,
)
    ensures
        stays_within(spec_pair_steps(source, destination, token, compress, level)),
{
}

/// Steps that release nothing from before them still do not when other
/// such steps come first.
pub proof fn lemma_stays_within_together(first: Seq<StepView>, second: Seq<StepView>)
    requires
        stays_within(first),
        stays_within(second),
    ensures
        stays_within(first + second),
{
}

/// The steps of a file mapping release nothing from before them.
pub proof fn lemma_mapping_stays_within(
    mapping: Seq<Pair>,
    tokens: Seq<Seq<char>>,
    compress: bool,
    level: i32,
)
    ensures
        stays_within(spec_mapping_steps(mapping, tokens, compress, level)),
    decreases mapping.len(),
{
    if mapping.len() > 0 {
        lemma_mapping_stays_within(mapping.drop_last(), tokens.drop_last(), compress, level);
        lemma_pair_stays_within(
            mapping.last().0,
            mapping.last().1,
            tokens.last(),
            compress,
            level,
        );
        lemma_stays_within_together(
            spec_mapping_steps(mapping.drop_last(), tokens.drop_last(), compress, level),
            spec_pair_steps(mapping.last().0, mapping.last().1, tokens.last(), compress, level),
        );
    }
}

/// The steps of a file mapping are those of its first `k` pairs, followed
/// by those of the others.
pub proof fn lemma_mapping_steps_split(
    mapping: Seq<Pair>,
    tokens: Seq<Seq<char>>,
    compress: bool,
    level: i32,
    k: int,
)
    requires
        tokens.len() == mapping.len(),
        0 <= k <= mapping.len(),
    ensures
        spec_mapping_steps(mapping, tokens, compress, level) == spec_mapping_steps(
            mapping.take(k),
            tokens.take(k),
            compress,
            level,
        ) + spec_mapping_steps(mapping.skip(k), tokens.skip(k), compress, level),
    decreases mapping.len(),
{
    if k == mapping.len() {
        assert(mapping.take(k) =~= mapping);
        assert(tokens.take(k) =~= tokens);
    } else {
        let shorter = mapping.drop_last();
        let fewer = tokens.drop_last();
        lemma_mapping_steps_split(shorter, fewer, compress, level, k);
        assert(shorter.take(k) =~= mapping.take(k));
        assert(fewer.take(k) =~= tokens.take(k));
        assert(mapping.skip(k).drop_last() =~= shorter.skip(k));
        assert(tokens.skip(k).drop_last() =~= fewer.skip(k));
    }
}

/// A failure ends the work on the pairs that follow: once the work of a
/// host was ended before or within the first `k` pairs of the mapping, no
/// step of a later pair is ever started.
pub proof fn lemma_failure_skips_later_pairs(
    host: Seq<char>,
    mapping: Seq<Pair>,
    tokens: Seq<Seq<char>>,
    compress: bool,
    level: i32,
    results: Seq<ResultView>,
    k: int,
    i: int,
)
    requires
        tokens.len() == mapping.len(),
        0 <= k <= mapping.len(),
        ({
            let steps = spec_transfer_steps(mapping, tokens, compress, level);
            let unit = UnitView::start(host, steps).run(results);
            let first = spec_mapping_steps(mapping.take(k), tokens.take(k), compress, level);
            let all = spec_mapping_steps(mapping, tokens, compress, level);
            &&& unit.aborted_at matches Some(f) && f < 2 + first.len()
            &&& 2 + first.len() <= i < 2 + all.len()
        }),
    ensures
        !UnitView::start(host, spec_transfer_steps(mapping, tokens, compress, level)).run(
            results,
        ).performed.contains(i),
{
    let steps = spec_transfer_steps(mapping, tokens, compress, level);
    lemma_start_wf(host, steps);
    lemma_run_wf(UnitView::start(host, steps), results);
    lemma_mapping_steps_split(mapping, tokens, compress, level, k);
    lemma_mapping_stays_within(mapping.skip(k), tokens.skip(k), compress, level);
}

/// The session and the file channel are closed on every way out, and only
/// if they were opened: in finished work the step that closes the session
/// was started unless the session could not be opened, and the step that
/// closes the channel was started unless the session or the channel could
/// not be opened.
pub proof fn lemma_transfer_closes_what_it_opened(
    host: Seq<char>,
    mapping: Seq<Pair>,
    tokens: Seq<Seq<char>>,
    compress: bool,
    level: i32,
    results: Seq<ResultView>,
)
    requires
        UnitView::start(host, spec_transfer_steps(mapping, tokens, compress, level)).run(
            results,
        ).finished(),
    ensures
        ({
            let steps = spec_transfer_steps(mapping, tokens, compress, level);
            let unit = UnitView::start(host, steps).run(results);
            let channel = steps.len() - 2;
            let session = steps.len() - 1;
            &&& steps[channel].operation == OperationView::CloseChannel
            &&& steps[session].operation == OperationView::CloseSession
            &&& unit.performed.contains(session) <==> unit.aborted_at != Some(0int)
            &&& unit.performed.contains(channel) <==> unit.aborted_at != Some(0int)
                && unit.aborted_at != Some(1int)
        }),
{
    let steps = spec_transfer_steps(mapping, tokens, compress, level);
    lemma_start_wf(host, steps);
    lemma_run_wf(UnitView::start(host, steps), results);
}

} // verus!
