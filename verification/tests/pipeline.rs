use drone_teleport::config::state::{Config, SubCommand};
use drone_teleport::config::transfer::TransferConfig;
use drone_teleport::error::ConfigError;
use drone_teleport::outcome::{ExecutionOutcome, TransferStage};
use drone_teleport::pairs::OrderedMap;
use drone_teleport::pipeline::{archive_flags, glob_options, pair_steps, transfer_steps, DIRECTORY_MODE};
use drone_teleport::step::{FailureClass, GlobOptions, OpenFlags, Operation, Policy, Step, StepResult};
use drone_teleport::unit::HostUnit;

const TOKEN: &str = "AbCdEfGh12345678";

fn transfer_of(files: &str, compress: bool) -> TransferConfig {
    TransferConfig { files: vec![String::from(files)], compress, compress_level: 13 }
}

fn run_on(hosts: Vec<&str>, transfer: &TransferConfig) -> Config {
    Config {
        cmd: SubCommand::Transfer(transfer.clone()),
        username: String::from("bot"),
        hosts: hosts.into_iter().map(String::from).collect(),
        proxy: String::from("proxy.example.com:443"),
        cluster: String::from("main"),
        port: 3022,
        data_path: String::from("/var/lib/bot"),
        debug: true,
        timeout: 120,
    }
}

fn failed(cause: &str) -> StepResult {
    StepResult::Failed { cause: String::from(cause) }
}

fn stage(operation: Operation, stage: TransferStage) -> Step {
    Step { operation, policy: Policy::Fatal(FailureClass::Transfer(stage)), reach: 0 }
}

fn best_effort(operation: Operation, reach: usize) -> Step {
    Step { operation, policy: Policy::BestEffort, reach }
}

fn text(s: &str) -> String {
    String::from(s)
}

/// The plan of a host for one pair, with the session and the channel around it.
fn plan_of(source: &str, destination: &str, compress: bool) -> Vec<Step> {
    let mut steps = vec![
        Step { operation: Operation::OpenSession, policy: Policy::Fatal(FailureClass::Connection), reach: 0 },
        Step {
            operation: Operation::OpenChannel { subsystem: text("sftp") },
            policy: Policy::Fatal(FailureClass::Connection),
            reach: 0,
        },
    ];
    let pair = pair_steps(source, destination, TOKEN, compress, 13);
    let count = pair.len();
    steps.extend(pair);
    steps.push(best_effort(Operation::CloseChannel, count));
    steps.push(best_effort(Operation::CloseSession, count + 2));
    steps
}

/// Runs `steps` with every step completing, but for the step at `failing`,
/// which gets `result`.
fn run_with(steps: Vec<Step>, failing: usize, result: StepResult) -> HostUnit {
    let mut unit = HostUnit::new(text("alpha"), steps);
    while let Some(index) = unit.position() {
        let outcome = if index == failing { result.clone() } else { StepResult::Completed };
        unit = unit.advance(outcome);
    }
    unit
}

/// Whether every started step that creates a local file is followed by a
/// started step that removes that file.
fn local_files_are_removed(unit: &HostUnit) -> bool {
    let performed = unit.performed();
    performed.iter().enumerate().all(|(at, index)| {
        let created = match &unit.step(*index).unwrap().operation {
            Operation::BuildArchive { path } => Some(path.clone()),
            Operation::Compress { target, .. } => Some(target.clone()),
            _ => None,
        };
        match created {
            None => true,
            Some(path) => performed[at + 1..].iter().any(|later| {
                unit.step(*later).unwrap().operation == Operation::RemoveLocal { path: path.clone() }
            }),
        }
    })
}

#[test]
fn pair_steps_with_compression() {
    let steps = pair_steps("./fixtures/*.txt", "/tmp/dest", TOKEN, true, 13);
    let expected = vec![
        stage(
            Operation::ResolveGlob {
                pattern: text("./fixtures/*.txt"),
                options: GlobOptions {
                    case_sensitive: false,
                    require_literal_separator: false,
                    require_literal_leading_dot: false,
                },
            },
            TransferStage::Glob,
        ),
        Step {
            operation: Operation::CreateDirectory { path: text("/tmp") },
            policy: Policy::FatalUnlessPresent(FailureClass::Transfer(TransferStage::Provisioning)),
            reach: 0,
        },
        best_effort(Operation::SetPermissions { path: text("/tmp"), mode: 0o770 }, 0),
        Step {
            operation: Operation::CreateDirectory { path: text("/tmp/dest") },
            policy: Policy::FatalUnlessPresent(FailureClass::Transfer(TransferStage::Provisioning)),
            reach: 0,
        },
        best_effort(Operation::SetPermissions { path: text("/tmp/dest"), mode: 0o770 }, 0),
        stage(Operation::BuildArchive { path: text("/tmp/AbCdEfGh12345678.tar") }, TransferStage::Archive),
        stage(
            Operation::Compress {
                source: text("/tmp/AbCdEfGh12345678.tar"),
                target: text("/tmp/AbCdEfGh12345678.tar.zst"),
                level: 13,
            },
            TransferStage::Compress,
        ),
        best_effort(Operation::RemoveLocal { path: text("/tmp/AbCdEfGh12345678.tar") }, 2),
        stage(
            Operation::OpenRemote {
                path: text("/tmp/dest/AbCdEfGh12345678.tar.zst"),
                flags: OpenFlags { read: true, write: true, create: true, truncate: true },
            },
            TransferStage::Upload,
        ),
        stage(
            Operation::Upload { source: text("/tmp/AbCdEfGh12345678.tar.zst"), chunk: 65536 },
            TransferStage::Upload,
        ),
        best_effort(Operation::CloseRemote, 1),
        best_effort(
            Operation::Extract {
                line: text("tar -xf /tmp/dest/AbCdEfGh12345678.tar.zst -C /tmp/dest"),
            },
            0,
        ),
        best_effort(Operation::RemoveRemote { line: text("rm /tmp/dest/AbCdEfGh12345678.tar.zst") }, 0),
        best_effort(Operation::RemoveLocal { path: text("/tmp/AbCdEfGh12345678.tar.zst") }, 13),
    ];
    assert_eq!(steps, expected);
}

#[test]
fn pair_steps_without_compression() {
    let steps = pair_steps("build/**", "/srv", TOKEN, false, 3);
    let operations: Vec<Operation> = steps.iter().map(|step| step.operation.clone()).collect();
    assert_eq!(
        operations,
        vec![
            Operation::ResolveGlob { pattern: text("build/**"), options: glob_options() },
            Operation::CreateDirectory { path: text("/srv") },
            Operation::SetPermissions { path: text("/srv"), mode: DIRECTORY_MODE },
            Operation::BuildArchive { path: text("/tmp/AbCdEfGh12345678.tar") },
            Operation::OpenRemote { path: text("/srv/AbCdEfGh12345678.tar"), flags: archive_flags() },
            Operation::Upload { source: text("/tmp/AbCdEfGh12345678.tar"), chunk: 65536 },
            Operation::CloseRemote,
            Operation::Extract { line: text("tar -xf /srv/AbCdEfGh12345678.tar -C /srv") },
            Operation::RemoveRemote { line: text("rm /srv/AbCdEfGh12345678.tar") },
            Operation::RemoveLocal { path: text("/tmp/AbCdEfGh12345678.tar") },
        ]
    );
    assert_eq!(steps[9].reach, 9);
}

#[test]
fn directories_are_created_parent_first() {
    let steps = pair_steps("*", "/var/www/site/releases", TOKEN, false, 1);
    let created: Vec<String> = steps
        .iter()
        .filter_map(|step| match &step.operation {
            Operation::CreateDirectory { path } => Some(path.clone()),
            _ => None,
        })
        .collect();
    assert_eq!(created, vec!["/var", "/var/www", "/var/www/site", "/var/www/site/releases"]);
}

#[test]
fn destination_at_the_root_needs_no_directory() {
    let steps = pair_steps("*", "/", TOKEN, false, 1);
    assert!(steps.iter().all(|step| !matches!(step.operation, Operation::CreateDirectory { .. })));
    assert_eq!(
        steps[2].operation,
        Operation::OpenRemote { path: text("//AbCdEfGh12345678.tar"), flags: archive_flags() }
    );
}

#[test]
fn compressed_transfer_runs_every_stage() {
    let transfer = transfer_of("[{\"src\": \"./fixtures/*.txt\", \"dst\": \"/tmp/dest\"}]", true);
    let cfg = run_on(vec!["alpha"], &transfer);
    let mut units = transfer.transfer(&cfg).unwrap();
    assert_eq!(units.len(), 1);
    let mut unit = units.remove(0);
    assert_eq!(unit.host(), "alpha");
    assert_eq!(unit.len(), 18);

    let local = match &unit.step(8).unwrap().operation {
        Operation::Compress { source, target, level } => {
            assert_eq!(*level, 13);
            assert_eq!(format!("{}.zst", source), *target);
            target.clone()
        }
        other => panic!("unexpected step: {:?}", other),
    };
    assert!(local.starts_with("/tmp/") && local.ends_with(".tar.zst"));
    let name = &local[5..];
    let remote = format!("/tmp/dest/{}", name);

    let mut started = Vec::new();
    while let Some(operation) = unit.pending() {
        started.push(operation.clone());
        unit = unit.advance(StepResult::Completed);
    }
    assert_eq!(started.len(), 18);
    assert_eq!(started[0], Operation::OpenSession);
    assert_eq!(started[1], Operation::OpenChannel { subsystem: text("sftp") });
    assert_eq!(started[10], Operation::OpenRemote { path: remote.clone(), flags: archive_flags() });
    assert_eq!(started[11], Operation::Upload { source: local.clone(), chunk: 65536 });
    assert_eq!(
        started[13],
        Operation::Extract { line: format!("tar -xf {} -C /tmp/dest", remote) }
    );
    assert_eq!(started[14], Operation::RemoveRemote { line: format!("rm {}", remote) });
    assert_eq!(started[15], Operation::RemoveLocal { path: local });
    assert_eq!(started[16], Operation::CloseChannel);
    assert_eq!(started[17], Operation::CloseSession);
    assert_eq!(unit.outcome(), ExecutionOutcome::Success);
    assert!(local_files_are_removed(&unit));
}

#[test]
fn failed_compression_removes_both_local_files() {
    let unit = run_with(plan_of("*.txt", "/tmp/dest", true), 8, failed("disk full"));
    assert_eq!(unit.performed(), &vec![0, 1, 2, 3, 4, 5, 6, 7, 8, 9, 15, 16, 17]);
    assert_eq!(
        unit.outcome(),
        ExecutionOutcome::TransferFailed { stage: TransferStage::Compress, cause: text("disk full") }
    );
    assert_eq!(unit.outcome().exit_status(), 8);
    assert!(local_files_are_removed(&unit));
}

#[test]
fn failed_upload_closes_the_remote_file_and_leaves_it() {
    let unit = run_with(plan_of("*.txt", "/tmp/dest", true), 11, failed("connection lost"));
    assert_eq!(unit.performed(), &vec![0, 1, 2, 3, 4, 5, 6, 7, 8, 9, 10, 11, 12, 15, 16, 17]);
    assert_eq!(
        unit.outcome(),
        ExecutionOutcome::TransferFailed { stage: TransferStage::Upload, cause: text("connection lost") }
    );
    assert_eq!(unit.outcome().exit_status(), 9);
}

#[test]
fn remote_file_that_cannot_be_opened_is_not_closed() {
    let unit = run_with(plan_of("*.txt", "/tmp/dest", true), 10, failed("permission denied"));
    assert_eq!(unit.performed(), &vec![0, 1, 2, 3, 4, 5, 6, 7, 8, 9, 10, 15, 16, 17]);
    assert_eq!(
        unit.outcome(),
        ExecutionOutcome::TransferFailed { stage: TransferStage::Upload, cause: text("permission denied") }
    );
}

#[test]
fn failed_archive_is_removed() {
    let unit = run_with(plan_of("*.txt", "/tmp/dest", false), 7, failed("unreadable file"));
    assert_eq!(unit.performed(), &vec![0, 1, 2, 3, 4, 5, 6, 7, 13, 14, 15]);
    assert_eq!(
        unit.outcome(),
        ExecutionOutcome::TransferFailed { stage: TransferStage::Archive, cause: text("unreadable file") }
    );
    assert_eq!(unit.outcome().exit_status(), 7);
    assert!(local_files_are_removed(&unit));
}

#[test]
fn failed_pattern_ends_the_pair() {
    let unit = run_with(plan_of("[", "/tmp/dest", false), 2, failed("bad pattern"));
    assert_eq!(unit.performed(), &vec![0, 1, 2, 13, 14, 15]);
    assert_eq!(
        unit.outcome(),
        ExecutionOutcome::TransferFailed { stage: TransferStage::Glob, cause: text("bad pattern") }
    );
    assert_eq!(unit.outcome().exit_status(), 5);
}

#[test]
fn directory_that_is_present_is_tolerated() {
    let unit = run_with(plan_of("*.txt", "/tmp/dest", false), 3, StepResult::AlreadyPresent);
    assert_eq!(unit.performed().len(), 16);
    assert_eq!(unit.outcome(), ExecutionOutcome::Success);
}

#[test]
fn directory_that_cannot_be_created_ends_the_pair() {
    let unit = run_with(plan_of("*.txt", "/tmp/dest", false), 5, failed("read-only file system"));
    assert_eq!(unit.performed(), &vec![0, 1, 2, 3, 4, 5, 13, 14, 15]);
    assert_eq!(
        unit.outcome(),
        ExecutionOutcome::TransferFailed {
            stage: TransferStage::Provisioning,
            cause: text("read-only file system")
        }
    );
    assert_eq!(unit.outcome().exit_status(), 6);
}

#[test]
fn permissions_that_cannot_be_set_are_passed_over() {
    let unit = run_with(plan_of("*.txt", "/tmp/dest", false), 4, failed("not owner"));
    assert_eq!(unit.performed().len(), 16);
    assert_eq!(unit.outcome(), ExecutionOutcome::Success);
}

#[test]
fn failed_extraction_does_not_end_the_pair() {
    let unit = run_with(plan_of("*.txt", "/tmp/dest", false), 11, failed("tar: not found"));
    assert_eq!(unit.performed().len(), 16);
    assert_eq!(unit.aborted_at(), None);
    assert_eq!(unit.outcome(), ExecutionOutcome::Success);
}

#[test]
fn failed_cleanups_do_not_end_the_pair() {
    for index in [12, 13, 14, 15] {
        let unit = run_with(plan_of("*.txt", "/tmp/dest", false), index, failed("gone"));
        assert_eq!(unit.performed().len(), 16);
        assert_eq!(unit.outcome(), ExecutionOutcome::Success);
    }
}

#[test]
fn channel_that_cannot_be_opened_closes_the_session() {
    let unit = run_with(plan_of("*.txt", "/tmp/dest", true), 1, failed("subsystem refused"));
    assert_eq!(unit.performed(), &vec![0, 1, 17]);
    assert_eq!(
        unit.outcome(),
        ExecutionOutcome::ConnectionFailed { cause: text("subsystem refused") }
    );
}

#[test]
fn unreachable_host_starts_no_transfer() {
    let unit = run_with(plan_of("*.txt", "/tmp/dest", true), 0, failed("no route to host"));
    assert_eq!(unit.performed(), &vec![0]);
    assert_eq!(unit.outcome(), ExecutionOutcome::ConnectionFailed { cause: text("no route to host") });
    assert_eq!(unit.outcome().exit_status(), 3);
}

#[test]
fn local_files_are_removed_wherever_the_work_ends() {
    for compress in [false, true] {
        let count = plan_of("*.txt", "/a/b", compress).len();
        for failing in 0..count {
            for result in [failed("x"), StepResult::TimedOut, StepResult::AlreadyPresent] {
                let unit = run_with(plan_of("*.txt", "/a/b", compress), failing, result);
                assert!(unit.is_finished());
                assert!(local_files_are_removed(&unit));
            }
        }
    }
}

#[test]
fn failure_in_one_pair_skips_the_pairs_after_it() {
    let mapping = OrderedMap::new()
        .insert(text("a/*"), text("/one"))
        .insert(text("b/*"), text("/two"));
    let steps = transfer_steps(&mapping, false, 1);
    assert_eq!(steps.len(), 2 + 10 + 10 + 2);
    assert_eq!(
        steps[2].operation,
        Operation::ResolveGlob { pattern: text("a/*"), options: glob_options() }
    );
    assert_eq!(
        steps[12].operation,
        Operation::ResolveGlob { pattern: text("b/*"), options: glob_options() }
    );
    let unit = run_with(steps, 7, failed("connection lost"));
    assert_eq!(unit.performed(), &vec![0, 1, 2, 3, 4, 5, 6, 7, 8, 11, 22, 23]);
}

#[test]
fn pairs_are_sent_in_the_order_of_the_mapping() {
    let transfer = transfer_of(
        "[{\"src\": \"z/*\", \"dst\": \"/z\"}, {\"src\": \"a/*\", \"dst\": \"/a\"}, {\"src\": \"m/*\", \"dst\": \"/m\"}]",
        false,
    );
    let cfg = run_on(vec!["alpha", "beta"], &transfer);
    let units = transfer.transfer(&cfg).unwrap();
    assert_eq!(units.len(), 2);
    for unit in &units {
        let patterns: Vec<String> = (0..unit.len())
            .filter_map(|index| match &unit.step(index).unwrap().operation {
                Operation::ResolveGlob { pattern, .. } => Some(pattern.clone()),
                _ => None,
            })
            .collect();
        assert_eq!(patterns, vec!["z/*", "a/*", "m/*"]);
    }
}

#[test]
fn every_host_and_pair_has_an_archive_of_its_own() {
    let transfer = transfer_of(
        "[{\"src\": \"a/*\", \"dst\": \"/srv\"}, {\"src\": \"b/*\", \"dst\": \"/srv\"}]",
        true,
    );
    let cfg = run_on(vec!["alpha", "beta", "gamma"], &transfer);
    let mut archives = Vec::new();
    for _ in 0..2 {
        for unit in transfer.transfer(&cfg).unwrap() {
            for index in 0..unit.len() {
                if let Operation::OpenRemote { path, .. } = &unit.step(index).unwrap().operation {
                    assert!(path.starts_with("/srv/") && path.ends_with(".tar.zst"));
                    assert_eq!(path.len(), "/srv/".len() + 16 + ".tar.zst".len());
                    archives.push(path.clone());
                }
            }
        }
    }
    assert_eq!(archives.len(), 12);
    let mut distinct = archives.clone();
    distinct.sort();
    distinct.dedup();
    assert_eq!(distinct.len(), 12);
}

#[test]
fn transfer_without_files_is_refused() {
    let transfer = TransferConfig { files: Vec::new(), compress: true, compress_level: 13 };
    let cfg = run_on(vec!["alpha"], &transfer);
    let error = transfer.transfer(&cfg).unwrap_err();
    assert_eq!(error, ConfigError::NoFiles);
    assert_eq!(error.message(), "No files provided to transfer.");
}

#[test]
fn transfer_without_pairs_is_refused() {
    let transfer = transfer_of("[\"./a\", {\"src\": \"only\"}, 3]", true);
    let cfg = run_on(vec!["alpha"], &transfer);
    assert_eq!(transfer.parse_files_json().unwrap().len(), 0);
    let error = transfer.transfer(&cfg).unwrap_err();
    assert_eq!(error, ConfigError::EmptyMapping);
    assert_eq!(error.message(), "File list missing src or dst.");
    assert_eq!(error.exit_status(), 4);
}

#[test]
fn work_on_the_local_disk_is_marked() {
    let steps = pair_steps("*", "/srv", TOKEN, true, 3);
    let marked: Vec<usize> = (0..steps.len()).filter(|index| steps[*index].operation.is_disk_bound()).collect();
    assert_eq!(marked, vec![0, 3, 4, 5, 11]);
    assert!(!Operation::OpenSession.is_disk_bound());
    assert!(!Operation::CloseRemote.is_disk_bound());
}

#[test]
fn compression_level_is_passed_through() {
    for level in [1, 13, 22, -5, 0] {
        let steps = pair_steps("*", "/srv", TOKEN, true, level);
        match &steps[4].operation {
            Operation::Compress { level: passed, .. } => assert_eq!(*passed, level),
            other => panic!("unexpected step: {:?}", other),
        }
    }
}
