use drone_teleport::config::connect::ConnectConfig;
use drone_teleport::config::state::{Config, SubCommand};
use drone_teleport::dispatch::Dispatcher;
use drone_teleport::executor::{command_line, command_steps};
use drone_teleport::outcome::ExecutionOutcome;
use drone_teleport::pairs::OrderedMap;
use drone_teleport::step::{FailureClass, Operation, Policy, StepResult};
use drone_teleport::unit::HostUnit;

fn script_of(commands: &str) -> ConnectConfig {
    ConnectConfig { env: OrderedMap::new(), script: vec![String::from(commands)] }
}

fn run_on(hosts: Vec<&str>, script: &ConnectConfig) -> Config {
    Config {
        cmd: SubCommand::Connect(script.clone()),
        username: String::from("bot"),
        hosts: hosts.into_iter().map(String::from).collect(),
        proxy: String::from("proxy.example.com:443"),
        cluster: String::new(),
        port: 3022,
        data_path: String::from("/var/lib/bot"),
        debug: false,
        timeout: 120,
    }
}

fn exited(code: i32) -> StepResult {
    StepResult::Exited { code: Some(code) }
}

fn failed(cause: &str) -> StepResult {
    StepResult::Failed { cause: String::from(cause) }
}

/// Feeds `results` to `unit` one after the other and returns the operations
/// that were started, the first one included.
fn drive(mut unit: HostUnit, results: Vec<StepResult>) -> (HostUnit, Vec<Operation>) {
    let mut started = Vec::new();
    if let Some(operation) = unit.pending() {
        started.push(operation.clone());
    }
    for result in results {
        let was_finished = unit.is_finished();
        unit = unit.advance(result);
        if !was_finished {
            if let Some(operation) = unit.pending() {
                started.push(operation.clone());
            }
        }
    }
    (unit, started)
}

fn command(text: &str) -> Operation {
    Operation::RunCommand { command: String::from(text), line: String::from(text), timeout: 120 }
}

#[test]
fn echo_succeeds_on_one_host() {
    let script = script_of("{\"commands\": [\"echo hi\"]}");
    let cfg = run_on(vec!["alpha"], &script);
    let mut units = script.connect(&cfg, &Vec::new()).unwrap();
    assert_eq!(units.len(), 1);
    let unit = units.remove(0);
    assert_eq!(unit.host(), "alpha");
    let (unit, started) = drive(unit, vec![StepResult::Completed, exited(0), StepResult::Completed]);
    assert_eq!(started, vec![Operation::OpenSession, command("echo hi"), Operation::CloseSession]);
    assert!(unit.is_finished());
    assert_eq!(unit.outcome(), ExecutionOutcome::Success);
    let dispatcher = Dispatcher::new(1).report(0, unit.outcome());
    assert_eq!(dispatcher.exit_status(), Some(0));
}

#[test]
fn false_fails_the_host() {
    let script = script_of("{\"commands\": [\"false\", \"echo never\"]}");
    let cfg = run_on(vec!["alpha"], &script);
    let unit = script.connect(&cfg, &Vec::new()).unwrap().remove(0);
    let (unit, started) = drive(unit, vec![StepResult::Completed, exited(1), StepResult::Completed]);
    assert_eq!(started, vec![Operation::OpenSession, command("false"), Operation::CloseSession]);
    assert!(unit.is_finished());
    assert_eq!(unit.outcome(), ExecutionOutcome::CommandFailed { code: Some(1), timed_out: false });
    assert_eq!(unit.performed(), &vec![0, 1, 3]);
    let dispatcher = Dispatcher::new(1).report(0, unit.outcome());
    assert_eq!(dispatcher.exit_status(), Some(1));
}

#[test]
fn unreachable_host_leaves_the_others_alone() {
    let script = script_of("{\"commands\": [\"uptime\"]}");
    let cfg = run_on(vec!["down", "up"], &script);
    let mut units = script.connect(&cfg, &Vec::new()).unwrap();
    let up = units.remove(1);
    let down = units.remove(0);

    let (down, started) = drive(down, vec![failed("connection refused")]);
    assert_eq!(started, vec![Operation::OpenSession]);
    assert!(down.is_finished());
    assert_eq!(
        down.outcome(),
        ExecutionOutcome::ConnectionFailed { cause: String::from("connection refused") }
    );
    assert_eq!(down.performed(), &vec![0]);

    let (up, started) = drive(up, vec![StepResult::Completed, exited(0), StepResult::Completed]);
    assert_eq!(started, vec![Operation::OpenSession, command("uptime"), Operation::CloseSession]);
    assert_eq!(up.outcome(), ExecutionOutcome::Success);

    let dispatcher = Dispatcher::new(2).report(1, up.outcome());
    assert_eq!(dispatcher.exit_status(), None);
    let dispatcher = dispatcher.report(0, down.outcome());
    assert_eq!(dispatcher.exit_status(), Some(3));
}

#[test]
fn failing_command_k_runs_commands_up_to_k_only() {
    let commands: Vec<String> = vec!["one", "two", "three", "four"].into_iter().map(String::from).collect();
    for k in 1..=commands.len() {
        let unit = HostUnit::new(String::from("alpha"), command_steps(&commands, "", 30));
        let mut results = vec![StepResult::Completed];
        for _ in 1..k {
            results.push(exited(0));
        }
        results.push(exited(7));
        for _ in 0..6 {
            results.push(exited(0));
        }
        let (unit, _) = drive(unit, results);
        let mut expected: Vec<usize> = (0..=k).collect();
        expected.push(commands.len() + 1);
        assert_eq!(unit.performed(), &expected);
        assert_eq!(unit.aborted_at(), Some(k));
        assert_eq!(unit.outcome(), ExecutionOutcome::CommandFailed { code: Some(7), timed_out: false });
    }
}

#[test]
fn transport_error_halts_the_script() {
    let commands = vec![String::from("one"), String::from("two")];
    let unit = HostUnit::new(String::from("alpha"), command_steps(&commands, "", 30));
    let (unit, started) = drive(unit, vec![StepResult::Completed, failed("channel closed"), StepResult::Completed]);
    assert_eq!(started.len(), 3);
    assert_eq!(started[2], Operation::CloseSession);
    assert_eq!(
        unit.outcome(),
        ExecutionOutcome::CommandTransportFailed { cause: String::from("channel closed") }
    );
    assert_eq!(unit.outcome().exit_status(), 2);
}

#[test]
fn timed_out_command_fails_the_host() {
    let commands = vec![String::from("sleep 1000"), String::from("echo after")];
    let unit = HostUnit::new(String::from("alpha"), command_steps(&commands, "", 5));
    let (unit, started) = drive(unit, vec![StepResult::Completed, StepResult::TimedOut, StepResult::Completed]);
    assert_eq!(
        started[1],
        Operation::RunCommand {
            command: String::from("sleep 1000"),
            line: String::from("sleep 1000"),
            timeout: 5
        }
    );
    assert_eq!(unit.performed(), &vec![0, 1, 3]);
    assert_eq!(unit.outcome(), ExecutionOutcome::CommandFailed { code: None, timed_out: true });
}

#[test]
fn command_without_exit_code_fails_the_host() {
    let commands = vec![String::from("kill -9 $$")];
    let unit = HostUnit::new(String::from("alpha"), command_steps(&commands, "", 5));
    let (unit, _) = drive(unit, vec![StepResult::Completed, StepResult::Exited { code: None }, StepResult::Completed]);
    assert_eq!(unit.outcome(), ExecutionOutcome::CommandFailed { code: None, timed_out: false });
}

#[test]
fn failing_close_does_not_change_the_outcome() {
    let commands = vec![String::from("true")];
    let unit = HostUnit::new(String::from("alpha"), command_steps(&commands, "", 5));
    let (unit, _) = drive(unit, vec![StepResult::Completed, exited(0), failed("already closed")]);
    assert!(unit.is_finished());
    assert_eq!(unit.outcome(), ExecutionOutcome::Success);
}

#[test]
fn results_after_the_end_change_nothing() {
    let commands = vec![String::from("true")];
    let unit = HostUnit::new(String::from("alpha"), command_steps(&commands, "", 5));
    let (unit, _) = drive(unit, vec![StepResult::Completed, exited(0), StepResult::Completed]);
    let performed = unit.performed().clone();
    let unit = unit.advance(failed("late")).advance(exited(3));
    assert!(unit.is_finished());
    assert_eq!(unit.pending(), None);
    assert_eq!(unit.position(), None);
    assert_eq!(unit.performed(), &performed);
    assert_eq!(unit.outcome(), ExecutionOutcome::Success);
}

#[test]
fn empty_script_opens_and_closes_the_session() {
    let script = script_of("{\"commands\": []}");
    let cfg = run_on(vec!["alpha"], &script);
    let unit = script.connect(&cfg, &Vec::new()).unwrap().remove(0);
    assert_eq!(unit.len(), 2);
    let (unit, started) = drive(unit, vec![StepResult::Completed, StepResult::Completed]);
    assert_eq!(started, vec![Operation::OpenSession, Operation::CloseSession]);
    assert_eq!(unit.outcome(), ExecutionOutcome::Success);
}

#[test]
fn command_steps_have_the_expected_shape() {
    let commands = vec![String::from("a"), String::from("b")];
    let steps = command_steps(&commands, "export X=1", 9);
    assert_eq!(steps.len(), 4);
    assert_eq!(steps[0].operation, Operation::OpenSession);
    assert_eq!(steps[0].policy, Policy::Fatal(FailureClass::Connection));
    assert_eq!(steps[0].reach, 0);
    assert_eq!(
        steps[1].operation,
        Operation::RunCommand {
            command: String::from("a"),
            line: String::from("export X=1; a"),
            timeout: 9
        }
    );
    assert_eq!(steps[1].policy, Policy::Fatal(FailureClass::Command));
    assert_eq!(steps[2].reach, 0);
    assert_eq!(steps[3].operation, Operation::CloseSession);
    assert_eq!(steps[3].policy, Policy::BestEffort);
    assert_eq!(steps[3].reach, 2);
}

#[test]
fn command_line_puts_the_environment_first() {
    assert_eq!(command_line("", "echo hi"), "echo hi");
    assert_eq!(command_line("export A=1", "echo hi"), "export A=1; echo hi");
    assert_eq!(command_line("A=1 B=2", ""), "A=1 B=2; ");
    assert_eq!(command_line("  \t\n", "echo hi"), "echo hi");
    assert_eq!(command_line("\u{a0}\u{2003}\u{3000}", "echo hi"), "echo hi");
    assert_eq!(command_line(" x ", "echo hi"), " x ; echo hi");
    assert_eq!(command_line("\u{200b}", "echo hi"), "\u{200b}; echo hi");
}

#[test]
fn connect_makes_one_unit_per_host_in_order() {
    let script = ConnectConfig {
        env: OrderedMap::new().insert(String::from("STAGE"), String::from("prod")),
        script: vec![String::from("{\"commands\": [\"deploy\"]}")],
    };
    let cfg = run_on(vec!["a", "b", "c"], &script);
    let process = vec![
        (String::from("HOME"), String::from("/root")),
        (String::from("PLUGIN_TAG"), String::from("v1")),
    ];
    let units = script.connect(&cfg, &process).unwrap();
    let hosts: Vec<&str> = units.iter().map(|unit| unit.host().as_str()).collect();
    assert_eq!(hosts, vec!["a", "b", "c"]);
    for unit in &units {
        assert_eq!(unit.pending(), Some(&Operation::OpenSession));
        assert_eq!(
            unit.step(1).unwrap().operation,
            Operation::RunCommand {
                command: String::from("deploy"),
                line: String::from("export STAGE=prod && export TAG=v1; deploy"),
                timeout: 120
            }
        );
        assert!(unit.step(3).is_none());
    }
}

#[test]
fn connect_without_script_is_refused() {
    let script = ConnectConfig { env: OrderedMap::new(), script: Vec::new() };
    let cfg = run_on(vec!["a"], &script);
    let error = script.connect(&cfg, &Vec::new()).unwrap_err();
    assert_eq!(error, drone_teleport::error::ConfigError::NoCommands);
    assert_eq!(error.message(), "No commands to execute.");
    assert_eq!(error.exit_status(), 4);
}
