use cargo_loom::checkpoint::CheckpointDir;
use cargo_loom::config::{App, Args, CargoOptions, LoomOptions};
use cargo_loom::ledger::Failed;
use cargo_loom::rerun::{
    Captured, RerunAction, RerunError, RerunEvent, RerunState, RerunTask, Step, TestOutput,
};
use cargo_loom::suite::{SuiteKind, TestSuite};
use cargo_loom::trace::{ColorMode, MessageFormat, TraceSettings};

fn app() -> App {
    let args = Args {
        loom: LoomOptions {
            max_branches: 500,
            max_permutations: None,
            max_threads: 3,
            checkpoint_interval: 7,
            max_duration_secs: Some(10),
            loom_log: "debug".to_string(),
        },
        cargo: CargoOptions {
            manifest_path: None,
            features: Vec::new(),
            all_features: false,
            no_default_features: false,
            lib: false,
            tests: false,
            examples: false,
            bins: false,
        },
        trace_settings: TraceSettings {
            color: ColorMode::Never,
            message_format: MessageFormat::Human,
            filter: String::new(),
        },
        testname: Some("a::".to_string()),
        test_args: vec!["--nocapture".to_string()],
    };
    App::from_args(args, "/ws", String::new())
}

fn pair(k: &str, v: &str) -> (String, String) {
    (k.to_string(), v.to_string())
}

fn ledger() -> Failed {
    let mut failed = Failed::new();
    let one = TestSuite::new("/bin/one-1".to_string(), "one".to_string(), SuiteKind::Other);
    let two = TestSuite::new("/bin/two-1".to_string(), "two".to_string(), SuiteKind::Lib);
    let dir_one = CheckpointDir::for_binary("/ck", "/bin/one-1").unwrap();
    let dir_two = CheckpointDir::for_binary("/ck", "/bin/two-1").unwrap();
    failed.fail_test(&one, "a::b".to_string(), &dir_one);
    failed.fail_test(&one, "a::d".to_string(), &dir_one);
    failed.finish_suite(one);
    failed.fail_test(&two, "a::x".to_string(), &dir_two);
    failed.finish_suite(two);
    failed
}

fn task() -> RerunTask {
    app().run_failed(&ledger()).unwrap().remove(0)
}

fn output(stdout: &[u8]) -> Captured {
    Captured { code: Some(101), stdout: stdout.to_vec(), stderr: b"err".to_vec() }
}

fn spawns(action: &RerunAction) -> bool {
    matches!(action, RerunAction::Generate(_) | RerunAction::Rerun(_))
}

#[test]
fn one_task_for_every_failing_case() {
    let tasks = app().run_failed(&ledger()).unwrap();
    let names: Vec<&str> = tasks.iter().map(|t| t.name.as_str()).collect();
    assert_eq!(names, vec!["one::a::b", "one::a::d", "two::a::x"]);
    let checkpoints: Vec<&str> = tasks.iter().map(|t| t.checkpoint.as_str()).collect();
    assert_eq!(checkpoints, vec!["/ck/one-1/a::b.json", "/ck/one-1/a::d.json", "/ck/two-1/a::x.json"]);
}

#[test]
fn task_runs_only_its_own_test_with_its_checkpoint() {
    let t = task();
    assert_eq!(t.command.program, "/bin/one-1");
    assert_eq!(t.command.args, vec!["--nocapture".to_string(), "a::b".to_string()]);
    assert_eq!(
        t.command.envs,
        vec![
            pair("LOOM_MAX_BRANCHES", "500"),
            pair("LOOM_MAX_THREADS", "3"),
            pair("LOOM_CHECKPOINT_INTERVAL", "7"),
            pair("LOOM_CHECKPOINT_FILE", "/ck/one-1/a::b.json"),
        ]
    );
    assert_eq!(t.loom_log, "debug");
}

#[test]
fn empty_ledger_has_no_tasks() {
    assert!(app().run_failed(&Failed::new()).unwrap().is_empty());
}

#[test]
fn suite_that_was_not_retained_is_an_error() {
    let mut failed = Failed::new();
    let s = TestSuite::new("/bin/open-1".to_string(), "open".to_string(), SuiteKind::Other);
    let dir = CheckpointDir::for_binary("/ck", "/bin/open-1").unwrap();
    failed.fail_test(&s, "a".to_string(), &dir);
    assert_eq!(
        app().run_failed(&failed).unwrap_err(),
        RerunError::MissingCommand { suite: "open".to_string() }
    );
}

#[test]
fn task_starts_by_looking_for_its_checkpoint() {
    let t = task();
    let (state, action) = t.start();
    assert_eq!(state, RerunState::Start);
    assert_eq!(action, RerunAction::LookForCheckpoint { path: "/ck/one-1/a::b.json".to_string() });
}

#[test]
fn existing_checkpoint_is_not_generated_again() {
    let t = task();
    let (state, _) = t.start();
    let (state, action) = t.step(state, RerunEvent::Checkpoint { exists: true });
    assert_eq!(state, RerunState::Rerunning);
    match &action {
        RerunAction::Rerun(cmd) => {
            assert_eq!(cmd.envs[cmd.envs.len() - 2], pair("LOOM_LOG", "debug"));
            assert_eq!(cmd.envs[cmd.envs.len() - 1], pair("LOOM_LOCATION", "1"));
            assert!(cmd.envs.contains(&pair("LOOM_CHECKPOINT_FILE", "/ck/one-1/a::b.json")));
        }
        other => panic!("expected the run with diagnostics, got {:?}", other),
    }
    let (state, action) = t.step(state, RerunEvent::Captured(output(b"log")));
    assert_eq!(state, RerunState::Done);
    assert!(!spawns(&action));
    assert_eq!(
        action,
        RerunAction::Yield(Ok(TestOutput { name: "one::a::b".to_string(), output: output(b"log") }))
    );
}

#[test]
fn case_without_checkpoint_spawns_exactly_two_processes_in_sequence() {
    let t = task();
    let mut spawned = Vec::new();
    let (mut state, mut action) = t.start();
    let result = loop {
        let event = match action {
            RerunAction::LookForCheckpoint { .. } => RerunEvent::Checkpoint { exists: false },
            RerunAction::Generate(cmd) => {
                spawned.push(("generate", cmd));
                RerunEvent::Generated
            }
            RerunAction::Rerun(cmd) => {
                spawned.push(("rerun", cmd));
                RerunEvent::Captured(output(b"out"))
            }
            RerunAction::Yield(result) => break result,
        };
        let next = t.step(state, event);
        state = next.0;
        action = next.1;
    };
    assert_eq!(state, RerunState::Done);
    assert_eq!(spawned.len(), 2);
    assert_eq!(spawned[0].0, "generate");
    assert_eq!(spawned[1].0, "rerun");
    let generate = &spawned[0].1;
    assert_eq!(generate.program, "/bin/one-1");
    assert_eq!(generate.args, vec!["--nocapture".to_string(), "a::b".to_string()]);
    assert_eq!(
        generate.envs,
        vec![
            pair("LOOM_MAX_BRANCHES", "500"),
            pair("LOOM_MAX_THREADS", "3"),
            pair("LOOM_CHECKPOINT_INTERVAL", "7"),
            pair("LOOM_CHECKPOINT_FILE", "/ck/one-1/a::b.json"),
            pair("LOOM_LOG", "off"),
        ]
    );
    assert!(generate.envs.iter().all(|(k, _)| k != "LOOM_LOCATION"));
    let rerun = &spawned[1].1;
    assert_eq!(rerun.args, generate.args);
    assert_eq!(
        rerun.envs,
        vec![
            pair("LOOM_MAX_BRANCHES", "500"),
            pair("LOOM_MAX_THREADS", "3"),
            pair("LOOM_CHECKPOINT_INTERVAL", "7"),
            pair("LOOM_CHECKPOINT_FILE", "/ck/one-1/a::b.json"),
            pair("LOOM_LOG", "debug"),
            pair("LOOM_LOCATION", "1"),
        ]
    );
    assert_eq!(result, Ok(TestOutput { name: "one::a::b".to_string(), output: output(b"out") }));
}

#[test]
fn process_that_cannot_be_started_ends_the_task_with_an_error() {
    let t = task();
    let (state, _) = t.step(RerunState::Start, RerunEvent::Checkpoint { exists: false });
    let (state, action) = t.step(state, RerunEvent::SpawnFailed { reason: "no such file".to_string() });
    assert_eq!(state, RerunState::Done);
    assert_eq!(
        action,
        RerunAction::Yield(Err(RerunError::Spawn {
            name: "one::a::b".to_string(),
            step: Step::Checkpoint,
            reason: "no such file".to_string(),
        }))
    );
    let (state, _) = t.step(RerunState::Start, RerunEvent::Checkpoint { exists: true });
    let (_, action) = t.step(state, RerunEvent::SpawnFailed { reason: "too many files".to_string() });
    assert_eq!(
        action,
        RerunAction::Yield(Err(RerunError::Spawn {
            name: "one::a::b".to_string(),
            step: Step::Rerun,
            reason: "too many files".to_string(),
        }))
    );
}

#[test]
fn event_that_was_not_waited_for_ends_the_task() {
    let t = task();
    let out_of_order = RerunAction::Yield(Err(RerunError::OutOfOrder { name: "one::a::b".to_string() }));
    assert_eq!(t.step(RerunState::Start, RerunEvent::Generated), (RerunState::Done, out_of_order));
    let (state, action) = t.step(RerunState::Generating, RerunEvent::Captured(output(b"")));
    assert_eq!(state, RerunState::Done);
    assert!(matches!(action, RerunAction::Yield(Err(RerunError::OutOfOrder { .. }))));
    let (state, action) = t.step(RerunState::Rerunning, RerunEvent::Checkpoint { exists: false });
    assert_eq!(state, RerunState::Done);
    assert!(!spawns(&action));
    let (state, action) = t.step(RerunState::Done, RerunEvent::Checkpoint { exists: false });
    assert_eq!(state, RerunState::Done);
    assert!(!spawns(&action));
}

#[test]
fn results_are_the_same_in_any_order_of_completion() {
    let tasks = app().run_failed(&ledger()).unwrap();
    let run = |t: &RerunTask| {
        let (state, _) = t.step(RerunState::Start, RerunEvent::Checkpoint { exists: true });
        let text = format!("output of {}", t.name);
        match t.step(state, RerunEvent::Captured(output(text.as_bytes()))).1 {
            RerunAction::Yield(Ok(out)) => (out.name.clone(), out.output.stdout.clone()),
            other => panic!("unexpected {:?}", other),
        }
    };
    let mut sequential: Vec<_> = tasks.iter().map(run).collect();
    let mut shuffled: Vec<_> = [2usize, 0, 1].iter().map(|&i| run(&tasks[i])).collect();
    assert_ne!(sequential, shuffled);
    sequential.sort();
    shuffled.sort();
    assert_eq!(sequential, shuffled);
    assert_eq!(sequential.len(), 3);
}

#[test]
fn stdout_is_text_when_it_is_utf8() {
    let out = TestOutput { name: "one::a::b".to_string(), output: output("caf\u{e9}\n".as_bytes()) };
    assert_eq!(out.name(), "one::a::b");
    assert_eq!(out.stdout(), Ok("caf\u{e9}\n"));
    assert_eq!(out.report(), Ok("\n --- test one::a::b ---\n\ncaf\u{e9}\n".to_string()));
}

#[test]
fn stdout_that_is_not_utf8_is_an_error_of_that_case() {
    let out = TestOutput { name: "one::a::b".to_string(), output: output(&[0x66, 0xff, 0x6f]) };
    assert_eq!(out.stdout(), Err(RerunError::NotUtf8 { name: "one::a::b".to_string() }));
    assert_eq!(out.report(), Err(RerunError::NotUtf8 { name: "one::a::b".to_string() }));
}

#[test]
fn empty_stdout_is_empty_text() {
    let out = TestOutput { name: "n".to_string(), output: output(b"") };
    assert_eq!(out.stdout(), Ok(""));
    assert_eq!(out.report(), Ok("\n --- test n ---\n\n".to_string()));
}
