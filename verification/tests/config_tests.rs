use cargo_loom::command::TestCommand;
use cargo_loom::config::{App, Args, CargoOptions, LoomOptions};
use cargo_loom::text::{decimal, join_words};
use cargo_loom::trace::{ColorMode, MessageFormat, TraceSettings};

fn args() -> Args {
    Args {
        loom: LoomOptions::default(),
        cargo: CargoOptions {
            manifest_path: None,
            features: Vec::new(),
            all_features: false,
            no_default_features: false,
            lib: false,
            tests: false,
            examples: false,
            bins: false,
        },
        trace_settings: TraceSettings {
            color: ColorMode::Auto,
            message_format: MessageFormat::Human,
            filter: "cargo=info,warn".to_string(),
        },
        testname: None,
        test_args: Vec::new(),
    }
}

fn strings(v: &[&str]) -> Vec<String> {
    v.iter().map(|s| s.to_string()).collect()
}

fn pair(k: &str, v: &str) -> (String, String) {
    (k.to_string(), v.to_string())
}

#[test]
fn default_loom_options() {
    let o = LoomOptions::default();
    assert_eq!(o.max_branches, 1000);
    assert_eq!(o.max_permutations, None);
    assert_eq!(o.max_threads, 4);
    assert_eq!(o.checkpoint_interval, 5);
    assert_eq!(o.max_duration_secs, None);
    assert_eq!(o.loom_log, "trace");
}

#[test]
fn decimal_writes_digits() {
    assert_eq!(decimal(0), "0");
    assert_eq!(decimal(7), "7");
    assert_eq!(decimal(10), "10");
    assert_eq!(decimal(1000), "1000");
    assert_eq!(decimal(9876543210), "9876543210");
    assert_eq!(decimal(u64::MAX), "18446744073709551615");
}

#[test]
fn words_are_joined_with_single_spaces() {
    assert_eq!(join_words(&Vec::new()), "");
    assert_eq!(join_words(&strings(&["a"])), "a");
    assert_eq!(join_words(&strings(&["a", "b", "c"])), "a b c");
    assert_eq!(join_words(&strings(&["", "b"])), " b");
}

#[test]
fn app_is_worked_out_from_the_arguments() {
    let mut a = args();
    a.loom.max_permutations = Some(20);
    a.loom.max_duration_secs = Some(60);
    a.loom.loom_log = "debug".to_string();
    a.cargo.features = strings(&["checkpoint", "futures"]);
    a.test_args = strings(&["--nocapture"]);
    let app = App::from_args(a, "/ws", "".to_string());
    assert_eq!(app.target_dir, "/ws/target/loom");
    assert_eq!(app.checkpoint_dir, "/ws/target/loom/checkpoint");
    assert_eq!(app.features, "checkpoint futures");
    assert_eq!(app.rustflags, "--cfg loom --cfg debug_assertions");
    assert_eq!(app.max_branches, "1000");
    assert_eq!(app.max_permutations, Some("20".to_string()));
    assert_eq!(app.max_duration, Some("60".to_string()));
    assert_eq!(app.max_threads, "4");
    assert_eq!(app.checkpoint_interval, "5");
    assert_eq!(app.loom_log, "debug");
    assert_eq!(app.test_args, strings(&["--nocapture"]));
    assert_eq!(app.args.loom.max_permutations, Some(20));
}

#[test]
fn compiler_flags_in_force_come_first() {
    let app = App::from_args(args(), "/ws", "-C debuginfo=2".to_string());
    assert_eq!(app.rustflags, "-C debuginfo=2 --cfg loom --cfg debug_assertions");
}

#[test]
fn without_optional_bounds_none_is_set() {
    let app = App::from_args(args(), "/ws", String::new());
    assert_eq!(app.max_permutations, None);
    assert_eq!(app.max_duration, None);
    assert_eq!(app.features, "");
}

#[test]
fn every_run_is_given_the_bounds_and_the_test_arguments() {
    let mut a = args();
    a.test_args = strings(&["--nocapture", "--test-threads=1"]);
    let app = App::from_args(a, "/ws", String::new());
    let mut cmd = TestCommand::new("/bin/suite");
    cmd.arg("first");
    cmd.env("KEEP", "me");
    app.configure_loom_command(&mut cmd);
    assert_eq!(cmd.program, "/bin/suite");
    assert_eq!(cmd.args, strings(&["first", "--nocapture", "--test-threads=1"]));
    assert_eq!(
        cmd.envs,
        vec![pair("KEEP", "me"), pair("LOOM_MAX_BRANCHES", "1000"), pair("LOOM_MAX_THREADS", "4")]
    );
}

#[test]
fn bound_on_permutations_is_set_between_branches_and_threads() {
    let mut a = args();
    a.loom.max_permutations = Some(3);
    a.loom.max_branches = 12;
    a.loom.max_threads = 2;
    let app = App::from_args(a, "/ws", String::new());
    let mut cmd = TestCommand::new("/bin/suite");
    app.configure_loom_command(&mut cmd);
    assert_eq!(
        cmd.envs,
        vec![
            pair("LOOM_MAX_BRANCHES", "12"),
            pair("LOOM_MAX_PERMUTATIONS", "3"),
            pair("LOOM_MAX_THREADS", "2"),
        ]
    );
    assert!(cmd.args.is_empty());
}

#[test]
fn plain_build_tests_all_test_targets_in_release_mode() {
    let app = App::from_args(args(), "/ws", String::new());
    let cmd = app.test_cmd("mypkg");
    assert_eq!(cmd.program, "cargo");
    assert_eq!(
        cmd.args,
        strings(&[
            "test",
            "--message-format=json",
            "--no-run",
            "--target-dir",
            "/ws/target/loom",
            "--package",
            "mypkg",
            "--release",
            "--tests",
        ])
    );
    assert_eq!(cmd.envs, vec![pair("RUSTFLAGS", "--cfg loom --cfg debug_assertions")]);
}

#[test]
fn build_with_every_option() {
    let mut a = args();
    a.cargo.lib = true;
    a.cargo.tests = true;
    a.cargo.all_features = true;
    a.cargo.no_default_features = true;
    a.cargo.features = strings(&["a", "b"]);
    a.cargo.manifest_path = Some("/ws/Cargo.toml".to_string());
    let app = App::from_args(a, "/ws", String::new());
    let cmd = app.test_cmd("mypkg");
    assert_eq!(
        cmd.args[8..].to_vec(),
        strings(&[
            "--lib",
            "--tests",
            "--all-features",
            "--no-default-features",
            "--features",
            "a b",
            "--manifest-path",
            "/ws/Cargo.toml",
        ])
    );
}

#[test]
fn lib_alone_leaves_the_other_tests_out() {
    let mut a = args();
    a.cargo.lib = true;
    let app = App::from_args(a, "/ws", String::new());
    let cmd = app.test_cmd("mypkg");
    assert_eq!(cmd.args[8..].to_vec(), strings(&["--lib"]));
}

#[test]
fn command_is_built_up_in_order() {
    let mut cmd = TestCommand::new("prog");
    cmd.arg("a");
    cmd.env("K", "1");
    cmd.args(&strings(&["b", "c"]));
    cmd.env("K", "2");
    assert_eq!(cmd.args, strings(&["a", "b", "c"]));
    assert_eq!(cmd.envs, vec![pair("K", "1"), pair("K", "2")]);
    let copy = cmd.duplicate();
    assert_eq!(copy, cmd);
}
