use cargo_loom::checkpoint::CheckpointDir;
use cargo_loom::ledger::Failed;
use cargo_loom::suite::{FailedTest, SuiteKind, TestSuite};

fn suite(name: &str) -> TestSuite {
    TestSuite::new(format!("/bin/{}-1", name), name.to_string(), SuiteKind::Other)
}

fn names(cases: &Vec<FailedTest>) -> Vec<String> {
    cases.iter().map(|c| c.name.clone()).collect()
}

#[test]
fn default_ledger_is_empty() {
    let failed = Failed::default();
    assert!(failed.is_empty());
    assert!(failed.suite_names().is_empty());
    assert!(failed.checkpoint_dirs().is_empty());
}

#[test]
fn new_ledger_is_empty() {
    let failed = Failed::new();
    assert!(failed.is_empty());
    assert!(failed.failures("mysuite").is_none());
    assert!(failed.test_cmd("mysuite").is_none());
    assert!(failed.checkpoint_dirs().is_empty());
    assert!(failed.suite_names().is_empty());
}

#[test]
fn failed_test_is_recorded_with_its_checkpoint() {
    let mut failed = Failed::new();
    let s = suite("mysuite");
    let dir = CheckpointDir::shared("/t/run1", "mysuite");
    failed.fail_test(&s, "a::b".to_string(), &dir);
    let cases = failed.failures("mysuite").unwrap();
    assert_eq!(cases.len(), 1);
    assert_eq!(cases[0].suite, "mysuite");
    assert_eq!(cases[0].name, "a::b");
    assert_eq!(cases[0].checkpoint, "/t/run1/mysuite-a::b.json");
    assert_eq!(cases[0].pretty_name(), "mysuite::a::b");
    assert!(!failed.is_empty());
    assert_eq!(failed.checkpoint_dirs(), &vec!["/t/run1".to_string()]);
}

#[test]
fn suite_is_retained_only_when_it_is_finished() {
    let mut failed = Failed::new();
    let s = suite("mysuite");
    let dir = CheckpointDir::shared("/t/run1", "mysuite");
    failed.fail_test(&s, "a::b".to_string(), &dir);
    assert!(failed.test_cmd("mysuite").is_none());
    failed.finish_suite(s);
    let kept = failed.test_cmd("mysuite").unwrap();
    assert_eq!(kept.path, "/bin/mysuite-1");
    assert_eq!(kept.name, "mysuite");
    assert_eq!(kept.kind, SuiteKind::Other);
}

#[test]
fn suite_without_failure_is_not_retained() {
    let mut failed = Failed::new();
    failed.finish_suite(suite("clean"));
    assert!(failed.is_empty());
    assert!(failed.failures("clean").is_none());
    assert!(failed.test_cmd("clean").is_none());
    assert!(failed.checkpoint_dirs().is_empty());
}

#[test]
fn cases_keep_the_order_in_which_they_failed() {
    let mut failed = Failed::new();
    let s = suite("mysuite");
    let dir = CheckpointDir::for_binary("/ck", "/bin/mysuite-1").unwrap();
    failed.fail_test(&s, "z".to_string(), &dir);
    failed.fail_test(&s, "a".to_string(), &dir);
    failed.fail_test(&s, "m".to_string(), &dir);
    failed.finish_suite(s);
    assert_eq!(names(failed.failures("mysuite").unwrap()), vec!["z", "a", "m"]);
    assert_eq!(failed.failures("mysuite").unwrap()[1].checkpoint, "/ck/mysuite-1/a.json");
}

#[test]
fn suites_are_kept_apart() {
    let mut failed = Failed::new();
    let one = suite("one");
    let two = suite("two");
    let dir_one = CheckpointDir::for_binary("/ck", "/bin/one-1").unwrap();
    let dir_two = CheckpointDir::for_binary("/ck", "/bin/two-1").unwrap();
    failed.fail_test(&one, "a".to_string(), &dir_one);
    failed.finish_suite(one);
    failed.fail_test(&two, "b".to_string(), &dir_two);
    failed.fail_test(&two, "c".to_string(), &dir_two);
    failed.finish_suite(two);
    assert_eq!(failed.suite_names(), vec!["one", "two"]);
    assert_eq!(names(failed.failures("one").unwrap()), vec!["a"]);
    assert_eq!(names(failed.failures("two").unwrap()), vec!["b", "c"]);
    assert_eq!(failed.test_cmd("one").unwrap().path, "/bin/one-1");
    assert_eq!(failed.test_cmd("two").unwrap().path, "/bin/two-1");
    assert_eq!(failed.checkpoint_dirs(), &vec!["/ck/one-1".to_string(), "/ck/two-1".to_string()]);
    assert!(failed.failures("three").is_none());
}

#[test]
fn a_directory_is_noted_once() {
    let mut failed = Failed::new();
    let one = suite("one");
    let two = suite("two");
    let dir_one = CheckpointDir::shared("/t/run1", "one");
    let dir_two = CheckpointDir::shared("/t/run1", "two");
    failed.fail_test(&one, "a".to_string(), &dir_one);
    failed.fail_test(&one, "b".to_string(), &dir_one);
    failed.finish_suite(one);
    failed.fail_test(&two, "a".to_string(), &dir_two);
    failed.finish_suite(two);
    assert_eq!(failed.checkpoint_dirs(), &vec!["/t/run1".to_string()]);
}

#[test]
fn finishing_again_replaces_the_retained_suite() {
    let mut failed = Failed::new();
    let dir = CheckpointDir::shared("/t/run1", "same");
    let first = TestSuite::new("/bin/same-1".to_string(), "same".to_string(), SuiteKind::Lib);
    let second = TestSuite::new("/bin/same-2".to_string(), "same".to_string(), SuiteKind::Other);
    failed.fail_test(&first, "a".to_string(), &dir);
    failed.finish_suite(first);
    failed.fail_test(&second, "b".to_string(), &dir);
    failed.finish_suite(second);
    assert_eq!(failed.suite_names(), vec!["same"]);
    assert_eq!(names(failed.failures("same").unwrap()), vec!["a", "b"]);
    assert_eq!(failed.test_cmd("same").unwrap().path, "/bin/same-2");
}

#[test]
fn every_suite_with_cases_is_retained_once_finished() {
    let mut failed = Failed::new();
    for name in ["one", "two", "three"] {
        let s = suite(name);
        let dir = CheckpointDir::shared("/t/run1", name);
        if name != "two" {
            failed.fail_test(&s, "x".to_string(), &dir);
        }
        failed.finish_suite(s);
    }
    for name in failed.suite_names() {
        assert!(failed.failures(&name).is_some());
        assert!(failed.test_cmd(&name).is_some());
    }
    assert!(failed.test_cmd("two").is_none());
    assert!(failed.failures("two").is_none());
}

#[test]
fn suite_kind_goes_by_the_tag() {
    assert_eq!(SuiteKind::from_tag("lib"), SuiteKind::Lib);
    assert_eq!(SuiteKind::from_tag("test"), SuiteKind::Other);
    assert_eq!(SuiteKind::from_tag(""), SuiteKind::Other);
    assert!(TestSuite::new("/p".to_string(), "n".to_string(), SuiteKind::Lib).is_lib());
    assert!(!TestSuite::new("/p".to_string(), "n".to_string(), SuiteKind::Other).is_lib());
}

#[test]
fn duplicates_are_equal_in_every_field() {
    let s = suite("mysuite");
    let copy = s.duplicate();
    assert_eq!(copy.path, s.path);
    assert_eq!(copy.name, s.name);
    assert_eq!(copy.kind, s.kind);
    let dir = CheckpointDir::shared("/t", "mysuite");
    let case = FailedTest::new("mysuite", "a::b".to_string(), &dir);
    let copy = case.duplicate();
    assert_eq!(copy.suite, "mysuite");
    assert_eq!(copy.name, "a::b");
    assert_eq!(copy.checkpoint, "/t/mysuite-a::b.json");
}

#[test]
fn several_tests_are_recorded_at_once() {
    let mut failed = Failed::new();
    let s = suite("mysuite");
    let dir = CheckpointDir::shared("/t/run1", "mysuite");
    failed.fail_tests(&s, &vec!["a".to_string(), "b".to_string()], &dir);
    failed.fail_tests(&s, &Vec::new(), &dir);
    failed.finish_suite(s);
    assert_eq!(names(failed.failures("mysuite").unwrap()), vec!["a", "b"]);
    assert_eq!(failed.failures("mysuite").unwrap()[1].checkpoint, "/t/run1/mysuite-b.json");
    assert_eq!(failed.checkpoint_dirs(), &vec!["/t/run1".to_string()]);
    assert!(failed.test_cmd("mysuite").is_some());
}

#[test]
fn recording_no_test_leaves_the_ledger_empty() {
    let mut failed = Failed::new();
    let s = suite("mysuite");
    let dir = CheckpointDir::shared("/t/run1", "mysuite");
    failed.fail_tests(&s, &Vec::new(), &dir);
    failed.finish_suite(s);
    assert!(failed.is_empty());
    assert!(failed.test_cmd("mysuite").is_none());
    assert!(failed.checkpoint_dirs().is_empty());
}
