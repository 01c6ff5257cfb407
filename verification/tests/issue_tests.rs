use cargo_loom::issue::{args_line, error_is_issue, is_issue, keep_frame, Cause, ErrorKind};

#[test]
fn error_of_our_own_is_an_issue() {
    assert!(error_is_issue(&vec![Cause::Other]));
    assert!(error_is_issue(&vec![Cause::Other, Cause::Other, Cause::Other]));
    assert!(error_is_issue(&Vec::new()));
}

#[test]
fn io_or_cargo_error_anywhere_in_the_chain_is_no_issue() {
    assert!(!error_is_issue(&vec![Cause::Io]));
    assert!(!error_is_issue(&vec![Cause::Cargo]));
    assert!(!error_is_issue(&vec![Cause::Other, Cause::Io]));
    assert!(!error_is_issue(&vec![Cause::Other, Cause::Other, Cause::Cargo]));
    assert!(!error_is_issue(&vec![Cause::Cargo, Cause::Other]));
}

#[test]
fn panic_is_always_an_issue() {
    assert!(is_issue(&ErrorKind::NonRecoverable));
    assert!(is_issue(&ErrorKind::Recoverable(vec![Cause::Other])));
    assert!(!is_issue(&ErrorKind::Recoverable(vec![Cause::Other, Cause::Io])));
}

#[test]
fn frames_of_the_runtime_are_left_out() {
    assert!(!keep_frame(Some("tokio::runtime::task::raw::poll")));
    assert!(!keep_frame(Some("tokio::coop::budget")));
    assert!(!keep_frame(Some("tokio::park::thread::Inner::park")));
    assert!(!keep_frame(Some("std::thread::local::LocalKey<T>::with")));
    assert!(!keep_frame(Some("tokio::runtime")));
}

#[test]
fn other_frames_are_kept() {
    assert!(keep_frame(None));
    assert!(keep_frame(Some("cargo_loom::App::run_failed")));
    assert!(keep_frame(Some("tokio::process::Command::output")));
    assert!(keep_frame(Some("std::thread::spawn")));
    assert!(keep_frame(Some("my::tokio::runtime")));
    assert!(keep_frame(Some("")));
}

#[test]
fn every_argument_is_followed_by_a_space() {
    assert_eq!(args_line(&Vec::new()), "");
    assert_eq!(args_line(&vec!["cargo-loom".to_string()]), "cargo-loom ");
    assert_eq!(
        args_line(&vec!["cargo-loom".to_string(), "--lib".to_string(), "a b".to_string()]),
        "cargo-loom --lib a b "
    );
}
