//! What was asked for on the command line, and the configuration that a
//! run is made with.

use vstd::prelude::*;
use vstd::string::*;
use crate::checkpoint::CheckpointScope;
use crate::command::{
    env_value, lemma_env_value_after_set, TestCommand, TestCommandView, ENV_MAX_BRANCHES,
    ENV_MAX_PERMUTATIONS, ENV_MAX_THREADS,
};
use crate::paths::joined;
use crate::paths;
use crate::text::{
    clone_all, decimal, decimal_digits, decimal_opt, join_words, opt_text, spaced, texts,
};
use crate::trace::TraceSettings;

verus! {

/// Options that configure Loom's behaviour.
#[derive(Debug, PartialEq, Eq)]
pub struct LoomOptions {
    /// Maximum number of thread switches per permutation.
    pub max_branches: usize,
    /// Maximum number of permutations to explore; unbounded where absent.
    pub max_permutations: Option<usize>,
    /// Maximum number of threads to check as part of the execution.
    pub max_threads: usize,
    /// How often to write the checkpoint file.
    pub checkpoint_interval: usize,
    /// Maximum duration to run each model for, in seconds; unlimited
    /// where absent.
    pub max_duration_secs: Option<usize>,
    /// Log level filter for re-running failed tests.
    pub loom_log: String,
}

impl Default for LoomOptions {
    fn default() -> (r: LoomOptions)
        ensures
            r.max_branches == 1000,
            r.max_permutations is None,
            r.max_threads == 4,
            r.checkpoint_interval == 5,
            r.max_duration_secs is None,
            r.loom_log@ == "trace"@,
    {
        LoomOptions {
            max_branches: 1000,
            max_permutations: None,
            max_threads: 4,
            checkpoint_interval: 5,
            max_duration_secs: None,
            loom_log: "trace".to_owned(),
        }
    }
}

/// Options that configure the build of the tests.
#[derive(Debug, PartialEq, Eq)]
pub struct CargoOptions {
    /// Path to Cargo.toml.
    pub manifest_path: Option<String>,
    /// The features to activate.
    pub features: Vec<String>,
    /// Activate all available features.
    pub all_features: bool,
    /// Do not activate the default feature.
    pub no_default_features: bool,
    /// Test only the package's library unit tests.
    pub lib: bool,
    /// Test all tests.
    pub tests: bool,
    /// Test all examples.
    pub examples: bool,
    /// Test all binaries.
    pub bins: bool,
}

/// Everything given on the command line.
#[derive(Debug, PartialEq, Eq)]
pub struct Args {
    pub loom: LoomOptions,
    pub cargo: CargoOptions,
    pub trace_settings: TraceSettings,
    /// If given, only tests with this string in their names are run.
    pub testname: Option<String>,
    /// Arguments passed on to the test binary.
    pub test_args: Vec<String>,
}

/// Everything needed to run a set of Loom tests: the arguments, and what
/// was worked out from them once so that it need not be for every test.
#[derive(Debug, PartialEq, Eq)]
pub struct App {
    pub args: Args,
    /// How the checkpoint directory is laid out.
    pub scope: CheckpointScope,
    pub checkpoint_dir: String,
    pub target_dir: String,
    pub features: String,
    pub rustflags: String,
    pub max_branches: String,
    pub max_permutations: Option<String>,
    pub max_duration: Option<String>,
    pub max_threads: String,
    pub checkpoint_interval: String,
    pub loom_log: String,
    pub test_args: Vec<String>,
}

/// The compiler flags that tests are built with: those already in force,
/// followed by the ones that switch Loom on.
pub open spec fn loom_rustflags(given: Seq<char>) -> Seq<char> {
    if given.len() == 0 {
        "--cfg loom --cfg debug_assertions"@
    } else {
        given + " "@ + "--cfg loom --cfg debug_assertions"@
    }
}

/// A number as decimal digits, if there is one.
pub open spec fn digits_opt(n: Option<usize>) -> Option<Seq<char>> {
    match n {
        Some(v) => Some(decimal_digits(v as nat)),
        None => None,
    }
}

/// Widens an optional number.
fn widen(n: Option<usize>) -> (r: Option<u64>)
    ensures
        r == match n {
            Some(v) => Some(v as u64),
            None => None,
        },
{
    match n {
        Some(v) => Some(v as u64),
        None => None,
    }
}

impl App {
    /// The configuration of a run from the command line's arguments, the
    /// root of the workspace, and the compiler flags found in the
    /// environment (empty where there are none).
    ///
    /// Everything is built below `<workspace_root>/target/loom`, and
    /// checkpoints are kept in `checkpoint` below that, in a directory of
    /// its own for each test binary.
    pub fn from_args(args: Args, workspace_root: &str, rustflags: String) -> (r: App)
        ensures
            r.args == args,
            r.scope == CheckpointScope::Binary,
            r.target_dir@ == joined(joined(workspace_root@, "target"@), "loom"@),
            r.checkpoint_dir@ == joined(r.target_dir@, "checkpoint"@),
            r.features@ == spaced(texts(args.cargo.features@)),
            r.rustflags@ == loom_rustflags(rustflags@),
            r.max_branches@ == decimal_digits(args.loom.max_branches as nat),
            opt_text(r.max_permutations) == digits_opt(args.loom.max_permutations),
            opt_text(r.max_duration) == digits_opt(args.loom.max_duration_secs),
            r.max_threads@ == decimal_digits(args.loom.max_threads as nat),
            r.checkpoint_interval@ == decimal_digits(args.loom.checkpoint_interval as nat),
            r.loom_log@ == args.loom.loom_log@,
            r.test_args@ == args.test_args@,
    {
        let target = paths::join(workspace_root, "target");
        let target_dir = paths::join(target.as_str(), "loom");
        let checkpoint_dir = paths::join(target_dir.as_str(), "checkpoint");
        let features = join_words(&args.cargo.features);
        let ghost given = rustflags@;
        let mut rustflags = rustflags;
        if !rustflags.as_str().is_empty() {
            rustflags.append(" ");
        }
        rustflags.append("--cfg loom --cfg debug_assertions");
        let max_duration = decimal_opt(widen(args.loom.max_duration_secs));
        let max_permutations = decimal_opt(widen(args.loom.max_permutations));
        let max_branches = decimal(args.loom.max_branches as u64);
        let max_threads = decimal(args.loom.max_threads as u64);
        let checkpoint_interval = decimal(args.loom.checkpoint_interval as u64);
        let loom_log = args.loom.loom_log.clone();
        let test_args = clone_all(&args.test_args);
        proof {
            assert(rustflags@ =~= loom_rustflags(given)) by {
                assert(Seq::<char>::empty() + "--cfg loom --cfg debug_assertions"@
                    =~= "--cfg loom --cfg debug_assertions"@);
            }
        }
        App {
            args,
            scope: CheckpointScope::Binary,
            target_dir,
            checkpoint_dir,
            features,
            rustflags,
            max_branches,
            max_duration,
            max_permutations,
            max_threads,
            checkpoint_interval,
            loom_log,
            test_args,
        }
    }

    /// The build of the tests of `package` as a `cargo` command: `test`
    /// with JSON messages and without running anything, in release mode,
    /// into the target directory of this configuration and with its
    /// compiler flags, for the targets and features asked for.
    pub open spec fn build_command(&self, package: Seq<char>) -> TestCommandView {
        let cargo = self.args.cargo;
        let base = TestCommandView::program("cargo"@).arg("test"@).arg("--message-format=json"@).arg(
            "--no-run"@,
        ).env("RUSTFLAGS"@, self.rustflags@).arg("--target-dir"@).arg(self.target_dir@).arg(
            "--package"@,
        ).arg(package).arg("--release"@);
        let with_lib = if cargo.lib {
            base.arg("--lib"@)
        } else {
            base
        };
        let with_tests = if cargo.tests || !cargo.lib {
            with_lib.arg("--tests"@)
        } else {
            with_lib
        };
        let with_all = if cargo.all_features {
            with_tests.arg("--all-features"@)
        } else {
            with_tests
        };
        let with_default = if cargo.no_default_features {
            with_all.arg("--no-default-features"@)
        } else {
            with_all
        };
        let with_features = if cargo.features.len() != 0 {
            with_default.arg("--features"@).arg(self.features@)
        } else {
            with_default
        };
        match cargo.manifest_path {
            Some(path) => with_features.arg("--manifest-path"@).arg(path@),
            None => with_features,
        }
    }

    /// The command that builds the tests of `package`.
    pub fn test_cmd(&self, package: &str) -> (r: TestCommand)
        ensures
            r@ == self.build_command(package@),
    {
        let mut cmd = TestCommand::new("cargo");
        cmd.arg("test");
        cmd.arg("--message-format=json");
        cmd.arg("--no-run");
        cmd.env("RUSTFLAGS", self.rustflags.as_str());
        cmd.arg("--target-dir");
        cmd.arg(self.target_dir.as_str());
        cmd.arg("--package");
        cmd.arg(package);
        cmd.arg("--release");
        if self.args.cargo.lib {
            cmd.arg("--lib");
        }
        if self.args.cargo.tests || !self.args.cargo.lib {
            cmd.arg("--tests");
        }
        if self.args.cargo.all_features {
            cmd.arg("--all-features");
        }
        if self.args.cargo.no_default_features {
            cmd.arg("--no-default-features");
        }
        if self.args.cargo.features.len() != 0 {
            cmd.arg("--features");
            cmd.arg(self.features.as_str());
        }
        if let Some(manifest) = &self.args.cargo.manifest_path {
            cmd.arg("--manifest-path");
            cmd.arg(manifest.as_str());
        }
        cmd
    }

    /// The name filter, if one was given.
    pub open spec fn filter(&self) -> Option<Seq<char>> {
        opt_text(self.args.testname)
    }

    /// `cmd` with what every run of a test binary is given: the bounds on
    /// branches, permutations (where bounded) and threads, and the
    /// arguments for the test binary.
    pub open spec fn loom_command(&self, cmd: TestCommandView) -> TestCommandView {
        cmd.env(ENV_MAX_BRANCHES@, self.max_branches@).env_opt(
            ENV_MAX_PERMUTATIONS@,
            opt_text(self.max_permutations),
        ).env(ENV_MAX_THREADS@, self.max_threads@).args(texts(self.test_args@))
    }

    /// Gives `cmd` what every run of a test binary is given.
    pub fn configure_loom_command(&self, cmd: &mut TestCommand)
        ensures
            final(cmd)@ == self.loom_command(old(cmd)@),
    {
        cmd.env(ENV_MAX_BRANCHES, self.max_branches.as_str());
        if let Some(max_permutations) = &self.max_permutations {
            cmd.env(ENV_MAX_PERMUTATIONS, max_permutations.as_str());
        }
        cmd.env(ENV_MAX_THREADS, self.max_threads.as_str());
        if self.test_args.len() != 0 {
            cmd.args(&self.test_args);
        } else {
            proof {
                assert(cmd@.args + texts(self.test_args@) =~= cmd@.args);
            }
        }
    }
}

/// What every run is given touches only the bounds on branches,
/// permutations and threads: any other variable is found as it was.
pub proof fn lemma_loom_command_keeps_other_variables(app: App, cmd: TestCommandView, asked: Seq<char>)
    requires
        asked != ENV_MAX_BRANCHES@,
        asked != ENV_MAX_PERMUTATIONS@,
        asked != ENV_MAX_THREADS@,
    ensures
        env_value(app.loom_command(cmd).envs, asked) == env_value(cmd.envs, asked),
        app.loom_command(cmd).program == cmd.program,
{
    let c1 = cmd.env(ENV_MAX_BRANCHES@, app.max_branches@);
    let c2 = c1.env_opt(ENV_MAX_PERMUTATIONS@, opt_text(app.max_permutations));
    let c3 = c2.env(ENV_MAX_THREADS@, app.max_threads@);
    lemma_env_value_after_set(cmd, ENV_MAX_BRANCHES@, app.max_branches@, asked);
    if app.max_permutations is Some {
        lemma_env_value_after_set(c1, ENV_MAX_PERMUTATIONS@, app.max_permutations->0@, asked);
    }
    lemma_env_value_after_set(c2, ENV_MAX_THREADS@, app.max_threads@, asked);
}

} // verus!
