//! The discovery pass: each suite is run once with diagnostics switched
//! off, only to find out which of its cases fail.
//!
//! The steps are taken here; the caller spawns the process and reads its
//! output. Before the suite is run, the checkpoints that an earlier run
//! left of it are looked up: their tests are known to fail and are
//! skipped, as far as the name filter lets them through. Then each event
//! of the run is observed, and every test it reports as failed is
//! recorded. At the end the suite is finished.

use vstd::prelude::*;
use vstd::string::*;
use crate::checkpoint::{
    checkpoint_file, included, is_included, lemma_file_names_test, suite_prefix, test_in_entry,
    CheckpointDir, CheckpointDirView, CheckpointScope,
};
use crate::command::{
    env_value, lemma_env_names_differ, lemma_env_value_after_set, TestCommand, TestCommandView,
    ENV_CHECKPOINT_FILE, ENV_LOOM_LOCATION, ENV_LOOM_LOG, ENV_MAX_DURATION,
};
use crate::config::{lemma_loom_command_keeps_other_variables, App};
use crate::event::{decode_line, decoded, Event, EventView};
use crate::ledger::Failed;
use crate::paths::final_component;
use crate::suite::{cases_for, failed_test, FailedTestView, TestSuite, TestSuiteView};
use crate::text::{decimal, decimal_digits, opt_text, texts};
use crate::trace::Color;

verus! {

/// Why the failing tests of a package could not be collected.
#[derive(Debug, PartialEq, Eq)]
pub enum DiscoveryError {
    /// The path of a test binary has no file name.
    NoFileName { path: String },
}

/// The tests whose checkpoints are among the directory entries `entries`
/// and which the name filter lets through, in the order of the entries.
pub open spec fn known_tests(
    prefix: Seq<char>,
    filter: Option<Seq<char>>,
    entries: Seq<Seq<char>>,
) -> Seq<Seq<char>>
    decreases entries.len(),
{
    if entries.len() == 0 {
        Seq::empty()
    } else {
        let rest = known_tests(prefix, filter, entries.drop_last());
        match test_in_entry(prefix, entries.last()) {
            Some(test) => if is_included(filter, test) {
                rest.push(test)
            } else {
                rest
            },
            None => rest,
        }
    }
}

/// The arguments that keep `tests` from being run: `--skip` and the name,
/// for each of them.
pub open spec fn skip_args(tests: Seq<Seq<char>>) -> Seq<Seq<char>>
    decreases tests.len(),
{
    if tests.len() == 0 {
        Seq::empty()
    } else {
        skip_args(tests.drop_last()).push("--skip"@).push(tests.last())
    }
}

/// The names of the tests that `events` report as failed, in the order
/// reported. The name filter has no say here: what the run reports as
/// failed has failed.
pub open spec fn failed_tests(events: Seq<EventView>) -> Seq<Seq<char>>
    decreases events.len(),
{
    if events.len() == 0 {
        Seq::empty()
    } else {
        let rest = failed_tests(events.drop_last());
        match events.last() {
            EventView::TestFailed { name } => rest.push(name),
            _ => rest,
        }
    }
}

/// The line that tells how one test went: `test <name> ... <status>`,
/// with the status in a colour of its own.
#[derive(Debug, PartialEq, Eq)]
pub struct StatusLine {
    pub name: String,
    pub status: String,
    pub color: Color,
}

/// What is to be shown for an event.
#[derive(Debug, PartialEq, Eq)]
pub enum Report {
    /// Nothing.
    Nothing,
    /// The message itself, as JSON.
    Json,
    /// How one test went.
    Status(StatusLine),
    /// A line of text.
    Line(String),
    /// The result of the suite: this text, followed by the time the run
    /// took.
    Summary(String),
}

/// A report as a mathematical value.
pub enum ReportView {
    Nothing,
    Json,
    Status { name: Seq<char>, status: Seq<char>, color: Color },
    Line(Seq<char>),
    Summary(Seq<char>),
}

impl View for Report {
    type V = ReportView;

    open spec fn view(&self) -> ReportView {
        match *self {
            Report::Nothing => ReportView::Nothing,
            Report::Json => ReportView::Json,
            Report::Status(line) => ReportView::Status {
                name: line.name@,
                status: line.status@,
                color: line.color,
            },
            Report::Line(text) => ReportView::Line(text@),
            Report::Summary(text) => ReportView::Summary(text@),
        }
    }
}

/// The text of a status line.
pub open spec fn status_text(name: Seq<char>, status: Seq<char>) -> Seq<char> {
    "test "@ + name + " ... "@ + status
}

/// The line that announces how many tests a suite runs.
pub open spec fn running_text(test_count: u64) -> Seq<char> {
    "\nrunning "@ + decimal_digits(test_count as nat) + " tests"@
}

/// The result of a suite, up to where the time taken follows.
pub open spec fn summary_text(
    ok: bool,
    passed: u64,
    failed: u64,
    ignored: u64,
    measured: u64,
    filtered_out: u64,
) -> Seq<char> {
    "\ntest result: "@ + (if ok {
        "ok"@
    } else {
        "FAILED"@
    }) + ". "@ + decimal_digits(passed as nat) + " passed; "@ + decimal_digits(failed as nat)
        + " failed; "@ + decimal_digits(ignored as nat) + " ignored; "@ + decimal_digits(
        measured as nat,
    ) + " measured; "@ + decimal_digits(filtered_out as nat) + " filtered out; finished in "@
}

/// What is shown for an event: as JSON the message itself; for a human
/// reader a status line for a test, the count when a suite starts, its
/// result when it ends, and nothing for any other message.
pub open spec fn report_for(json: bool, event: EventView) -> ReportView {
    if json {
        ReportView::Json
    } else {
        match event {
            EventView::TestFailed { name } => ReportView::Status {
                name,
                status: "failed"@,
                color: Color::Red,
            },
            EventView::TestOk { name } => ReportView::Status {
                name,
                status: "ok"@,
                color: Color::Green,
            },
            EventView::TestIgnored { name } => ReportView::Status {
                name,
                status: "ignored"@,
                color: Color::Yellow,
            },
            EventView::SuiteStarted { test_count } => ReportView::Line(running_text(test_count)),
            EventView::SuiteOk { passed, failed, ignored, measured, filtered_out } => ReportView::Summary(
                summary_text(true, passed, failed, ignored, measured, filtered_out),
            ),
            EventView::SuiteFailed {
                passed,
                failed,
                ignored,
                measured,
                filtered_out,
            } => ReportView::Summary(
                summary_text(false, passed, failed, ignored, measured, filtered_out),
            ),
            EventView::Other => ReportView::Nothing,
        }
    }
}

/// The test that an event adds to the failures: the one it reports as
/// failed.
pub open spec fn newly_failed(event: EventView) -> Option<Seq<char>> {
    match event {
        EventView::TestFailed { name } => Some(name),
        _ => None,
    }
}

impl StatusLine {
    /// The line as text, without colour.
    pub fn text(&self) -> (r: String)
        ensures
            r@ == status_text(self.name@, self.status@),
    {
        let mut out = "test ".to_owned();
        out.append(self.name.as_str());
        out.append(" ... ");
        out.append(self.status.as_str());
        out
    }
}

/// The status line of the test `name`.
pub fn test_status(name: &str, status: &str, color: Color) -> (r: StatusLine)
    ensures
        r.name@ == name@,
        r.status@ == status@,
        r.color == color,
{
    StatusLine { name: name.to_owned(), status: status.to_owned(), color }
}

/// The line that announces how many tests a suite runs.
fn running(test_count: u64) -> (r: String)
    ensures
        r@ == running_text(test_count),
{
    let mut out = "\nrunning ".to_owned();
    out.append(decimal(test_count).as_str());
    out.append(" tests");
    out
}

/// The result of a suite, up to where the time taken follows.
fn summary(ok: bool, passed: u64, failed: u64, ignored: u64, measured: u64, filtered_out: u64) -> (r:
    String)
    ensures
        r@ == summary_text(ok, passed, failed, ignored, measured, filtered_out),
{
    let mut out = "\ntest result: ".to_owned();
    if ok {
        out.append("ok");
    } else {
        out.append("FAILED");
    }
    out.append(". ");
    out.append(decimal(passed).as_str());
    out.append(" passed; ");
    out.append(decimal(failed).as_str());
    out.append(" failed; ");
    out.append(decimal(ignored).as_str());
    out.append(" ignored; ");
    out.append(decimal(measured).as_str());
    out.append(" measured; ");
    out.append(decimal(filtered_out).as_str());
    out.append(" filtered out; finished in ");
    out
}

/// What was seen of the run of one suite.
#[derive(Debug)]
pub struct SuiteRun {
    /// The suite that was run.
    pub suite: TestSuite,
    /// The paths found in the suite's checkpoint directory before the
    /// run; none where the directory was not there.
    pub checkpointed: Vec<String>,
    /// The lines that the run wrote, in order.
    pub lines: Vec<String>,
}

/// The events among `lines`, in order: what each line decodes to, the
/// lines that do not decode left out.
pub open spec fn observed_events(lines: Seq<Seq<char>>) -> Seq<EventView>
    decreases lines.len(),
{
    if lines.len() == 0 {
        Seq::empty()
    } else {
        let rest = observed_events(lines.drop_last());
        match decoded(lines.last()) {
            Ok(event) => rest.push(event),
            Err(_) => rest,
        }
    }
}

/// Tells `cmd` to skip `tests`: `--skip` and the name are added for each
/// of them.
pub fn skip_tests(cmd: &mut TestCommand, tests: &Vec<String>)
    ensures
        final(cmd)@ == old(cmd)@.args(skip_args(texts(tests@))),
{
    let mut i: usize = 0;
    proof {
        assert(texts(tests@).subrange(0, 0) =~= Seq::<Seq<char>>::empty());
        assert(cmd@.args + skip_args(Seq::<Seq<char>>::empty()) =~= cmd@.args);
    }
    while i < tests.len()
        invariant
            i <= tests.len(),
            cmd@ == old(cmd)@.args(skip_args(texts(tests@).subrange(0, i as int))),
        decreases tests.len() - i,
    {
        let ghost done = texts(tests@).subrange(0, i as int);
        let ghost next = texts(tests@).subrange(0, i + 1);
        cmd.arg("--skip");
        cmd.arg(tests[i].as_str());
        proof {
            assert(next.drop_last() =~= done);
            assert(next.last() == tests[i as int]@);
            assert(cmd@.args =~= old(cmd)@.args + skip_args(next));
        }
        i += 1;
    }
    proof {
        assert(texts(tests@).subrange(0, tests.len() as int) =~= texts(tests@));
    }
}

impl App {
    /// The command of the discovery run of `suite`: the test binary with
    /// what every run is given, logging off, the bound on the duration
    /// where there is one, and the name filter where one was given.
    /// Neither a checkpoint file nor location capture is set.
    pub open spec fn discovery(&self, suite: TestSuiteView) -> TestCommandView {
        let cmd = self.loom_command(TestCommandView::program(suite.path)).env(
            ENV_LOOM_LOG@,
            "off"@,
        ).env_opt(ENV_MAX_DURATION@, opt_text(self.max_duration));
        match self.filter() {
            Some(name) => cmd.arg(name),
            None => cmd,
        }
    }

    /// The command of the discovery run of `suite`, before any test is
    /// skipped.
    pub fn discovery_command(&self, suite: &TestSuite) -> (r: TestCommand)
        ensures
            r@ == self.discovery(suite@),
    {
        let mut cmd = TestCommand::new(suite.path.as_str());
        self.configure_loom_command(&mut cmd);
        cmd.env(ENV_LOOM_LOG, "off");
        if let Some(max_duration) = &self.max_duration {
            cmd.env(ENV_MAX_DURATION, max_duration.as_str());
        }
        if let Some(testname) = &self.args.testname {
            cmd.arg(testname.as_str());
        }
        cmd
    }

    /// The directory that holds the checkpoints of `suite`, if it has one.
    /// Where each binary has a directory of its own, that is the one
    /// below the checkpoint directory that is named after the binary's
    /// file, and there is none where the binary's path has no file name.
    /// Where all suites share the checkpoint directory, it is that one,
    /// with the suite's name leading the file names.
    pub open spec fn checkpoints_of(&self, suite: TestSuiteView) -> Option<CheckpointDirView> {
        match self.scope {
            CheckpointScope::Binary => match final_component(suite.path) {
                Some(name) => Some(CheckpointDirView::below(self.checkpoint_dir@, name)),
                None => None,
            },
            CheckpointScope::Shared => Some(
                CheckpointDirView { dir: self.checkpoint_dir@, prefix: suite_prefix(suite.name) },
            ),
        }
    }

    /// The directory that holds the checkpoints of `suite`. An error where
    /// each binary has a directory of its own and the binary's path has
    /// no file name.
    pub fn suite_checkpoints(&self, suite: &TestSuite) -> (r: Result<CheckpointDir, DiscoveryError>)
        ensures
            match self.checkpoints_of(suite@) {
                Some(dir) => r matches Ok(d) && d@ == dir,
                None => r matches Err(DiscoveryError::NoFileName { path }) && path@ == suite.path@,
            },
    {
        match self.scope {
            CheckpointScope::Binary => {
                match CheckpointDir::for_binary(
                    self.checkpoint_dir.as_str(),
                    suite.path.as_str(),
                ) {
                    Some(dir) => Ok(dir),
                    None => Err(DiscoveryError::NoFileName { path: suite.path.clone() }),
                }
            },
            CheckpointScope::Shared => Ok(
                CheckpointDir::shared(self.checkpoint_dir.as_str(), suite.name.as_str()),
            ),
        }
    }

    /// The tests that an earlier run left checkpoints of in the directory
    /// `dir`: for each of `entries`, the paths found in the directory,
    /// that is the checkpoint of a test which the name filter lets
    /// through, the name of that test.
    pub fn checkpointed_tests(&self, dir: &CheckpointDir, entries: &Vec<String>) -> (known: Vec<
        String,
    >)
        ensures
            texts(known@) == known_tests(dir.prefix@, self.filter(), texts(entries@)),
    {
        let mut known: Vec<String> = Vec::new();
        let mut i: usize = 0;
        proof {
            assert(texts(entries@).subrange(0, 0) =~= Seq::<Seq<char>>::empty());
            assert(texts(known@) =~= Seq::<Seq<char>>::empty());
        }
        while i < entries.len()
            invariant
                i <= entries.len(),
                texts(known@) == known_tests(
                    dir.prefix@,
                    self.filter(),
                    texts(entries@).subrange(0, i as int),
                ),
            decreases entries.len() - i,
        {
            let ghost seen = texts(entries@).subrange(0, i as int);
            let ghost next = texts(entries@).subrange(0, i + 1);
            let ghost had = texts(known@);
            proof {
                assert(next.drop_last() =~= seen);
                assert(next.last() == entries[i as int]@);
            }
            match dir.checkpointed_test(entries[i].as_str()) {
                Some(test) => {
                    if included(&self.args.testname, test.as_str()) {
                        known.push(test);
                        proof {
                            assert(texts(known@) =~= had.push(test@));
                        }
                    }
                },
                None => {},
            }
            i += 1;
        }
        proof {
            assert(texts(entries@).subrange(0, entries.len() as int) =~= texts(entries@));
        }
        known
    }

    /// Takes over what an earlier run left in the checkpoint directory
    /// `dir` of `suite`. Each of `entries`, the paths found in the
    /// directory, that is the checkpoint of a test which the name filter
    /// lets through, is recorded as a failure of `suite`, and `cmd` is told
    /// to skip that test. Returns the names of these tests.
    pub fn skip_checkpointed(
        &self,
        failed: &mut Failed,
        cmd: &mut TestCommand,
        suite: &TestSuite,
        dir: &CheckpointDir,
        entries: &Vec<String>,
    ) -> (known: Vec<String>)
        requires
            old(failed).wf(),
            old(failed).open_suite() matches Some(n) ==> n == suite.name@,
        ensures
            texts(known@) == known_tests(dir.prefix@, self.filter(), texts(entries@)),
            final(cmd)@ == old(cmd)@.args(skip_args(texts(known@))),
            final(failed).wf(),
            final(failed).cases(suite.name@) == old(failed).cases(suite.name@) + cases_for(
                suite.name@,
                dir@,
                texts(known@),
            ),
            forall|s: Seq<char>| s != suite.name@ ==> final(failed).cases(s) == old(failed).cases(s),
            forall|s: Seq<char>| final(failed).command(s) == old(failed).command(s),
            final(failed).open_suite() == if known.len() > 0 {
                Some(suite.name@)
            } else {
                old(failed).open_suite()
            },
            final(failed).dirs() == if known.len() > 0 && !old(failed).dirs().contains(dir.dir@) {
                old(failed).dirs().push(dir.dir@)
            } else {
                old(failed).dirs()
            },
            final(failed).suites() == if known.len() > 0 && !old(failed).suites().contains(
                suite.name@,
            ) {
                old(failed).suites().push(suite.name@)
            } else {
                old(failed).suites()
            },
    {
        let known = self.checkpointed_tests(dir, entries);
        skip_tests(cmd, &known);
        failed.fail_tests(suite, &known, dir);
        known
    }

    /// Whether messages are shown as JSON.
    pub open spec fn json(&self) -> bool {
        self.args.trace_settings.message_format == crate::trace::MessageFormat::Json
    }

    /// Takes note of one event of the run of `suite`, whose checkpoints
    /// are kept in `dir`: a test reported as failed is recorded as a
    /// failure of the suite, whatever its name; nothing else changes the
    /// ledger. Returns what is to be shown.
    pub fn observe(
        &self,
        failed: &mut Failed,
        suite: &TestSuite,
        dir: &CheckpointDir,
        event: Event,
    ) -> (report: Report)
        requires
            old(failed).wf(),
            old(failed).open_suite() matches Some(n) ==> n == suite.name@,
        ensures
            report@ == report_for(self.json(), event@),
            final(failed).wf(),
            match newly_failed(event@) {
                Some(name) => {
                    &&& final(failed).cases(suite.name@) == old(failed).cases(suite.name@).push(
                        failed_test(suite.name@, name, dir@),
                    )
                    &&& forall|s: Seq<char>|
                        s != suite.name@ ==> final(failed).cases(s) == old(failed).cases(s)
                    &&& forall|s: Seq<char>| final(failed).command(s) == old(failed).command(s)
                    &&& final(failed).open_suite() == Some(suite.name@)
                    &&& final(failed).dirs() == if old(failed).dirs().contains(dir.dir@) {
                        old(failed).dirs()
                    } else {
                        old(failed).dirs().push(dir.dir@)
                    }
                    &&& final(failed).suites() == if old(failed).suites().contains(suite.name@) {
                        old(failed).suites()
                    } else {
                        old(failed).suites().push(suite.name@)
                    }
                },
                None => *final(failed) == *old(failed),
            },
    {
        let json = self.args.trace_settings.message_format().is_json();
        match event {
            Event::TestFailed { name } => {
                let report = if json {
                    Report::Json
                } else {
                    Report::Status(test_status(name.as_str(), "failed", Color::Red))
                };
                failed.fail_test(suite, name, dir);
                report
            },
            Event::TestOk { name } => {
                if json {
                    Report::Json
                } else {
                    Report::Status(test_status(name.as_str(), "ok", Color::Green))
                }
            },
            Event::TestIgnored { name } => {
                if json {
                    Report::Json
                } else {
                    Report::Status(test_status(name.as_str(), "ignored", Color::Yellow))
                }
            },
            Event::SuiteStarted { test_count } => {
                if json {
                    Report::Json
                } else {
                    Report::Line(running(test_count))
                }
            },
            Event::SuiteOk { passed, failed: fail, ignored, measured, filtered_out } => {
                if json {
                    Report::Json
                } else {
                    Report::Summary(summary(true, passed, fail, ignored, measured, filtered_out))
                }
            },
            Event::SuiteFailed { passed, failed: fail, ignored, measured, filtered_out } => {
                if json {
                    Report::Json
                } else {
                    Report::Summary(summary(false, passed, fail, ignored, measured, filtered_out))
                }
            },
            Event::Other => {
                if json {
                    Report::Json
                } else {
                    Report::Nothing
                }
            },
        }
    }

    /// The path of the first binary among `runs` for which there is no
    /// checkpoint directory.
    pub open spec fn first_nameless(&self, runs: Seq<SuiteRun>) -> Option<Seq<char>>
        decreases runs.len(),
    {
        if runs.len() == 0 {
            None
        } else {
            match self.first_nameless(runs.drop_last()) {
                Some(path) => Some(path),
                None => if self.checkpoints_of(runs.last().suite@) is None {
                    Some(runs.last().suite.path@)
                } else {
                    None
                },
            }
        }
    }

    /// The directory that holds the checkpoints of the suite of `run`.
    pub open spec fn run_dir(&self, run: SuiteRun) -> CheckpointDirView {
        self.checkpoints_of(run.suite@)->0
    }

    /// The tests that an earlier run of the suite of `run` left
    /// checkpoints of and that the name filter lets through.
    pub open spec fn run_known(&self, run: SuiteRun) -> Seq<Seq<char>> {
        known_tests(self.run_dir(run).prefix, self.filter(), texts(run.checkpointed@))
    }

    /// The command of the discovery run of `run`: that of its suite, told
    /// to skip the tests that an earlier run left checkpoints of.
    pub open spec fn run_discovery(&self, run: SuiteRun) -> TestCommandView {
        self.discovery(run.suite@).args(skip_args(self.run_known(run)))
    }

    /// The tests of `run` that fail: those checkpointed by an earlier run,
    /// as far as the name filter lets them through, then all those that
    /// this run reported as failed.
    pub open spec fn run_tests(&self, run: SuiteRun) -> Seq<Seq<char>> {
        self.run_known(run) + failed_tests(observed_events(texts(run.lines@)))
    }

    /// The failing cases that `run` adds to its suite.
    pub open spec fn run_cases(&self, run: SuiteRun) -> Seq<FailedTestView> {
        cases_for(run.suite.name@, self.run_dir(run), self.run_tests(run))
    }

    /// The failing cases of `suite` after `runs`: those of each run of a
    /// suite of that name, one run after the other.
    pub open spec fn recorded_cases(&self, runs: Seq<SuiteRun>, suite: Seq<char>) -> Seq<
        FailedTestView,
    >
        decreases runs.len(),
    {
        if runs.len() == 0 {
            Seq::empty()
        } else if runs.last().suite.name@ == suite {
            self.recorded_cases(runs.drop_last(), suite) + self.run_cases(runs.last())
        } else {
            self.recorded_cases(runs.drop_last(), suite)
        }
    }

    /// The suite retained as `suite` after `runs`: that of the last run of
    /// a suite of that name in which a case failed.
    pub open spec fn recorded_command(&self, runs: Seq<SuiteRun>, suite: Seq<char>) -> Option<
        TestSuiteView,
    >
        decreases runs.len(),
    {
        if runs.len() == 0 {
            None
        } else if runs.last().suite.name@ == suite && self.run_cases(runs.last()).len() > 0 {
            Some(runs.last().suite@)
        } else {
            self.recorded_command(runs.drop_last(), suite)
        }
    }

    /// The suites with failing cases after `runs`, in the order of their
    /// first failure.
    pub open spec fn recorded_suites(&self, runs: Seq<SuiteRun>) -> Seq<Seq<char>>
        decreases runs.len(),
    {
        if runs.len() == 0 {
            Seq::empty()
        } else {
            let rest = self.recorded_suites(runs.drop_last());
            if self.run_cases(runs.last()).len() > 0 && !rest.contains(runs.last().suite.name@) {
                rest.push(runs.last().suite.name@)
            } else {
                rest
            }
        }
    }

    /// The checkpoint directories touched by `runs`, in the order of
    /// first use: those of the runs in which a case failed.
    pub open spec fn recorded_dirs(&self, runs: Seq<SuiteRun>) -> Seq<Seq<char>>
        decreases runs.len(),
    {
        if runs.len() == 0 {
            Seq::empty()
        } else {
            let rest = self.recorded_dirs(runs.drop_last());
            if self.run_cases(runs.last()).len() > 0 && !rest.contains(
                self.run_dir(runs.last()).dir,
            ) {
                rest.push(self.run_dir(runs.last()).dir)
            } else {
                rest
            }
        }
    }

    /// Whether nothing speaks against `suite` in `runs`: no run of a suite
    /// of that name reported a failed test, and for none did an earlier
    /// run leave a checkpoint that the name filter lets through.
    pub open spec fn is_clean(&self, runs: Seq<SuiteRun>, suite: Seq<char>) -> bool {
        forall|i: int|
            0 <= i < runs.len() && (#[trigger] runs[i]).suite.name@ == suite ==> no_test_failed(
                observed_events(texts(runs[i].lines@)),
            ) && self.run_known(runs[i]).len() == 0
    }

    /// Takes note of the lines that the run of `suite` wrote: each line
    /// that decodes is observed, each other line is passed over.
    fn observe_lines(
        &self,
        failed: &mut Failed,
        suite: &TestSuite,
        dir: &CheckpointDir,
        lines: &Vec<String>,
    )
        requires
            old(failed).wf(),
            old(failed).open_suite() matches Some(n) ==> n == suite.name@,
        ensures
            final(failed).wf(),
            final(failed).cases(suite.name@) == old(failed).cases(suite.name@) + cases_for(
                suite.name@,
                dir@,
                reported_failed(texts(lines@)),
            ),
            forall|s: Seq<char>| s != suite.name@ ==> final(failed).cases(s) == old(failed).cases(s),
            forall|s: Seq<char>| final(failed).command(s) == old(failed).command(s),
            final(failed).open_suite() == if reported_failed(texts(lines@)).len() > 0 {
                Some(suite.name@)
            } else {
                old(failed).open_suite()
            },
            final(failed).dirs() == if reported_failed(texts(lines@)).len() > 0 && !old(
                failed,
            ).dirs().contains(dir.dir@) {
                old(failed).dirs().push(dir.dir@)
            } else {
                old(failed).dirs()
            },
            final(failed).suites() == if reported_failed(texts(lines@)).len() > 0 && !old(
                failed,
            ).suites().contains(suite.name@) {
                old(failed).suites().push(suite.name@)
            } else {
                old(failed).suites()
            },
    {
        let mut j: usize = 0;
        proof {
            assert(texts(lines@).subrange(0, 0) =~= Seq::<Seq<char>>::empty());
            assert(failed.cases(suite.name@) + cases_for(
                suite.name@,
                dir@,
                Seq::<Seq<char>>::empty(),
            ) =~= failed.cases(suite.name@));
        }
        while j < lines.len()
            invariant
                j <= lines.len(),
                failed.wf(),
                failed.cases(suite.name@) == old(failed).cases(suite.name@) + cases_for(
                    suite.name@,
                    dir@,
                    reported_failed(texts(lines@).subrange(0, j as int)),
                ),
                forall|s: Seq<char>| s != suite.name@ ==> failed.cases(s) == old(failed).cases(s),
                forall|s: Seq<char>| failed.command(s) == old(failed).command(s),
                failed.open_suite() == if reported_failed(
                    texts(lines@).subrange(0, j as int),
                ).len() > 0 {
                    Some(suite.name@)
                } else {
                    old(failed).open_suite()
                },
                failed.dirs() == if reported_failed(texts(lines@).subrange(0, j as int)).len() > 0
                    && !old(failed).dirs().contains(dir.dir@) {
                    old(failed).dirs().push(dir.dir@)
                } else {
                    old(failed).dirs()
                },
                failed.suites() == if reported_failed(texts(lines@).subrange(0, j as int)).len()
                    > 0 && !old(failed).suites().contains(suite.name@) {
                    old(failed).suites().push(suite.name@)
                } else {
                    old(failed).suites()
                },
                old(failed).open_suite() matches Some(n) ==> n == suite.name@,
            decreases lines.len() - j,
        {
            let ghost seen = texts(lines@).subrange(0, j as int);
            let ghost next = texts(lines@).subrange(0, j + 1);
            let ghost had = reported_failed(seen);
            proof {
                assert(next.drop_last() =~= seen);
                assert(next.last() == lines[j as int]@);
            }
            match decode_line(lines[j].as_str()) {
                Ok(event) => {
                    let ghost ev = event@;
                    proof {
                        assert(observed_events(next) == observed_events(seen).push(ev));
                        assert(observed_events(next).drop_last() =~= observed_events(seen));
                        let dirs = failed.dirs();
                        if dirs != old(failed).dirs() {
                            assert(dirs[dirs.len() - 1] == dir.dir@);
                        }
                        let suites = failed.suites();
                        if suites != old(failed).suites() {
                            assert(suites[suites.len() - 1] == suite.name@);
                        }
                    }
                    let _ = self.observe(failed, suite, dir, event);
                    proof {
                        let now = reported_failed(next);
                        match newly_failed(ev) {
                            Some(name) => {
                                assert(now == had.push(name));
                                assert(cases_for(suite.name@, dir@, now) =~= cases_for(
                                    suite.name@,
                                    dir@,
                                    had,
                                ).push(failed_test(suite.name@, name, dir@)));
                                assert(failed.cases(suite.name@) =~= old(failed).cases(suite.name@)
                                    + cases_for(suite.name@, dir@, now));
                            },
                            None => {
                                assert(now == had);
                            },
                        }
                    }
                },
                Err(_) => {
                    proof {
                        assert(observed_events(next) == observed_events(seen));
                    }
                },
            }
            j += 1;
        }
        proof {
            assert(texts(lines@).subrange(0, lines.len() as int) =~= texts(lines@));
        }
    }

    /// The command of the discovery run of `run`: that of its suite, told
    /// to skip every test that an earlier run left a checkpoint of and
    /// that the name filter lets through. An error where there is no
    /// checkpoint directory for the suite.
    pub fn run_command(&self, run: &SuiteRun) -> (r: Result<TestCommand, DiscoveryError>)
        ensures
            match self.checkpoints_of(run.suite@) {
                Some(_) => r matches Ok(cmd) && cmd@ == self.run_discovery(*run),
                None => r matches Err(DiscoveryError::NoFileName { path }) && path@
                    == run.suite.path@,
            },
    {
        match self.suite_checkpoints(&run.suite) {
            Ok(dir) => {
                let mut cmd = self.discovery_command(&run.suite);
                skip_tests(&mut cmd, &self.checkpointed_tests(&dir, &run.checkpointed));
                Ok(cmd)
            },
            Err(e) => Err(e),
        }
    }

    /// Collects the failing tests from what was seen of the runs of a
    /// package's suites, one suite after the other: for each suite the
    /// tests checkpointed by an earlier run, as far as the name filter
    /// lets them through, then every test that the run reported as
    /// failed. A suite is retained exactly if a case of it failed; one
    /// against which nothing speaks has no case, is not listed and is not
    /// retained.
    ///
    /// An error, and no ledger, where there is no checkpoint directory for
    /// a suite because the path of its binary has no file name.
    pub fn failing_tests(&self, runs: &Vec<SuiteRun>) -> (r: Result<Failed, DiscoveryError>)
        ensures
            match self.first_nameless(runs@) {
                Some(bad) => r matches Err(DiscoveryError::NoFileName { path }) && path@ == bad,
                None => {
                    &&& r matches Ok(failed)
                    &&& failed.wf()
                    &&& failed.open_suite() is None
                    &&& forall|s: Seq<char>| failed.cases(s) == self.recorded_cases(runs@, s)
                    &&& forall|s: Seq<char>| failed.command(s) == self.recorded_command(runs@, s)
                    &&& failed.suites() == self.recorded_suites(runs@)
                    &&& failed.dirs() == self.recorded_dirs(runs@)
                    &&& forall|s: Seq<char>| #[trigger]
                        self.is_clean(runs@, s) ==> {
                            &&& failed.cases(s) == Seq::<FailedTestView>::empty()
                            &&& failed.command(s) is None
                            &&& !failed.suites().contains(s)
                        }
                },
            },
    {
        let mut failed = Failed::new();
        let mut i: usize = 0;
        proof {
            assert(runs@.subrange(0, 0) =~= Seq::<SuiteRun>::empty());
        }
        while i < runs.len()
            invariant
                i <= runs.len(),
                self.first_nameless(runs@.subrange(0, i as int)) is None,
                failed.wf(),
                failed.open_suite() is None,
                forall|s: Seq<char>|
                    failed.cases(s) == self.recorded_cases(runs@.subrange(0, i as int), s),
                forall|s: Seq<char>|
                    failed.command(s) == self.recorded_command(runs@.subrange(0, i as int), s),
                failed.suites() == self.recorded_suites(runs@.subrange(0, i as int)),
                failed.dirs() == self.recorded_dirs(runs@.subrange(0, i as int)),
            decreases runs.len() - i,
        {
            let run = &runs[i];
            let ghost seen = runs@.subrange(0, i as int);
            let ghost next = runs@.subrange(0, i + 1);
            let ghost name = run.suite.name@;
            proof {
                assert(next.drop_last() =~= seen);
                assert(next.last() == runs[i as int]);
            }
            let dir = match self.suite_checkpoints(&run.suite) {
                Ok(dir) => dir,
                Err(e) => {
                    proof {
                        lemma_first_nameless_stays(*self, runs@, i + 1);
                    }
                    return Err(e);
                },
            };
            let ghost before = failed;
            let known = self.checkpointed_tests(&dir, &run.checkpointed);
            failed.fail_tests(&run.suite, &known, &dir);
            let ghost mid = failed;
            self.observe_lines(&mut failed, &run.suite, &dir, &run.lines);
            let ghost open = failed.open_suite();
            failed.finish_suite(run.suite.duplicate());
            proof {
                let found = reported_failed(texts(run.lines@));
                assert(self.run_tests(*run) == texts(known@) + found);
                assert(cases_for(name, dir@, texts(known@)) + cases_for(name, dir@, found)
                    =~= self.run_cases(*run));
                assert(failed.cases(name) =~= before.cases(name) + self.run_cases(*run));
                assert(self.run_cases(*run).len() == known.len() + found.len());
                if known.len() > 0 {
                    let dirs = mid.dirs();
                    if dirs != before.dirs() {
                        assert(dirs[dirs.len() - 1] == dir.dir@);
                    }
                    let suites = mid.suites();
                    if suites != before.suites() {
                        assert(suites[suites.len() - 1] == name);
                    }
                }
                assert(failed.suites() == self.recorded_suites(next));
                assert(failed.dirs() == self.recorded_dirs(next));
                assert(open == if self.run_cases(*run).len() > 0 {
                    Some(name)
                } else {
                    None::<Seq<char>>
                });
                assert forall|s: Seq<char>| failed.cases(s) == self.recorded_cases(next, s) by {
                    if s != name {
                        assert(failed.cases(s) == before.cases(s));
                    }
                }
                assert forall|s: Seq<char>| failed.command(s) == self.recorded_command(next, s) by {
                    assert(mid.command(s) == before.command(s));
                }
            }
            i += 1;
        }
        proof {
            assert(runs@.subrange(0, runs.len() as int) =~= runs@);
            assert forall|s: Seq<char>| #[trigger] self.is_clean(runs@, s) implies {
                &&& failed.cases(s) == Seq::<FailedTestView>::empty()
                &&& failed.command(s) is None
                &&& !failed.suites().contains(s)
            } by {
                lemma_no_failure_no_entry(*self, runs@, s);
            }
        }
        Ok(failed)
    }
}

/// The tests that a run which wrote `lines` reported as failed, in the
/// order reported.
pub open spec fn reported_failed(lines: Seq<Seq<char>>) -> Seq<Seq<char>> {
    failed_tests(observed_events(lines))
}

/// Once a binary without a checkpoint directory is among the first `n`
/// runs, the first such binary of all runs is that one.
proof fn lemma_first_nameless_stays(app: App, runs: Seq<SuiteRun>, n: int)
    requires
        0 <= n <= runs.len(),
        app.first_nameless(runs.subrange(0, n)) is Some,
    ensures
        app.first_nameless(runs) == app.first_nameless(runs.subrange(0, n)),
    decreases runs.len() - n,
{
    if n < runs.len() {
        assert(runs.subrange(0, n + 1).drop_last() =~= runs.subrange(0, n));
        lemma_first_nameless_stays(app, runs, n + 1);
    } else {
        assert(runs.subrange(0, n) =~= runs);
    }
}

/// None of `events` reports a test as failed.
pub open spec fn no_test_failed(events: Seq<EventView>) -> bool {
    forall|k: int| 0 <= k < events.len() ==> !(#[trigger] events[k] is TestFailed)
}

/// Events of which none reports a failure give no failing test.
pub proof fn lemma_no_failure_no_test(events: Seq<EventView>)
    requires
        no_test_failed(events),
    ensures
        failed_tests(events) == Seq::<Seq<char>>::empty(),
    decreases events.len(),
{
    if events.len() > 0 {
        assert(!(events[events.len() - 1] is TestFailed));
        assert forall|k: int| 0 <= k < events.drop_last().len() implies !(
        #[trigger] events.drop_last()[k] is TestFailed) by {
            assert(events.drop_last()[k] == events[k]);
        }
        lemma_no_failure_no_test(events.drop_last());
    }
}

/// A suite none of whose runs reported a failed test, and for which no
/// earlier run left a checkpoint that counts, has no case in the ledger,
/// is not listed in it and is not retained.
pub proof fn lemma_no_failure_no_entry(app: App, runs: Seq<SuiteRun>, suite: Seq<char>)
    requires
        app.is_clean(runs, suite),
    ensures
        app.recorded_cases(runs, suite) == Seq::<FailedTestView>::empty(),
        app.recorded_command(runs, suite) is None,
        !app.recorded_suites(runs).contains(suite),
    decreases runs.len(),
{
    if runs.len() > 0 {
        let last = runs[runs.len() - 1];
        let rest = app.recorded_suites(runs.drop_last());
        assert(app.is_clean(runs.drop_last(), suite)) by {
            assert forall|i: int|
                0 <= i < runs.drop_last().len() && (#[trigger] runs.drop_last()[i]).suite.name@
                    == suite implies no_test_failed(
                observed_events(texts(runs.drop_last()[i].lines@)),
            ) && app.run_known(runs.drop_last()[i]).len() == 0 by {
                assert(runs.drop_last()[i] == runs[i]);
            }
        }
        lemma_no_failure_no_entry(app, runs.drop_last(), suite);
        if last.suite.name@ == suite {
            lemma_no_failure_no_test(observed_events(texts(last.lines@)));
            assert(app.run_tests(last) =~= Seq::<Seq<char>>::empty());
            assert(app.run_cases(last) =~= Seq::<FailedTestView>::empty());
            assert(app.recorded_cases(runs, suite) =~= Seq::<FailedTestView>::empty());
        } else {
            if rest.push(last.suite.name@).contains(suite) {
                let w = choose|w: int|
                    0 <= w < rest.push(last.suite.name@).len() && rest.push(last.suite.name@)[w]
                        == suite;
                assert(rest[w] == suite);
            }
        }
    }
}

/// The arguments that skip tests come in pairs, one pair for each test
/// and in the order of the tests: `--skip`, then the name.
pub proof fn lemma_skip_args_are_pairs(tests: Seq<Seq<char>>, k: int)
    requires
        0 <= k < tests.len(),
    ensures
        skip_args(tests).len() == 2 * tests.len(),
        skip_args(tests)[2 * k] == "--skip"@,
        skip_args(tests)[2 * k + 1] == tests[k],
    decreases tests.len(),
{
    lemma_skip_args_len(tests);
    lemma_skip_args_len(tests.drop_last());
    if k < tests.len() - 1 {
        lemma_skip_args_are_pairs(tests.drop_last(), k);
    }
}

proof fn lemma_skip_args_len(tests: Seq<Seq<char>>)
    ensures
        skip_args(tests).len() == 2 * tests.len(),
    decreases tests.len(),
{
    if tests.len() > 0 {
        lemma_skip_args_len(tests.drop_last());
    }
}

/// A checkpoint among the entries of a directory is found: where the
/// entry at `at` is the checkpoint of `test` and the name filter lets
/// `test` through, `test` is among the known tests, at the place that is
/// returned.
pub proof fn lemma_checkpoint_is_known(
    prefix: Seq<char>,
    filter: Option<Seq<char>>,
    entries: Seq<Seq<char>>,
    at: int,
    test: Seq<char>,
) -> (k: int)
    requires
        0 <= at < entries.len(),
        test_in_entry(prefix, entries[at]) == Some(test),
        is_included(filter, test),
    ensures
        0 <= k < known_tests(prefix, filter, entries).len(),
        known_tests(prefix, filter, entries)[k] == test,
    decreases entries.len(),
{
    let rest = known_tests(prefix, filter, entries.drop_last());
    if at == entries.len() - 1 {
        rest.len() as int
    } else {
        assert(entries.drop_last()[at] == entries[at]);
        lemma_checkpoint_is_known(prefix, filter, entries.drop_last(), at, test)
    }
}

/// What an earlier run left is taken up. Where the checkpoint directory
/// of a run's suite holds the checkpoint file of `test` as its entry
/// `at`, and the name filter lets `test` through, the run records `test`
/// as a failing case of its suite with that file's place as its
/// checkpoint, and its command skips `test`: `--skip` and the name stand
/// side by side among its arguments.
pub proof fn lemma_earlier_checkpoint_is_taken_up(
    app: App,
    run: SuiteRun,
    at: int,
    test: Seq<char>,
) -> (k: int)
    requires
        app.checkpoints_of(run.suite@) is Some,
        0 <= at < run.checkpointed.len(),
        final_component(run.checkpointed[at]@) == Some(
            checkpoint_file(app.run_dir(run).prefix, test),
        ),
        app.run_dir(run).prefix.len() + test.len() > 0,
        is_included(app.filter(), test),
    ensures
        0 <= k < app.run_known(run).len(),
        app.run_known(run)[k] == test,
        k < app.run_cases(run).len(),
        app.run_cases(run)[k] == failed_test(run.suite.name@, test, app.run_dir(run)),
        app.run_discovery(run).args.len() == app.discovery(run.suite@).args.len() + 2
            * app.run_known(run).len(),
        app.run_discovery(run).args[app.discovery(run.suite@).args.len() + 2 * k] == "--skip"@,
        app.run_discovery(run).args[app.discovery(run.suite@).args.len() + 2 * k + 1] == test,
{
    let prefix = app.run_dir(run).prefix;
    let entries = texts(run.checkpointed@);
    lemma_file_names_test(prefix, test);
    assert(entries[at] == run.checkpointed[at]@);
    let k = lemma_checkpoint_is_known(prefix, app.filter(), entries, at, test);
    lemma_skip_args_are_pairs(app.run_known(run), k);
    k
}

/// The discovery run is made without diagnostics: logging is off, and
/// neither a checkpoint file nor location capture is set.
pub proof fn lemma_discovery_has_no_diagnostics(app: App, suite: TestSuiteView)
    ensures
        env_value(app.discovery(suite).envs, ENV_LOOM_LOG@) == Some("off"@),
        env_value(app.discovery(suite).envs, ENV_CHECKPOINT_FILE@) is None,
        env_value(app.discovery(suite).envs, ENV_LOOM_LOCATION@) is None,
        app.discovery(suite).program == suite.path,
{
    lemma_env_names_differ();
    let start = TestCommandView::program(suite.path);
    let loom = app.loom_command(start);
    let quiet = loom.env(ENV_LOOM_LOG@, "off"@);
    let timed = quiet.env_opt(ENV_MAX_DURATION@, opt_text(app.max_duration));
    lemma_loom_command_keeps_other_variables(app, start, ENV_LOOM_LOG@);
    lemma_loom_command_keeps_other_variables(app, start, ENV_CHECKPOINT_FILE@);
    lemma_loom_command_keeps_other_variables(app, start, ENV_LOOM_LOCATION@);
    lemma_env_value_after_set(loom, ENV_LOOM_LOG@, "off"@, ENV_LOOM_LOG@);
    lemma_env_value_after_set(loom, ENV_LOOM_LOG@, "off"@, ENV_CHECKPOINT_FILE@);
    lemma_env_value_after_set(loom, ENV_LOOM_LOG@, "off"@, ENV_LOOM_LOCATION@);
    if app.max_duration is Some {
        let d = app.max_duration->0@;
        lemma_env_value_after_set(quiet, ENV_MAX_DURATION@, d, ENV_LOOM_LOG@);
        lemma_env_value_after_set(quiet, ENV_MAX_DURATION@, d, ENV_CHECKPOINT_FILE@);
        lemma_env_value_after_set(quiet, ENV_MAX_DURATION@, d, ENV_LOOM_LOCATION@);
    }
}

} // verus!
