//! The second pass: every failing case is run again, from its checkpoint,
//! with diagnostics switched on.
//!
//! Each case is a task of its own, and a task is a small state machine:
//! the caller does what an action asks for and hands back what came of it.
//! No task reads or writes what belongs to another, so they can be run in
//! any order or all at once.

use vstd::prelude::*;
use vstd::string::*;
use vstd::seq_lib::{to_multiset_build, to_multiset_insert, to_multiset_remove};
use vstd::utf8::{decode_utf8, valid_utf8};
use crate::command::{
    env_value, lemma_env_names_differ, lemma_env_value_after_set, TestCommand, TestCommandView,
    ENV_CHECKPOINT_FILE, ENV_CHECKPOINT_INTERVAL, ENV_LOOM_LOCATION, ENV_LOOM_LOG,
};
use crate::config::{lemma_loom_command_keeps_other_variables, App};
use crate::ledger::{case_views, lemma_ledger_invariant, Failed};
use crate::suite::{pretty_name, FailedTest, FailedTestView, TestSuite, TestSuiteView};
use crate::text::texts;

verus! {

/// `std::str::from_utf8`: the text that `bytes` encode, where they are
/// valid UTF-8.
#[verifier::external_body]
fn from_utf8(bytes: &[u8]) -> (r: Option<&str>)
    ensures
        r is Some <==> valid_utf8(bytes@),
        r matches Some(s) ==> s@ == decode_utf8(bytes@),
{
    std::str::from_utf8(bytes).ok()
}

/// What a process left behind: the code it exited with, if it exited with
/// one, and what it wrote to standard output and to standard error.
#[derive(Debug, PartialEq, Eq)]
pub struct Captured {
    pub code: Option<i32>,
    pub stdout: Vec<u8>,
    pub stderr: Vec<u8>,
}

/// Captured output as a mathematical value.
pub struct CapturedView {
    pub code: Option<i32>,
    pub stdout: Seq<u8>,
    pub stderr: Seq<u8>,
}

impl View for Captured {
    type V = CapturedView;

    open spec fn view(&self) -> CapturedView {
        CapturedView { code: self.code, stdout: self.stdout@, stderr: self.stderr@ }
    }
}

/// Which of the two runs of a task a process belongs to.
#[derive(Copy, Clone, Debug, PartialEq, Eq, Structural)]
pub enum Step {
    /// The run that writes the checkpoint.
    Checkpoint,
    /// The run with diagnostics, from the checkpoint.
    Rerun,
}

/// What went wrong with running failing cases again.
#[derive(Debug, PartialEq, Eq)]
pub enum RerunError {
    /// A suite has failing cases but was not retained.
    MissingCommand { suite: String },
    /// The process of a step could not be started.
    Spawn { name: String, step: Step, reason: String },
    /// What the test wrote to standard output is not valid UTF-8.
    NotUtf8 { name: String },
    /// A task was handed an event that it was not waiting for.
    OutOfOrder { name: String },
}

/// A rerun error as a mathematical value.
pub enum RerunErrorView {
    MissingCommand { suite: Seq<char> },
    Spawn { name: Seq<char>, step: Step, reason: Seq<char> },
    NotUtf8 { name: Seq<char> },
    OutOfOrder { name: Seq<char> },
}

impl View for RerunError {
    type V = RerunErrorView;

    open spec fn view(&self) -> RerunErrorView {
        match *self {
            RerunError::MissingCommand { suite } => RerunErrorView::MissingCommand { suite: suite@ },
            RerunError::Spawn { name, step, reason } => RerunErrorView::Spawn {
                name: name@,
                step,
                reason: reason@,
            },
            RerunError::NotUtf8 { name } => RerunErrorView::NotUtf8 { name: name@ },
            RerunError::OutOfOrder { name } => RerunErrorView::OutOfOrder { name: name@ },
        }
    }
}

/// The result of running one failing case again: the name it is reported
/// under, and what the run with diagnostics left behind.
#[derive(Debug, PartialEq, Eq)]
pub struct TestOutput {
    pub name: String,
    pub output: Captured,
}

/// A test output as a mathematical value.
pub struct TestOutputView {
    pub name: Seq<char>,
    pub output: CapturedView,
}

impl View for TestOutput {
    type V = TestOutputView;

    open spec fn view(&self) -> TestOutputView {
        TestOutputView { name: self.name@, output: self.output@ }
    }
}

/// The text that a test's result is shown as.
pub open spec fn shown(name: Seq<char>, stdout: Seq<char>) -> Seq<char> {
    "\n --- test "@ + name + " ---\n\n"@ + stdout
}

impl TestOutput {
    /// The name the case is reported under.
    pub fn name(&self) -> (r: &str)
        ensures
            r@ == self.name@,
    {
        self.name.as_str()
    }

    /// What the test wrote to standard output, as text; an error where
    /// that is not valid UTF-8.
    pub fn stdout(&self) -> (r: Result<&str, RerunError>)
        ensures
            match r {
                Ok(text) => valid_utf8(self.output.stdout@) && text@ == decode_utf8(
                    self.output.stdout@,
                ),
                Err(e) => !valid_utf8(self.output.stdout@) && e@ == (RerunErrorView::NotUtf8 {
                    name: self.name@,
                }),
            },
    {
        match from_utf8(self.output.stdout.as_slice()) {
            Some(text) => Ok(text),
            None => Err(RerunError::NotUtf8 { name: self.name.clone() }),
        }
    }

    /// The text that the result is shown as: a heading with the name, then
    /// what the test wrote to standard output.
    pub fn report(&self) -> (r: Result<String, RerunError>)
        ensures
            match r {
                Ok(text) => valid_utf8(self.output.stdout@) && text@ == shown(
                    self.name@,
                    decode_utf8(self.output.stdout@),
                ),
                Err(e) => !valid_utf8(self.output.stdout@) && e@ == (RerunErrorView::NotUtf8 {
                    name: self.name@,
                }),
            },
    {
        match self.stdout() {
            Ok(text) => {
                let mut out = "\n --- test ".to_owned();
                out.append(self.name.as_str());
                out.append(" ---\n\n");
                out.append(text);
                Ok(out)
            },
            Err(e) => Err(e),
        }
    }
}

/// The re-run of one failing case.
#[derive(Debug, PartialEq, Eq)]
pub struct RerunTask {
    /// The name the case is reported under: `<suite>::<test>`.
    pub name: String,
    /// The checkpoint file of the case.
    pub checkpoint: String,
    /// The test binary, limited to this one test, with the checkpoint file
    /// and the interval at which it is written.
    pub command: TestCommand,
    /// The log filter of the run with diagnostics.
    pub loom_log: String,
}

/// A task as a mathematical value.
pub struct RerunTaskView {
    pub name: Seq<char>,
    pub checkpoint: Seq<char>,
    pub command: TestCommandView,
    pub loom_log: Seq<char>,
}

impl View for RerunTask {
    type V = RerunTaskView;

    open spec fn view(&self) -> RerunTaskView {
        RerunTaskView {
            name: self.name@,
            checkpoint: self.checkpoint@,
            command: self.command@,
            loom_log: self.loom_log@,
        }
    }
}

/// How far a task has come.
#[derive(Copy, Clone, Debug, PartialEq, Eq, Structural)]
pub enum RerunState {
    /// Nothing is known yet: is there a checkpoint?
    Start,
    /// The run that writes the checkpoint is under way.
    Generating,
    /// The run with diagnostics is under way.
    Rerunning,
    /// The task has yielded its result.
    Done,
}

/// What the caller reports back to a task.
#[derive(Debug, PartialEq, Eq)]
pub enum RerunEvent {
    /// Whether the checkpoint file is there.
    Checkpoint { exists: bool },
    /// The run that writes the checkpoint has ended, however it went.
    Generated,
    /// The run with diagnostics has ended and left this behind.
    Captured(Captured),
    /// The process asked for could not be started.
    SpawnFailed { reason: String },
}

/// An event as a mathematical value.
pub enum RerunEventView {
    Checkpoint { exists: bool },
    Generated,
    Captured(CapturedView),
    SpawnFailed { reason: Seq<char> },
}

impl View for RerunEvent {
    type V = RerunEventView;

    open spec fn view(&self) -> RerunEventView {
        match *self {
            RerunEvent::Checkpoint { exists } => RerunEventView::Checkpoint { exists },
            RerunEvent::Generated => RerunEventView::Generated,
            RerunEvent::Captured(c) => RerunEventView::Captured(c@),
            RerunEvent::SpawnFailed { reason } => RerunEventView::SpawnFailed { reason: reason@ },
        }
    }
}

/// What a task asks the caller to do next.
#[derive(Debug, PartialEq, Eq)]
pub enum RerunAction {
    /// Find out whether the file at `path` exists.
    LookForCheckpoint { path: String },
    /// Spawn the command, throw away what it writes, and wait until it
    /// has ended. That the test fails is expected.
    Generate(TestCommand),
    /// Spawn the command and capture what it writes.
    Rerun(TestCommand),
    /// The task is done: this is its result.
    Yield(Result<TestOutput, RerunError>),
}

/// An action as a mathematical value.
pub enum RerunActionView {
    LookForCheckpoint { path: Seq<char> },
    Generate(TestCommandView),
    Rerun(TestCommandView),
    Yield(Result<TestOutputView, RerunErrorView>),
}

impl View for RerunAction {
    type V = RerunActionView;

    open spec fn view(&self) -> RerunActionView {
        match *self {
            RerunAction::LookForCheckpoint { path } => RerunActionView::LookForCheckpoint {
                path: path@,
            },
            RerunAction::Generate(c) => RerunActionView::Generate(c@),
            RerunAction::Rerun(c) => RerunActionView::Rerun(c@),
            RerunAction::Yield(r) => RerunActionView::Yield(
                match r {
                    Ok(out) => Ok(out@),
                    Err(e) => Err(e@),
                },
            ),
        }
    }
}

impl RerunActionView {
    /// Whether the action asks for a process to be spawned.
    pub open spec fn spawns(self) -> bool {
        self is Generate || self is Rerun
    }
}

impl RerunTaskView {
    /// The command of the run that writes the checkpoint: logging is off.
    pub open spec fn generation(self) -> TestCommandView {
        self.command.env(ENV_LOOM_LOG@, "off"@)
    }

    /// The command of the run with diagnostics: the log filter is set and
    /// locations are captured.
    pub open spec fn diagnosis(self) -> TestCommandView {
        self.command.env(ENV_LOOM_LOG@, self.loom_log).env(ENV_LOOM_LOCATION@, "1"@)
    }

    /// The error of an event that the task was not waiting for.
    pub open spec fn out_of_order(self) -> (RerunState, RerunActionView) {
        (
            RerunState::Done,
            RerunActionView::Yield(Err(RerunErrorView::OutOfOrder { name: self.name })),
        )
    }

    /// The state that follows on `event` in `state`, and what is to be
    /// done next.
    ///
    /// With a checkpoint the task goes straight to the run with
    /// diagnostics; without one the checkpoint is written first. However
    /// that run ends, the run with diagnostics follows; what it leaves
    /// behind is the result. A process that cannot be started ends the
    /// task with an error.
    pub open spec fn step(self, state: RerunState, event: RerunEventView) -> (
        RerunState,
        RerunActionView,
    ) {
        match (state, event) {
            (RerunState::Start, RerunEventView::Checkpoint { exists }) => if exists {
                (RerunState::Rerunning, RerunActionView::Rerun(self.diagnosis()))
            } else {
                (RerunState::Generating, RerunActionView::Generate(self.generation()))
            },
            (RerunState::Generating, RerunEventView::Generated) => (
                RerunState::Rerunning,
                RerunActionView::Rerun(self.diagnosis()),
            ),
            (RerunState::Generating, RerunEventView::SpawnFailed { reason }) => (
                RerunState::Done,
                RerunActionView::Yield(
                    Err(RerunErrorView::Spawn { name: self.name, step: Step::Checkpoint, reason }),
                ),
            ),
            (RerunState::Rerunning, RerunEventView::Captured(output)) => (
                RerunState::Done,
                RerunActionView::Yield(Ok(TestOutputView { name: self.name, output })),
            ),
            (RerunState::Rerunning, RerunEventView::SpawnFailed { reason }) => (
                RerunState::Done,
                RerunActionView::Yield(
                    Err(RerunErrorView::Spawn { name: self.name, step: Step::Rerun, reason }),
                ),
            ),
            _ => self.out_of_order(),
        }
    }

    /// The actions that a task in `state` asks for, one for each of
    /// `events` as they come in.
    pub open spec fn actions(self, state: RerunState, events: Seq<RerunEventView>) -> Seq<
        RerunActionView,
    >
        decreases events.len(),
    {
        if events.len() == 0 {
            Seq::empty()
        } else {
            let (next, action) = self.step(state, events.first());
            seq![action] + self.actions(next, events.drop_first())
        }
    }
}

impl RerunTask {
    /// The command of the run that writes the checkpoint.
    fn generation(&self) -> (r: TestCommand)
        ensures
            r@ == self@.generation(),
    {
        let mut cmd = self.command.duplicate();
        cmd.env(ENV_LOOM_LOG, "off");
        cmd
    }

    /// The command of the run with diagnostics.
    fn diagnosis(&self) -> (r: TestCommand)
        ensures
            r@ == self@.diagnosis(),
    {
        let mut cmd = self.command.duplicate();
        cmd.env(ENV_LOOM_LOG, self.loom_log.as_str());
        cmd.env(ENV_LOOM_LOCATION, "1");
        cmd
    }

    /// The state a task starts in, and its first action: to look for the
    /// checkpoint file.
    pub fn start(&self) -> (r: (RerunState, RerunAction))
        ensures
            r.0 == RerunState::Start,
            r.1@ == (RerunActionView::LookForCheckpoint { path: self.checkpoint@ }),
    {
        (RerunState::Start, RerunAction::LookForCheckpoint { path: self.checkpoint.clone() })
    }

    /// Takes the task one step on: from `state`, on `event`, to the next
    /// state and the next action.
    pub fn step(&self, state: RerunState, event: RerunEvent) -> (r: (RerunState, RerunAction))
        ensures
            (r.0, r.1@) == self@.step(state, event@),
    {
        match state {
            RerunState::Start => match event {
                RerunEvent::Checkpoint { exists } => {
                    if exists {
                        (RerunState::Rerunning, RerunAction::Rerun(self.diagnosis()))
                    } else {
                        (RerunState::Generating, RerunAction::Generate(self.generation()))
                    }
                },
                _ => self.out_of_order(),
            },
            RerunState::Generating => match event {
                RerunEvent::Generated => (
                    RerunState::Rerunning,
                    RerunAction::Rerun(self.diagnosis()),
                ),
                RerunEvent::SpawnFailed { reason } => (
                    RerunState::Done,
                    RerunAction::Yield(
                        Err(
                            RerunError::Spawn {
                                name: self.name.clone(),
                                step: Step::Checkpoint,
                                reason,
                            },
                        ),
                    ),
                ),
                _ => self.out_of_order(),
            },
            RerunState::Rerunning => match event {
                RerunEvent::Captured(output) => (
                    RerunState::Done,
                    RerunAction::Yield(Ok(TestOutput { name: self.name.clone(), output })),
                ),
                RerunEvent::SpawnFailed { reason } => (
                    RerunState::Done,
                    RerunAction::Yield(
                        Err(RerunError::Spawn { name: self.name.clone(), step: Step::Rerun, reason }),
                    ),
                ),
                _ => self.out_of_order(),
            },
            RerunState::Done => self.out_of_order(),
        }
    }

    /// The end of a task that was handed an event it was not waiting for.
    fn out_of_order(&self) -> (r: (RerunState, RerunAction))
        ensures
            (r.0, r.1@) == self@.out_of_order(),
    {
        (
            RerunState::Done,
            RerunAction::Yield(Err(RerunError::OutOfOrder { name: self.name.clone() })),
        )
    }
}

/// Once the run with diagnostics is under way, or the task is done, no
/// checkpoint is written any more, whatever comes in.
pub proof fn lemma_no_generation_after_rerun(
    task: RerunTaskView,
    state: RerunState,
    events: Seq<RerunEventView>,
)
    requires
        state == RerunState::Rerunning || state == RerunState::Done,
    ensures
        forall|k: int|
            0 <= k < task.actions(state, events).len() ==> !(#[trigger] task.actions(
                state,
                events,
            )[k] is Generate),
    decreases events.len(),
{
    if events.len() > 0 {
        let (next, action) = task.step(state, events.first());
        lemma_no_generation_after_rerun(task, next, events.drop_first());
    }
}

/// A case whose checkpoint file exists is not checkpointed again: after
/// the answer that the file is there, no action of the task asks for the
/// run that writes the checkpoint, whatever comes in afterwards.
pub proof fn lemma_existing_checkpoint_is_kept(task: RerunTaskView, rest: Seq<RerunEventView>)
    ensures
        forall|k: int|
            0 <= k < task.actions(
                RerunState::Start,
                seq![RerunEventView::Checkpoint { exists: true }] + rest,
            ).len() ==> !(#[trigger] task.actions(
                RerunState::Start,
                seq![RerunEventView::Checkpoint { exists: true }] + rest,
            )[k] is Generate),
{
    let events = seq![RerunEventView::Checkpoint { exists: true }] + rest;
    assert(events.drop_first() =~= rest);
    lemma_no_generation_after_rerun(task, RerunState::Rerunning, rest);
}

/// A case without a checkpoint takes two processes, one after the other:
/// the run that writes the checkpoint, then the run with diagnostics,
/// whose output is the result.
pub proof fn lemma_fresh_case_runs_twice(task: RerunTaskView, output: CapturedView)
    ensures
        task.actions(
            RerunState::Start,
            seq![
                RerunEventView::Checkpoint { exists: false },
                RerunEventView::Generated,
                RerunEventView::Captured(output),
            ],
        ) == seq![
            RerunActionView::Generate(task.generation()),
            RerunActionView::Rerun(task.diagnosis()),
            RerunActionView::Yield(Ok(TestOutputView { name: task.name, output })),
        ],
{
    let e0 = RerunEventView::Checkpoint { exists: false };
    let e1 = RerunEventView::Generated;
    let e2 = RerunEventView::Captured(output);
    let all = seq![e0, e1, e2];
    assert(all.drop_first() =~= seq![e1, e2]);
    assert(seq![e1, e2].drop_first() =~= seq![e2]);
    assert(seq![e2].drop_first() =~= Seq::<RerunEventView>::empty());
    assert(task.actions(RerunState::Done, Seq::<RerunEventView>::empty())
        =~= Seq::<RerunActionView>::empty());
    assert(task.actions(RerunState::Rerunning, seq![e2]) =~= seq![
        RerunActionView::Yield(Ok(TestOutputView { name: task.name, output })),
    ]);
    assert(task.actions(RerunState::Generating, seq![e1, e2]) =~= seq![
        RerunActionView::Rerun(task.diagnosis()),
        RerunActionView::Yield(Ok(TestOutputView { name: task.name, output })),
    ]);
    assert(task.actions(RerunState::Start, all) =~= seq![
        RerunActionView::Generate(task.generation()),
        RerunActionView::Rerun(task.diagnosis()),
        RerunActionView::Yield(Ok(TestOutputView { name: task.name, output })),
    ]);
}

/// The views of a list of tasks.
pub open spec fn task_views(v: Seq<RerunTask>) -> Seq<RerunTaskView> {
    Seq::new(v.len(), |i: int| v[i]@)
}

/// The first of `suites` that `failed` has not retained.
pub open spec fn first_missing(failed: Failed, suites: Seq<Seq<char>>) -> Option<Seq<char>>
    decreases suites.len(),
{
    if suites.len() == 0 {
        None
    } else {
        match first_missing(failed, suites.drop_last()) {
            Some(s) => Some(s),
            None => if failed.command(suites.last()) is None {
                Some(suites.last())
            } else {
                None
            },
        }
    }
}

impl App {
    /// The re-run of the failing case `case` of `suite`: the test binary
    /// with what every run is given, the interval at which the checkpoint
    /// is written, the checkpoint file, and the name of the test as its
    /// only filter.
    pub open spec fn task(&self, suite: TestSuiteView, case: FailedTestView) -> RerunTaskView {
        RerunTaskView {
            name: pretty_name(suite.name, case.name),
            checkpoint: case.checkpoint,
            command: self.loom_command(TestCommandView::program(suite.path)).env(
                ENV_CHECKPOINT_INTERVAL@,
                self.checkpoint_interval@,
            ).env(ENV_CHECKPOINT_FILE@, case.checkpoint).arg(case.name),
            loom_log: self.loom_log@,
        }
    }

    /// The re-runs of `cases` of `suite`, in their order.
    pub open spec fn tasks_for(&self, suite: TestSuiteView, cases: Seq<FailedTestView>) -> Seq<
        RerunTaskView,
    > {
        Seq::new(cases.len(), |i: int| self.task(suite, cases[i]))
    }

    /// The re-runs of all cases that `failed` holds for `suites`, suite by
    /// suite.
    pub open spec fn planned(&self, failed: Failed, suites: Seq<Seq<char>>) -> Seq<RerunTaskView>
        decreases suites.len(),
    {
        if suites.len() == 0 {
            Seq::empty()
        } else {
            self.planned(failed, suites.drop_last()) + self.tasks_for(
                failed.command(suites.last())->0,
                failed.cases(suites.last()),
            )
        }
    }

    /// The re-run of one failing case of `suite`.
    pub fn rerun_task(&self, suite: &TestSuite, case: &FailedTest) -> (r: RerunTask)
        ensures
            r@ == self.task(suite@, case@),
    {
        let mut command = TestCommand::new(suite.path.as_str());
        self.configure_loom_command(&mut command);
        command.env(ENV_CHECKPOINT_INTERVAL, self.checkpoint_interval.as_str());
        command.env(ENV_CHECKPOINT_FILE, case.checkpoint.as_str());
        command.arg(case.name.as_str());
        let mut name = suite.name.clone();
        name.append("::");
        name.append(case.name.as_str());
        proof {
            reveal_strlit("::");
            assert(name@ =~= pretty_name(suite.name@, case.name@));
        }
        RerunTask {
            name,
            checkpoint: case.checkpoint.clone(),
            command,
            loom_log: self.loom_log.clone(),
        }
    }

    /// Plans the second pass: one task for every failing case in the
    /// ledger, suite by suite in the order of their first failure, the
    /// cases of a suite in the order recorded. The ledger is only read.
    ///
    /// An error, and no task, where a suite with failing cases was not
    /// retained.
    pub fn run_failed(&self, failed: &Failed) -> (r: Result<Vec<RerunTask>, RerunError>)
        ensures
            match first_missing(*failed, failed.suites()) {
                Some(s) => r matches Err(e) && e@ == (RerunErrorView::MissingCommand { suite: s }),
                None => r matches Ok(tasks) && task_views(tasks@) == self.planned(
                    *failed,
                    failed.suites(),
                ),
            },
    {
        let names = failed.suite_names();
        let ghost suites = failed.suites();
        let mut tasks: Vec<RerunTask> = Vec::new();
        let mut i: usize = 0;
        proof {
            assert(suites.subrange(0, 0) =~= Seq::<Seq<char>>::empty());
            assert(task_views(tasks@) =~= Seq::<RerunTaskView>::empty());
        }
        while i < names.len()
            invariant
                i <= names.len(),
                suites == failed.suites(),
                texts(names@) == suites,
                first_missing(*failed, suites.subrange(0, i as int)) is None,
                task_views(tasks@) == self.planned(*failed, suites.subrange(0, i as int)),
            decreases names.len() - i,
        {
            let name = names[i].as_str();
            let ghost seen = suites.subrange(0, i as int);
            let ghost next = suites.subrange(0, i + 1);
            proof {
                assert(next.drop_last() =~= seen);
                assert(next.last() == name@);
                assert(suites[i as int] == name@);
            }
            let suite = match failed.test_cmd(name) {
                Some(suite) => suite,
                None => {
                    proof {
                        lemma_first_missing_stays(*failed, suites, i + 1);
                    }
                    return Err(RerunError::MissingCommand { suite: names[i].clone() });
                },
            };
            match failed.failures(name) {
                Some(cases) => {
                    let ghost had = task_views(tasks@);
                    let mut k: usize = 0;
                    while k < cases.len()
                        invariant
                            k <= cases.len(),
                            task_views(tasks@) == had + self.tasks_for(
                                suite@,
                                case_views(cases@).subrange(0, k as int),
                            ),
                        decreases cases.len() - k,
                    {
                        let ghost before = task_views(tasks@);
                        tasks.push(self.rerun_task(suite, &cases[k]));
                        proof {
                            assert(task_views(tasks@) =~= before.push(
                                self.task(suite@, cases[k as int]@),
                            ));
                            assert(self.tasks_for(suite@, case_views(cases@).subrange(0, k + 1))
                                =~= self.tasks_for(
                                suite@,
                                case_views(cases@).subrange(0, k as int),
                            ).push(self.task(suite@, cases[k as int]@)));
                        }
                        k += 1;
                    }
                    proof {
                        assert(case_views(cases@).subrange(0, cases.len() as int) =~= case_views(
                            cases@,
                        ));
                    }
                },
                None => {
                    proof {
                        assert(suites.contains(name@));
                    }
                },
            }
            i += 1;
        }
        proof {
            assert(suites.subrange(0, names.len() as int) =~= suites);
        }
        Ok(tasks)
    }
}

/// Once a suite that was not retained is among the first `n`, the first
/// such suite of all is that one.
proof fn lemma_first_missing_stays(failed: Failed, suites: Seq<Seq<char>>, n: int)
    requires
        0 <= n <= suites.len(),
        first_missing(failed, suites.subrange(0, n)) is Some,
    ensures
        first_missing(failed, suites) == first_missing(failed, suites.subrange(0, n)),
    decreases suites.len() - n,
{
    if n < suites.len() {
        assert(suites.subrange(0, n + 1).drop_last() =~= suites.subrange(0, n));
        lemma_first_missing_stays(failed, suites, n + 1);
    } else {
        assert(suites.subrange(0, n) =~= suites);
    }
}

/// In a well-formed ledger without an open suite, every suite with
/// failing cases was retained: planning the second pass cannot fail.
pub proof fn lemma_settled_ledger_can_be_run(failed: Failed)
    requires
        failed.wf(),
        failed.open_suite() is None,
    ensures
        first_missing(failed, failed.suites()) is None,
{
    lemma_none_missing(failed, failed.suites());
}

proof fn lemma_none_missing(failed: Failed, suites: Seq<Seq<char>>)
    requires
        failed.wf(),
        failed.open_suite() is None,
        forall|i: int| 0 <= i < suites.len() ==> failed.suites().contains(#[trigger] suites[i]),
    ensures
        first_missing(failed, suites) is None,
    decreases suites.len(),
{
    if suites.len() > 0 {
        assert forall|i: int| 0 <= i < suites.drop_last().len() implies failed.suites().contains(
            #[trigger] suites.drop_last()[i],
        ) by {
            assert(suites.drop_last()[i] == suites[i]);
        }
        lemma_none_missing(failed, suites.drop_last());
        assert(failed.suites().contains(suites[suites.len() - 1]));
        lemma_ledger_invariant(failed, suites.last());
    }
}

/// All failing cases that `failed` holds for `suites`, suite by suite.
pub open spec fn all_cases(failed: Failed, suites: Seq<Seq<char>>) -> Seq<FailedTestView>
    decreases suites.len(),
{
    if suites.len() == 0 {
        Seq::empty()
    } else {
        all_cases(failed, suites.drop_last()) + failed.cases(suites.last())
    }
}

/// The plan holds one task for each failing case, in the order of the
/// cases, and each task goes by the checkpoint of its case and runs the
/// test of its case.
pub proof fn lemma_one_task_for_each_case(app: App, failed: Failed, suites: Seq<Seq<char>>)
    ensures
        app.planned(failed, suites).len() == all_cases(failed, suites).len(),
        forall|k: int|
            0 <= k < all_cases(failed, suites).len() ==> {
                &&& (#[trigger] app.planned(failed, suites)[k]).checkpoint == all_cases(
                    failed,
                    suites,
                )[k].checkpoint
                &&& app.planned(failed, suites)[k].command.args.last() == all_cases(
                    failed,
                    suites,
                )[k].name
            },
    decreases suites.len(),
{
    if suites.len() > 0 {
        lemma_one_task_for_each_case(app, failed, suites.drop_last());
    }
}

/// What became of a task: the result it yielded, if it has come that far.
pub type Yielded = Option<Result<TestOutputView, RerunErrorView>>;

impl RerunTaskView {
    /// The result that the task has yielded once `events` have come in:
    /// that of its last action, if that is the end of the task.
    pub open spec fn yielded(self, events: Seq<RerunEventView>) -> Yielded {
        let actions = self.actions(RerunState::Start, events);
        if actions.len() > 0 {
            match actions.last() {
                RerunActionView::Yield(result) => Some(result),
                _ => None,
            }
        } else {
            None
        }
    }
}

/// The results of tasks, each run with the events that came in for it, in
/// the order in which the runs are listed.
pub open spec fn results(runs: Seq<(RerunTaskView, Seq<RerunEventView>)>) -> Seq<Yielded> {
    Seq::new(runs.len(), |i: int| runs[i].0.yielded(runs[i].1))
}

/// The order in which tasks complete does not matter: whatever the order
/// in which the same runs are listed, the results are the same, each as
/// often as in any other order.
pub proof fn lemma_results_do_not_depend_on_order(
    submitted: Seq<(RerunTaskView, Seq<RerunEventView>)>,
    completed: Seq<(RerunTaskView, Seq<RerunEventView>)>,
)
    requires
        submitted.to_multiset() == completed.to_multiset(),
    ensures
        results(submitted).to_multiset() == results(completed).to_multiset(),
        results(submitted).len() == results(completed).len(),
    decreases submitted.len(),
{
    broadcast use vstd::seq_lib::group_to_multiset_ensures;

    if submitted.len() > 0 {
        let run = submitted.last();
        assert(submitted.to_multiset().count(run) > 0);
        assert(completed.contains(run));
        let at = completed.index_of(run);
        let fewer = submitted.drop_last();
        let others = completed.remove(at);
        assert(fewer == submitted.remove(submitted.len() - 1));
        to_multiset_remove(submitted, submitted.len() - 1);
        to_multiset_remove(completed, at);
        lemma_results_do_not_depend_on_order(fewer, others);
        let result = run.0.yielded(run.1);
        assert(results(submitted) =~= results(fewer).push(result));
        assert(results(completed) =~= results(others).insert(at, result));
        to_multiset_build(results(fewer), result);
        to_multiset_insert(results(others), at, result);
    } else {
        assert(completed.to_multiset().len() == 0);
        assert(completed.len() == 0);
        assert(results(submitted) =~= results(completed));
    }
}

/// Both runs of a task find the checkpoint file of their case and the
/// interval at which it is written. The run that writes the checkpoint
/// is made with logging off and without location capture; the run with
/// diagnostics with the log filter of the configuration and with
/// location capture.
pub proof fn lemma_task_environment(app: App, suite: TestSuiteView, case: FailedTestView)
    ensures
        ({
            let task = app.task(suite, case);
            &&& env_value(task.generation().envs, ENV_CHECKPOINT_FILE@) == Some(case.checkpoint)
            &&& env_value(task.generation().envs, ENV_CHECKPOINT_INTERVAL@) == Some(
                app.checkpoint_interval@,
            )
            &&& env_value(task.generation().envs, ENV_LOOM_LOG@) == Some("off"@)
            &&& env_value(task.generation().envs, ENV_LOOM_LOCATION@) is None
            &&& env_value(task.diagnosis().envs, ENV_CHECKPOINT_FILE@) == Some(case.checkpoint)
            &&& env_value(task.diagnosis().envs, ENV_CHECKPOINT_INTERVAL@) == Some(
                app.checkpoint_interval@,
            )
            &&& env_value(task.diagnosis().envs, ENV_LOOM_LOG@) == Some(app.loom_log@)
            &&& env_value(task.diagnosis().envs, ENV_LOOM_LOCATION@) == Some("1"@)
            &&& task.generation().program == suite.path
            &&& task.diagnosis().program == suite.path
            &&& task.generation().args == task.diagnosis().args
        }),
{
    lemma_env_names_differ();
    let task = app.task(suite, case);
    let start = TestCommandView::program(suite.path);
    let loom = app.loom_command(start);
    let timed = loom.env(ENV_CHECKPOINT_INTERVAL@, app.checkpoint_interval@);
    let filed = timed.env(ENV_CHECKPOINT_FILE@, case.checkpoint);
    let base = filed.arg(case.name);
    let logged = base.env(ENV_LOOM_LOG@, app.loom_log@);
    assert(task.command == base);
    lemma_loom_command_keeps_other_variables(app, start, ENV_LOOM_LOCATION@);
    lemma_loom_command_keeps_other_variables(app, start, ENV_CHECKPOINT_INTERVAL@);
    lemma_env_value_after_set(
        loom,
        ENV_CHECKPOINT_INTERVAL@,
        app.checkpoint_interval@,
        ENV_CHECKPOINT_INTERVAL@,
    );
    lemma_env_value_after_set(
        loom,
        ENV_CHECKPOINT_INTERVAL@,
        app.checkpoint_interval@,
        ENV_LOOM_LOCATION@,
    );
    lemma_env_value_after_set(timed, ENV_CHECKPOINT_FILE@, case.checkpoint, ENV_CHECKPOINT_FILE@);
    lemma_env_value_after_set(
        timed,
        ENV_CHECKPOINT_FILE@,
        case.checkpoint,
        ENV_CHECKPOINT_INTERVAL@,
    );
    lemma_env_value_after_set(timed, ENV_CHECKPOINT_FILE@, case.checkpoint, ENV_LOOM_LOCATION@);
    lemma_env_value_after_set(base, ENV_LOOM_LOG@, "off"@, ENV_CHECKPOINT_FILE@);
    lemma_env_value_after_set(base, ENV_LOOM_LOG@, "off"@, ENV_CHECKPOINT_INTERVAL@);
    lemma_env_value_after_set(base, ENV_LOOM_LOG@, "off"@, ENV_LOOM_LOG@);
    lemma_env_value_after_set(base, ENV_LOOM_LOG@, "off"@, ENV_LOOM_LOCATION@);
    lemma_env_value_after_set(base, ENV_LOOM_LOG@, app.loom_log@, ENV_CHECKPOINT_FILE@);
    lemma_env_value_after_set(base, ENV_LOOM_LOG@, app.loom_log@, ENV_CHECKPOINT_INTERVAL@);
    lemma_env_value_after_set(base, ENV_LOOM_LOG@, app.loom_log@, ENV_LOOM_LOG@);
    lemma_env_value_after_set(logged, ENV_LOOM_LOCATION@, "1"@, ENV_CHECKPOINT_FILE@);
    lemma_env_value_after_set(logged, ENV_LOOM_LOCATION@, "1"@, ENV_CHECKPOINT_INTERVAL@);
    lemma_env_value_after_set(logged, ENV_LOOM_LOCATION@, "1"@, ENV_LOOM_LOG@);
    lemma_env_value_after_set(logged, ENV_LOOM_LOCATION@, "1"@, ENV_LOOM_LOCATION@);
}

} // verus!
