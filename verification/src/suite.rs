//! The test binaries that are run, and the failing cases found in them.

use vstd::prelude::*;
use vstd::string::*;
use crate::checkpoint::{CheckpointDir, CheckpointDirView};

verus! {

/// What kind of test binary a suite is.
#[derive(Clone, Copy, Debug, PartialEq, Eq, Structural)]
pub enum SuiteKind {
    /// The unit tests of a library.
    Lib,
    /// Any other test target, such as an integration test.
    Other,
}

impl SuiteKind {
    /// The kind that a target's kind tag stands for: `lib` is the
    /// library's unit tests, every other tag another test target.
    pub fn from_tag(tag: &str) -> (r: SuiteKind)
        ensures
            r == if tag@ == "lib"@ {
                SuiteKind::Lib
            } else {
                SuiteKind::Other
            },
    {
        if *tag == *"lib" {
            SuiteKind::Lib
        } else {
            SuiteKind::Other
        }
    }
}

/// A compiled test binary: where it is, what it is called, and its kind.
#[derive(Debug, PartialEq, Eq)]
pub struct TestSuite {
    pub path: String,
    pub name: String,
    pub kind: SuiteKind,
}

/// A test suite as a mathematical value.
pub struct TestSuiteView {
    pub path: Seq<char>,
    pub name: Seq<char>,
    pub kind: SuiteKind,
}

impl View for TestSuite {
    type V = TestSuiteView;

    open spec fn view(&self) -> TestSuiteView {
        TestSuiteView { path: self.path@, name: self.name@, kind: self.kind }
    }
}

impl TestSuite {
    /// A suite from its parts.
    pub fn new(path: String, name: String, kind: SuiteKind) -> (r: TestSuite)
        ensures
            r.path == path,
            r.name == name,
            r.kind == kind,
    {
        TestSuite { path, name, kind }
    }

    /// A copy of this suite.
    pub fn duplicate(&self) -> (r: TestSuite)
        ensures
            r@ == self@,
    {
        TestSuite { path: self.path.clone(), name: self.name.clone(), kind: self.kind }
    }

    /// Whether the suite holds the unit tests of a library.
    pub fn is_lib(&self) -> (r: bool)
        ensures
            r == (self.kind == SuiteKind::Lib),
    {
        match self.kind {
            SuiteKind::Lib => true,
            SuiteKind::Other => false,
        }
    }
}

/// A test case that failed: the suite it belongs to, its name, and the
/// file that holds (or will hold) its checkpoint.
#[derive(Debug, PartialEq, Eq)]
pub struct FailedTest {
    pub suite: String,
    pub name: String,
    pub checkpoint: String,
}

/// A failing case as a mathematical value.
pub struct FailedTestView {
    pub suite: Seq<char>,
    pub name: Seq<char>,
    pub checkpoint: Seq<char>,
}

impl View for FailedTest {
    type V = FailedTestView;

    open spec fn view(&self) -> FailedTestView {
        FailedTestView { suite: self.suite@, name: self.name@, checkpoint: self.checkpoint@ }
    }
}

/// The failing case `name` of `suite` with its checkpoint in `dir`.
pub open spec fn failed_test(
    suite: Seq<char>,
    name: Seq<char>,
    dir: CheckpointDirView,
) -> FailedTestView {
    FailedTestView { suite, name, checkpoint: dir.path_of(name) }
}

/// The failing cases of `suite` that `tests` name, with their checkpoints
/// in `dir`.
pub open spec fn cases_for(suite: Seq<char>, dir: CheckpointDirView, tests: Seq<Seq<char>>) -> Seq<
    FailedTestView,
> {
    Seq::new(tests.len(), |i: int| failed_test(suite, tests[i], dir))
}

impl FailedTest {
    /// The failing case `name` of the suite called `suite`, with its
    /// checkpoint file in `checkpoint_dir`.
    pub fn new(suite: &str, name: String, checkpoint_dir: &CheckpointDir) -> (r: FailedTest)
        ensures
            r@ == failed_test(suite@, name@, checkpoint_dir@),
    {
        let checkpoint = checkpoint_dir.checkpoint(name.as_str());
        FailedTest { suite: suite.to_owned(), name, checkpoint }
    }

    /// A copy of this case.
    pub fn duplicate(&self) -> (r: FailedTest)
        ensures
            r@ == self@,
    {
        FailedTest {
            suite: self.suite.clone(),
            name: self.name.clone(),
            checkpoint: self.checkpoint.clone(),
        }
    }

    /// The name under which the case is reported: `<suite>::<test>`.
    pub fn pretty_name(&self) -> (r: String)
        ensures
            r@ == pretty_name(self.suite@, self.name@),
    {
        let mut out = self.suite.clone();
        out.append("::");
        out.append(self.name.as_str());
        proof {
            reveal_strlit("::");
            assert(out@ =~= pretty_name(self.suite@, self.name@));
        }
        out
    }
}

/// The name under which a case is reported: `<suite>::<test>`.
pub open spec fn pretty_name(suite: Seq<char>, test: Seq<char>) -> Seq<char> {
    suite + seq![':', ':'] + test
}

} // verus!
