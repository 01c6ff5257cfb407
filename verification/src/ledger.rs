//! The ledger of failures: which cases failed in which suite, the suites
//! that have to be run again, and the checkpoint directories touched.

use vstd::prelude::*;
use vstd::string::*;
use crate::checkpoint::CheckpointDir;
use crate::suite::{
    cases_for, failed_test, FailedTest, FailedTestView, TestSuite, TestSuiteView,
};
use crate::text::texts;

verus! {

/// The views of a sequence of failing cases.
pub open spec fn case_views(v: Seq<FailedTest>) -> Seq<FailedTestView> {
    Seq::new(v.len(), |i: int| v[i]@)
}

/// The failing cases of one suite, in the order in which they were recorded.
#[derive(Debug)]
pub struct SuiteFailures {
    pub(crate) name: String,
    pub(crate) tests: Vec<FailedTest>,
}

/// A suite kept so that it can be run again, under the name it failed as.
#[derive(Debug)]
pub struct Retained {
    pub(crate) name: String,
    pub(crate) suite: TestSuite,
}

/// The failures found so far.
///
/// While a suite is being run, its name is the open suite; its failures
/// are recorded as they are seen, and the suite itself is retained when it
/// is finished, if any of its cases failed.
#[derive(Debug)]
pub struct Failed {
    pub(crate) failed: Vec<SuiteFailures>,
    pub(crate) test_cmds: Vec<Retained>,
    pub(crate) checkpoint_dirs: Vec<String>,
    pub(crate) curr_suite_name: Option<String>,
}

/// An element's first index is `i` where it stands at `i` and nowhere before.
pub proof fn lemma_first_at<A>(s: Seq<A>, x: A, i: int)
    requires
        0 <= i < s.len(),
        s[i] == x,
        forall|j: int| 0 <= j < i ==> s[j] != x,
    ensures
        s.contains(x),
        s.index_of_first(x) == Some(i),
{
    s.index_of_first_ensures(x);
    assert(s.contains(x));
}

impl Failed {
    /// The names under which suites are retained, in the order retained.
    pub closed spec fn retained(&self) -> Seq<Seq<char>> {
        Seq::new(self.test_cmds@.len(), |i: int| self.test_cmds[i].name@)
    }

    /// The failing cases recorded for `suite`, oldest first; empty where
    /// none was recorded.
    pub closed spec fn cases(&self, suite: Seq<char>) -> Seq<FailedTestView> {
        match self.suites().index_of_first(suite) {
            Some(i) => case_views(self.failed[i].tests@),
            None => Seq::empty(),
        }
    }

    /// The suite retained under the name `suite`, if there is one.
    pub closed spec fn command(&self, suite: Seq<char>) -> Option<TestSuiteView> {
        match self.retained().index_of_first(suite) {
            Some(i) => Some(self.test_cmds[i].suite@),
            None => None,
        }
    }

    /// The names of the suites with recorded failures, in the order of
    /// their first failure.
    pub closed spec fn suites(&self) -> Seq<Seq<char>> {
        Seq::new(self.failed@.len(), |i: int| self.failed[i].name@)
    }

    /// The checkpoint directories touched, in the order of first use.
    pub closed spec fn dirs(&self) -> Seq<Seq<char>> {
        texts(self.checkpoint_dirs@)
    }

    /// The suite whose failures are being recorded and which has not been
    /// finished yet.
    pub closed spec fn open_suite(&self) -> Option<Seq<char>> {
        match self.curr_suite_name {
            Some(n) => Some(n@),
            None => None,
        }
    }

    /// The ledger's invariant: a suite name, a retained suite and a
    /// directory each occur once; a suite listed has at least one case, and
    /// each of its cases names it; a suite has failures exactly when it is
    /// retained or still open.
    pub closed spec fn wf(&self) -> bool {
        &&& self.suites().no_duplicates()
        &&& self.retained().no_duplicates()
        &&& self.dirs().no_duplicates()
        &&& forall|i: int| 0 <= i < self.failed.len() ==> (#[trigger] self.failed[i]).tests.len() > 0
        &&& forall|i: int, k: int|
            0 <= i < self.failed.len() && 0 <= k < self.failed[i].tests.len()
                ==> #[trigger] self.failed[i].tests[k].suite@ == self.failed[i].name@
        &&& forall|i: int|
            0 <= i < self.suites().len() ==> self.retained().contains(#[trigger] self.suites()[i])
                || self.open_suite() == Some(self.suites()[i])
        &&& forall|i: int|
            0 <= i < self.retained().len() ==> self.suites().contains(#[trigger] self.retained()[i])
        &&& self.open_suite() matches Some(n) ==> self.suites().contains(n)
    }

    /// An empty ledger.
    pub fn new() -> (r: Failed)
        ensures
            r.wf(),
            r.suites() == Seq::<Seq<char>>::empty(),
            r.dirs() == Seq::<Seq<char>>::empty(),
            r.open_suite() is None,
            forall|s: Seq<char>| r.cases(s) == Seq::<FailedTestView>::empty(),
            forall|s: Seq<char>| r.command(s) is None,
    {
        let r = Failed {
            failed: Vec::new(),
            test_cmds: Vec::new(),
            checkpoint_dirs: Vec::new(),
            curr_suite_name: None,
        };
        proof {
            assert(r.suites() =~= Seq::<Seq<char>>::empty());
            assert(r.retained() =~= Seq::<Seq<char>>::empty());
            assert(r.dirs() =~= Seq::<Seq<char>>::empty());
            assert forall|s: Seq<char>| r.cases(s) == Seq::<FailedTestView>::empty() by {
                r.suites().index_of_first_ensures(s);
            }
            assert forall|s: Seq<char>| r.command(s) is None by {
                r.retained().index_of_first_ensures(s);
            }
        }
        r
    }

    /// Where `suite` stands among the suites with failures.
    fn find_slot(&self, suite: &str) -> (r: Option<usize>)
        ensures
            match r {
                Some(i) => i < self.failed.len() && self.suites().index_of_first(suite@) == Some(
                    i as int,
                ),
                None => self.suites().index_of_first(suite@) is None,
            },
    {
        let mut i: usize = 0;
        while i < self.failed.len()
            invariant
                i <= self.failed.len(),
                forall|k: int| 0 <= k < i ==> self.suites()[k] != suite@,
            decreases self.failed.len() - i,
        {
            if *self.failed[i].name.as_str() == *suite {
                proof {
                    lemma_first_at(self.suites(), suite@, i as int);
                }
                return Some(i);
            }
            i += 1;
        }
        proof {
            self.suites().index_of_first_ensures(suite@);
        }
        None
    }

    /// Where `suite` stands among the retained suites.
    fn find_cmd(&self, suite: &str) -> (r: Option<usize>)
        ensures
            match r {
                Some(i) => i < self.test_cmds.len() && self.retained().index_of_first(suite@)
                    == Some(i as int),
                None => self.retained().index_of_first(suite@) is None,
            },
    {
        let mut i: usize = 0;
        while i < self.test_cmds.len()
            invariant
                i <= self.test_cmds.len(),
                forall|k: int| 0 <= k < i ==> self.retained()[k] != suite@,
            decreases self.test_cmds.len() - i,
        {
            if *self.test_cmds[i].name.as_str() == *suite {
                proof {
                    lemma_first_at(self.retained(), suite@, i as int);
                }
                return Some(i);
            }
            i += 1;
        }
        proof {
            self.retained().index_of_first_ensures(suite@);
        }
        None
    }

    /// Whether `dir` is among the directories touched.
    fn has_dir(&self, dir: &str) -> (r: bool)
        ensures
            r == self.dirs().contains(dir@),
    {
        let mut i: usize = 0;
        while i < self.checkpoint_dirs.len()
            invariant
                i <= self.checkpoint_dirs.len(),
                forall|k: int| 0 <= k < i ==> self.dirs()[k] != dir@,
            decreases self.checkpoint_dirs.len() - i,
        {
            if *self.checkpoint_dirs[i].as_str() == *dir {
                proof {
                    assert(self.dirs()[i as int] == dir@);
                }
                return true;
            }
            i += 1;
        }
        false
    }

    /// A suite that stands at `i` has the cases held there.
    proof fn lemma_slot(&self, i: int)
        requires
            self.suites().no_duplicates(),
            0 <= i < self.failed.len(),
        ensures
            self.suites().index_of_first(self.suites()[i]) == Some(i),
            self.cases(self.suites()[i]) == case_views(self.failed[i].tests@),
    {
        lemma_first_at(self.suites(), self.suites()[i], i);
    }

    /// A suite retained at `i` is the one found under its name.
    proof fn lemma_cmd_slot(&self, i: int)
        requires
            self.retained().no_duplicates(),
            0 <= i < self.test_cmds.len(),
        ensures
            self.retained().index_of_first(self.retained()[i]) == Some(i),
            self.command(self.retained()[i]) == Some(self.test_cmds[i].suite@),
    {
        lemma_first_at(self.retained(), self.retained()[i], i);
    }

    /// A suite that is not listed has no cases.
    proof fn lemma_no_slot(&self, suite: Seq<char>)
        requires
            !self.suites().contains(suite),
        ensures
            self.cases(suite) == Seq::<FailedTestView>::empty(),
    {
        self.suites().index_of_first_ensures(suite);
    }

    /// Records that `test_name` of `suite` failed, with its checkpoint in
    /// `checkpoint_dir`. The suite becomes the open suite, and the
    /// directory is noted if it was not yet.
    ///
    /// Another suite must not be open: finish it first.
    pub fn fail_test(&mut self, suite: &TestSuite, test_name: String, checkpoint_dir: &CheckpointDir)
        requires
            old(self).wf(),
            old(self).open_suite() matches Some(n) ==> n == suite.name@,
        ensures
            final(self).wf(),
            final(self).cases(suite.name@) == old(self).cases(suite.name@).push(
                failed_test(suite.name@, test_name@, checkpoint_dir@),
            ),
            forall|s: Seq<char>| s != suite.name@ ==> final(self).cases(s) == old(self).cases(s),
            forall|s: Seq<char>| final(self).command(s) == old(self).command(s),
            final(self).open_suite() == Some(suite.name@),
            final(self).dirs() == if old(self).dirs().contains(checkpoint_dir.dir@) {
                old(self).dirs()
            } else {
                old(self).dirs().push(checkpoint_dir.dir@)
            },
            final(self).suites() == if old(self).suites().contains(suite.name@) {
                old(self).suites()
            } else {
                old(self).suites().push(suite.name@)
            },
    {
        let ghost before = *self;
        let ghost name = suite.name@;
        if !self.has_dir(checkpoint_dir.dir.as_str()) {
            self.checkpoint_dirs.push(checkpoint_dir.dir.clone());
            proof {
                assert(self.dirs() =~= before.dirs().push(checkpoint_dir.dir@));
            }
        }
        if self.curr_suite_name.is_none() {
            self.curr_suite_name = Some(suite.name.clone());
        }
        let case = FailedTest::new(suite.name.as_str(), test_name, checkpoint_dir);
        proof {
            assert(self.suites() =~= before.suites());
            assert(self.retained() =~= before.retained());
            before.suites().index_of_first_ensures(name);
        }
        match self.find_slot(suite.name.as_str()) {
            Some(i) => {
                self.failed[i].tests.push(case);
                proof {
                    assert(self.suites() =~= before.suites());
                    assert(self.retained() =~= before.retained());
                    assert(self.failed[i as int].tests@ == before.failed[i as int].tests@.push(case));
                    assert(case_views(self.failed[i as int].tests@) =~= case_views(
                        before.failed[i as int].tests@,
                    ).push(case@));
                    before.lemma_slot(i as int);
                    self.lemma_slot(i as int);
                    assert(before.suites().contains(name));
                    assert forall|s: Seq<char>| s != name implies self.cases(s) == before.cases(
                        s,
                    ) by {
                        before.suites().index_of_first_ensures(s);
                    }
                    assert forall|a: int, k: int|
                        0 <= a < self.failed.len() && 0 <= k < self.failed[a].tests.len()
                            implies #[trigger] self.failed[a].tests[k].suite@
                            == self.failed[a].name@ by {
                        if a == i && k == before.failed[a].tests.len() {
                        } else {
                            assert(self.failed[a].tests[k] == before.failed[a].tests[k]);
                        }
                    }
                    assert forall|a: int| 0 <= a < self.failed.len() implies (
                    #[trigger] self.failed[a]).tests.len() > 0 by {
                        if a != i {
                            assert(self.failed[a] == before.failed[a]);
                        }
                    }
                    assert forall|a: int| 0 <= a < self.suites().len() implies self.retained().contains(
                    #[trigger] self.suites()[a]) || self.open_suite() == Some(self.suites()[a]) by {
                        assert(before.retained().contains(before.suites()[a])
                            || before.open_suite() == Some(before.suites()[a]));
                    }
                }
            },
            None => {
                let mut tests: Vec<FailedTest> = Vec::new();
                tests.push(case);
                self.failed.push(SuiteFailures { name: suite.name.clone(), tests });
                proof {
                    let n = before.failed.len() as int;
                    assert(self.suites() =~= before.suites().push(name));
                    assert(self.retained() =~= before.retained());
                    assert(before.open_suite() is None);
                    assert(case_views(self.failed[n].tests@) =~= Seq::<FailedTestView>::empty().push(
                        case@,
                    ));
                    before.lemma_no_slot(name);
                    self.lemma_slot(n);
                    assert forall|s: Seq<char>| s != name implies self.cases(s) == before.cases(
                        s,
                    ) by {
                        before.suites().index_of_first_ensures(s);
                        match before.suites().index_of_first(s) {
                            Some(j) => {
                                lemma_first_at(self.suites(), s, j);
                            },
                            None => {
                                assert(!self.suites().contains(s)) by {
                                    if self.suites().contains(s) {
                                        let w = choose|w: int|
                                            0 <= w < self.suites().len() && self.suites()[w] == s;
                                        assert(before.suites()[w] == s);
                                    }
                                }
                                self.lemma_no_slot(s);
                            },
                        }
                    }
                    assert forall|a: int, k: int|
                        0 <= a < self.failed.len() && 0 <= k < self.failed[a].tests.len()
                            implies #[trigger] self.failed[a].tests[k].suite@
                            == self.failed[a].name@ by {
                        if a < n {
                            assert(self.failed[a] == before.failed[a]);
                        }
                    }
                    assert forall|a: int| 0 <= a < self.failed.len() implies (
                    #[trigger] self.failed[a]).tests.len() > 0 by {
                        if a < n {
                            assert(self.failed[a] == before.failed[a]);
                        }
                    }
                    assert forall|a: int| 0 <= a < self.suites().len() implies self.retained().contains(
                    #[trigger] self.suites()[a]) || self.open_suite() == Some(self.suites()[a]) by {
                        if a < n {
                            assert(before.retained().contains(before.suites()[a])
                                || before.open_suite() == Some(before.suites()[a]));
                        }
                    }
                    assert forall|a: int| 0 <= a < self.retained().len() implies self.suites().contains(
                    #[trigger] self.retained()[a]) by {
                        let x = before.retained()[a];
                        assert(before.suites().contains(x));
                        let w = choose|w: int| 0 <= w < before.suites().len() && before.suites()[w] == x;
                        assert(self.suites()[w] == x);
                    }
                    assert(self.suites()[n] == name);
                }
            },
        }
    }

    /// Records that each of `tests` of `suite` failed, in their order, with
    /// their checkpoints in `checkpoint_dir`. Without tests nothing
    /// changes.
    ///
    /// Another suite must not be open: finish it first.
    pub fn fail_tests(
        &mut self,
        suite: &TestSuite,
        tests: &Vec<String>,
        checkpoint_dir: &CheckpointDir,
    )
        requires
            old(self).wf(),
            old(self).open_suite() matches Some(n) ==> n == suite.name@,
        ensures
            final(self).wf(),
            final(self).cases(suite.name@) == old(self).cases(suite.name@) + cases_for(
                suite.name@,
                checkpoint_dir@,
                texts(tests@),
            ),
            forall|s: Seq<char>| s != suite.name@ ==> final(self).cases(s) == old(self).cases(s),
            forall|s: Seq<char>| final(self).command(s) == old(self).command(s),
            final(self).open_suite() == if tests.len() > 0 {
                Some(suite.name@)
            } else {
                old(self).open_suite()
            },
            final(self).dirs() == if tests.len() > 0 && !old(self).dirs().contains(
                checkpoint_dir.dir@,
            ) {
                old(self).dirs().push(checkpoint_dir.dir@)
            } else {
                old(self).dirs()
            },
            final(self).suites() == if tests.len() > 0 && !old(self).suites().contains(
                suite.name@,
            ) {
                old(self).suites().push(suite.name@)
            } else {
                old(self).suites()
            },
    {
        let ghost name = suite.name@;
        let ghost dir = checkpoint_dir.dir@;
        let mut i: usize = 0;
        proof {
            assert(texts(tests@).subrange(0, 0) =~= Seq::<Seq<char>>::empty());
            assert(self.cases(name) + cases_for(name, checkpoint_dir@, Seq::<Seq<char>>::empty())
                =~= self.cases(name));
        }
        while i < tests.len()
            invariant
                i <= tests.len(),
                name == suite.name@,
                dir == checkpoint_dir.dir@,
                self.wf(),
                self.cases(name) == old(self).cases(name) + cases_for(
                    name,
                    checkpoint_dir@,
                    texts(tests@).subrange(0, i as int),
                ),
                forall|s: Seq<char>| s != name ==> self.cases(s) == old(self).cases(s),
                forall|s: Seq<char>| self.command(s) == old(self).command(s),
                self.open_suite() == if i > 0 {
                    Some(name)
                } else {
                    old(self).open_suite()
                },
                self.dirs() == if i > 0 && !old(self).dirs().contains(dir) {
                    old(self).dirs().push(dir)
                } else {
                    old(self).dirs()
                },
                self.suites() == if i > 0 && !old(self).suites().contains(name) {
                    old(self).suites().push(name)
                } else {
                    old(self).suites()
                },
                old(self).open_suite() matches Some(n) ==> n == name,
            decreases tests.len() - i,
        {
            let ghost done = texts(tests@).subrange(0, i as int);
            let ghost next = texts(tests@).subrange(0, i + 1);
            proof {
                assert(next =~= done.push(tests[i as int]@));
                let dirs = self.dirs();
                if dirs != old(self).dirs() {
                    assert(dirs[dirs.len() - 1] == dir);
                }
                let suites = self.suites();
                if suites != old(self).suites() {
                    assert(suites[suites.len() - 1] == name);
                }
            }
            self.fail_test(suite, tests[i].clone(), checkpoint_dir);
            proof {
                assert(cases_for(name, checkpoint_dir@, next) =~= cases_for(
                    name,
                    checkpoint_dir@,
                    done,
                ).push(failed_test(name, tests[i as int]@, checkpoint_dir@)));
                assert(self.cases(name) =~= old(self).cases(name) + cases_for(
                    name,
                    checkpoint_dir@,
                    next,
                ));
            }
            i += 1;
        }
        proof {
            assert(texts(tests@).subrange(0, tests.len() as int) =~= texts(tests@));
        }
    }

    /// Closes the open suite: if any of its cases failed, `suite` is
    /// retained under the open suite's name, in place of one retained under
    /// that name before. Without an open suite nothing changes.
    pub fn finish_suite(&mut self, suite: TestSuite)
        requires
            old(self).wf(),
        ensures
            final(self).wf(),
            final(self).open_suite() is None,
            final(self).suites() == old(self).suites(),
            final(self).dirs() == old(self).dirs(),
            forall|s: Seq<char>| final(self).cases(s) == old(self).cases(s),
            forall|s: Seq<char>|
                final(self).command(s) == if old(self).open_suite() == Some(s) {
                    Some(suite@)
                } else {
                    old(self).command(s)
                },
    {
        let ghost before = *self;
        let current = self.curr_suite_name.take();
        match current {
            Some(name) => {
                proof {
                    assert(self.retained() =~= before.retained());
                    before.retained().index_of_first_ensures(name@);
                }
                match self.find_cmd(name.as_str()) {
                    Some(i) => {
                        self.test_cmds[i].suite = suite;
                        proof {
                            assert(self.retained() =~= before.retained());
                            self.lemma_cmd_slot(i as int);
                            assert forall|s: Seq<char>| s != name@ implies self.command(s)
                                == before.command(s) by {
                                before.retained().index_of_first_ensures(s);
                            }
                        }
                    },
                    None => {
                        self.test_cmds.push(Retained { name, suite });
                        proof {
                            let n = before.test_cmds.len() as int;
                            assert(self.retained() =~= before.retained().push(name@));
                            self.lemma_cmd_slot(n);
                            assert forall|s: Seq<char>| s != name@ implies self.command(s)
                                == before.command(s) by {
                                before.retained().index_of_first_ensures(s);
                                self.retained().index_of_first_ensures(s);
                                match before.retained().index_of_first(s) {
                                    Some(j) => {
                                        lemma_first_at(self.retained(), s, j);
                                    },
                                    None => {
                                        if self.retained().contains(s) {
                                            let w = choose|w: int|
                                                0 <= w < self.retained().len() && self.retained()[w]
                                                    == s;
                                            assert(before.retained()[w] == s);
                                        }
                                    },
                                }
                            }
                            assert forall|a: int|
                                0 <= a < self.retained().len() implies self.suites().contains(
                            #[trigger] self.retained()[a]) by {
                                if a < n {
                                    assert(before.suites().contains(before.retained()[a]));
                                }
                            }
                        }
                    },
                }
                proof {
                    assert(self.suites() =~= before.suites());
                    assert forall|a: int|
                        0 <= a < self.suites().len() implies self.retained().contains(
                    #[trigger] self.suites()[a]) || self.open_suite() == Some(self.suites()[a]) by {
                        let x = before.suites()[a];
                        if before.retained().contains(x) {
                            let w = choose|w: int|
                                0 <= w < before.retained().len() && before.retained()[w] == x;
                            assert(self.retained()[w] == x);
                        } else {
                            assert(x == name@);
                        }
                    }
                }
            },
            None => {
                proof {
                    assert(self.suites() =~= before.suites());
                    assert(self.retained() =~= before.retained());
                }
            },
        }
    }

    /// The checkpoint directories touched, each once, in the order of
    /// first use.
    pub fn checkpoint_dirs(&self) -> (r: &Vec<String>)
        ensures
            texts(r@) == self.dirs(),
    {
        &self.checkpoint_dirs
    }

    /// The failing cases recorded for `suite`, oldest first; `None` where
    /// the suite has none.
    pub fn failures(&self, suite: &str) -> (r: Option<&Vec<FailedTest>>)
        ensures
            match r {
                Some(v) => case_views(v@) == self.cases(suite@) && self.suites().contains(suite@),
                None => self.cases(suite@) == Seq::<FailedTestView>::empty() && !self.suites().contains(
                    suite@,
                ),
            },
    {
        proof {
            self.suites().index_of_first_ensures(suite@);
        }
        match self.find_slot(suite) {
            Some(i) => Some(&self.failed[i].tests),
            None => None,
        }
    }

    /// The suite retained under the name `suite`, if there is one.
    pub fn test_cmd(&self, suite: &str) -> (r: Option<&TestSuite>)
        ensures
            match r {
                Some(t) => self.command(suite@) == Some(t@),
                None => self.command(suite@) is None,
            },
    {
        match self.find_cmd(suite) {
            Some(i) => Some(&self.test_cmds[i].suite),
            None => None,
        }
    }

    /// The names of the suites with recorded failures, in the order of
    /// their first failure.
    pub fn suite_names(&self) -> (r: Vec<String>)
        ensures
            texts(r@) == self.suites(),
    {
        let mut out: Vec<String> = Vec::new();
        let mut i: usize = 0;
        while i < self.failed.len()
            invariant
                i <= self.failed.len(),
                out.len() == i,
                forall|k: int| 0 <= k < i ==> out[k]@ == self.failed[k].name@,
            decreases self.failed.len() - i,
        {
            out.push(self.failed[i].name.clone());
            i += 1;
        }
        proof {
            assert(texts(out@) =~= self.suites());
        }
        out
    }

    /// Whether failures of `suite` can be recorded: no other suite is open.
    pub fn accepts(&self, suite: &TestSuite) -> (r: bool)
        ensures
            r == (self.open_suite() matches Some(n) ==> n == suite.name@),
    {
        match &self.curr_suite_name {
            Some(open) => *open.as_str() == *suite.name.as_str(),
            None => true,
        }
    }

    /// Whether no failure has been recorded.
    pub fn is_empty(&self) -> (r: bool)
        ensures
            r == (self.suites().len() == 0),
    {
        self.failed.len() == 0
    }
}

impl Default for Failed {
    /// An empty ledger.
    fn default() -> (r: Failed)
        ensures
            r.wf(),
            r.suites() == Seq::<Seq<char>>::empty(),
            r.dirs() == Seq::<Seq<char>>::empty(),
            r.open_suite() is None,
            forall|s: Seq<char>| r.cases(s) == Seq::<FailedTestView>::empty(),
            forall|s: Seq<char>| r.command(s) is None,
    {
        Failed::new()
    }
}

/// In a well-formed ledger a suite is listed exactly when it has cases,
/// and it has cases exactly when it is retained or still open; each of its
/// cases names it; and no suite or directory is listed twice.
pub proof fn lemma_ledger_invariant(ledger: Failed, suite: Seq<char>)
    requires
        ledger.wf(),
    ensures
        ledger.suites().contains(suite) <==> ledger.cases(suite).len() > 0,
        ledger.cases(suite).len() > 0 <==> ledger.command(suite) is Some || ledger.open_suite()
            == Some(suite),
        forall|k: int|
            0 <= k < ledger.cases(suite).len() ==> (#[trigger] ledger.cases(suite)[k]).suite == suite,
        ledger.suites().no_duplicates(),
        ledger.dirs().no_duplicates(),
{
    ledger.suites().index_of_first_ensures(suite);
    ledger.retained().index_of_first_ensures(suite);
    match ledger.suites().index_of_first(suite) {
        Some(i) => {
            assert(ledger.failed[i].tests.len() > 0);
            assert(ledger.retained().contains(ledger.suites()[i]) || ledger.open_suite() == Some(
                ledger.suites()[i],
            ));
            assert forall|k: int| 0 <= k < ledger.cases(suite).len() implies (
            #[trigger] ledger.cases(suite)[k]).suite == suite by {
                assert(ledger.failed[i].tests[k].suite@ == ledger.failed[i].name@);
            }
        },
        None => {
            if ledger.retained().contains(suite) {
                let w = choose|w: int| 0 <= w < ledger.retained().len() && ledger.retained()[w] == suite;
                assert(ledger.suites().contains(ledger.retained()[w]));
            }
        },
    }
}

} // verus!
