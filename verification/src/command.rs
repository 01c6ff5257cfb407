//! The processes to be spawned, described as plain values: the program,
//! its arguments, and the environment variables set for it.

use vstd::prelude::*;
use vstd::string::*;
use crate::text::texts;

verus! {

pub const ENV_CHECKPOINT_INTERVAL: &'static str = "LOOM_CHECKPOINT_INTERVAL";

pub const ENV_MAX_BRANCHES: &'static str = "LOOM_MAX_BRANCHES";

pub const ENV_MAX_DURATION: &'static str = "LOOM_MAX_DURATION";

pub const ENV_MAX_PERMUTATIONS: &'static str = "LOOM_MAX_PERMUTATIONS";

pub const ENV_MAX_THREADS: &'static str = "LOOM_MAX_THREADS";

pub const ENV_LOOM_LOG: &'static str = "LOOM_LOG";

pub const ENV_CHECKPOINT_FILE: &'static str = "LOOM_CHECKPOINT_FILE";

pub const ENV_LOOM_LOCATION: &'static str = "LOOM_LOCATION";

/// The views of a list of environment settings.
pub open spec fn env_views(v: Seq<(String, String)>) -> Seq<(Seq<char>, Seq<char>)> {
    Seq::new(v.len(), |i: int| (v[i].0@, v[i].1@))
}

/// The value that a process started with the settings `envs` finds under
/// `name`: that of the last setting of `name`, if there is one.
pub open spec fn env_value(envs: Seq<(Seq<char>, Seq<char>)>, name: Seq<char>) -> Option<Seq<char>>
    decreases envs.len(),
{
    if envs.len() == 0 {
        None
    } else if envs.last().0 == name {
        Some(envs.last().1)
    } else {
        env_value(envs.drop_last(), name)
    }
}

/// A process to spawn: the program, its arguments in order, and the
/// environment variables set for it, in the order in which they are set.
#[derive(Debug, PartialEq, Eq)]
pub struct TestCommand {
    pub program: String,
    pub args: Vec<String>,
    pub envs: Vec<(String, String)>,
}

/// A command as a mathematical value.
pub struct TestCommandView {
    pub program: Seq<char>,
    pub args: Seq<Seq<char>>,
    pub envs: Seq<(Seq<char>, Seq<char>)>,
}

impl View for TestCommand {
    type V = TestCommandView;

    open spec fn view(&self) -> TestCommandView {
        TestCommandView {
            program: self.program@,
            args: texts(self.args@),
            envs: env_views(self.envs@),
        }
    }
}

impl TestCommandView {
    /// This command with one more argument.
    pub open spec fn arg(self, a: Seq<char>) -> TestCommandView {
        TestCommandView { args: self.args.push(a), ..self }
    }

    /// This command with more arguments.
    pub open spec fn args(self, more: Seq<Seq<char>>) -> TestCommandView {
        TestCommandView { args: self.args + more, ..self }
    }

    /// This command with one more environment variable set.
    pub open spec fn env(self, name: Seq<char>, value: Seq<char>) -> TestCommandView {
        TestCommandView { envs: self.envs.push((name, value)), ..self }
    }

    /// This command with a variable set where a value is given.
    pub open spec fn env_opt(self, name: Seq<char>, value: Option<Seq<char>>) -> TestCommandView {
        match value {
            Some(v) => self.env(name, v),
            None => self,
        }
    }

    /// The command that runs `program` with no arguments and nothing set.
    pub open spec fn program(program: Seq<char>) -> TestCommandView {
        TestCommandView { program, args: Seq::empty(), envs: Seq::empty() }
    }
}

impl TestCommand {
    /// The command that runs `program` with no arguments and nothing set.
    pub fn new(program: &str) -> (r: TestCommand)
        ensures
            r@ == TestCommandView::program(program@),
    {
        let r = TestCommand { program: program.to_owned(), args: Vec::new(), envs: Vec::new() };
        proof {
            assert(texts(r.args@) =~= Seq::<Seq<char>>::empty());
            assert(env_views(r.envs@) =~= Seq::<(Seq<char>, Seq<char>)>::empty());
        }
        r
    }

    /// Adds an argument.
    pub fn arg(&mut self, a: &str)
        ensures
            final(self)@ == old(self)@.arg(a@),
    {
        self.args.push(a.to_owned());
        proof {
            assert(texts(self.args@) =~= texts(old(self).args@).push(a@));
        }
    }

    /// Adds arguments.
    pub fn args(&mut self, more: &Vec<String>)
        ensures
            final(self)@ == old(self)@.args(texts(more@)),
    {
        let mut i: usize = 0;
        while i < more.len()
            invariant
                i <= more.len(),
                self.program == old(self).program,
                self.envs == old(self).envs,
                texts(self.args@) == texts(old(self).args@) + texts(more@).subrange(0, i as int),
            decreases more.len() - i,
        {
            let ghost prev = self.args@;
            self.args.push(more[i].clone());
            proof {
                assert(texts(self.args@) =~= texts(prev).push(more[i as int]@));
                assert(texts(more@).subrange(0, i + 1) =~= texts(more@).subrange(0, i as int).push(
                    more[i as int]@,
                ));
                assert(texts(self.args@) =~= texts(old(self).args@) + texts(more@).subrange(
                    0,
                    i + 1,
                ));
            }
            i += 1;
        }
        proof {
            assert(texts(more@).subrange(0, more.len() as int) =~= texts(more@));
        }
    }

    /// Sets an environment variable.
    pub fn env(&mut self, name: &str, value: &str)
        ensures
            final(self)@ == old(self)@.env(name@, value@),
    {
        self.envs.push((name.to_owned(), value.to_owned()));
        proof {
            assert(env_views(self.envs@) =~= env_views(old(self).envs@).push((name@, value@)));
        }
    }

    /// A copy of this command.
    pub fn duplicate(&self) -> (r: TestCommand)
        ensures
            r@ == self@,
    {
        let mut envs: Vec<(String, String)> = Vec::new();
        let mut i: usize = 0;
        while i < self.envs.len()
            invariant
                i <= self.envs.len(),
                envs.len() == i,
                forall|k: int|
                    0 <= k < i ==> envs[k].0@ == self.envs[k].0@ && envs[k].1@ == self.envs[k].1@,
            decreases self.envs.len() - i,
        {
            envs.push((self.envs[i].0.clone(), self.envs[i].1.clone()));
            i += 1;
        }
        let r = TestCommand {
            program: self.program.clone(),
            args: crate::text::clone_all(&self.args),
            envs,
        };
        proof {
            assert(env_views(r.envs@) =~= env_views(self.envs@));
        }
        r
    }
}

/// A variable that is set last is the one the process finds; setting
/// another variable leaves what it finds as it was.
pub proof fn lemma_env_value_after_set(
    cmd: TestCommandView,
    name: Seq<char>,
    value: Seq<char>,
    asked: Seq<char>,
)
    ensures
        env_value(cmd.env(name, value).envs, asked) == if name == asked {
            Some(value)
        } else {
            env_value(cmd.envs, asked)
        },
{
    assert(cmd.envs.push((name, value)).drop_last() =~= cmd.envs);
}

/// The eight variables have eight different names.
pub proof fn lemma_env_names_differ()
    ensures
        ENV_CHECKPOINT_FILE@ != ENV_MAX_BRANCHES@,
        ENV_CHECKPOINT_FILE@ != ENV_MAX_PERMUTATIONS@,
        ENV_CHECKPOINT_FILE@ != ENV_MAX_THREADS@,
        ENV_CHECKPOINT_FILE@ != ENV_MAX_DURATION@,
        ENV_CHECKPOINT_FILE@ != ENV_LOOM_LOG@,
        ENV_CHECKPOINT_FILE@ != ENV_CHECKPOINT_INTERVAL@,
        ENV_CHECKPOINT_FILE@ != ENV_LOOM_LOCATION@,
        ENV_LOOM_LOCATION@ != ENV_MAX_BRANCHES@,
        ENV_LOOM_LOCATION@ != ENV_MAX_PERMUTATIONS@,
        ENV_LOOM_LOCATION@ != ENV_MAX_THREADS@,
        ENV_LOOM_LOCATION@ != ENV_MAX_DURATION@,
        ENV_LOOM_LOCATION@ != ENV_LOOM_LOG@,
        ENV_LOOM_LOCATION@ != ENV_CHECKPOINT_INTERVAL@,
        ENV_LOOM_LOG@ != ENV_MAX_BRANCHES@,
        ENV_LOOM_LOG@ != ENV_MAX_PERMUTATIONS@,
        ENV_LOOM_LOG@ != ENV_MAX_THREADS@,
        ENV_LOOM_LOG@ != ENV_MAX_DURATION@,
        ENV_LOOM_LOG@ != ENV_CHECKPOINT_INTERVAL@,
        ENV_CHECKPOINT_INTERVAL@ != ENV_MAX_BRANCHES@,
        ENV_CHECKPOINT_INTERVAL@ != ENV_MAX_PERMUTATIONS@,
        ENV_CHECKPOINT_INTERVAL@ != ENV_MAX_THREADS@,
        ENV_CHECKPOINT_INTERVAL@ != ENV_MAX_DURATION@,
        ENV_MAX_DURATION@ != ENV_MAX_BRANCHES@,
        ENV_MAX_DURATION@ != ENV_MAX_PERMUTATIONS@,
        ENV_MAX_DURATION@ != ENV_MAX_THREADS@,
        ENV_MAX_BRANCHES@ != ENV_MAX_PERMUTATIONS@,
        ENV_MAX_BRANCHES@ != ENV_MAX_THREADS@,
        ENV_MAX_PERMUTATIONS@ != ENV_MAX_THREADS@,
{
    reveal_strlit("LOOM_CHECKPOINT_INTERVAL");
    reveal_strlit("LOOM_MAX_BRANCHES");
    reveal_strlit("LOOM_MAX_DURATION");
    reveal_strlit("LOOM_MAX_PERMUTATIONS");
    reveal_strlit("LOOM_MAX_THREADS");
    reveal_strlit("LOOM_LOG");
    reveal_strlit("LOOM_CHECKPOINT_FILE");
    reveal_strlit("LOOM_LOCATION");
    assert(ENV_MAX_DURATION@.len() == 17);
    assert(ENV_MAX_BRANCHES@.len() == 17);
    assert(ENV_MAX_DURATION@[9] == 'D');
    assert(ENV_MAX_BRANCHES@[9] == 'B');
    assert(ENV_CHECKPOINT_FILE@.len() == 20);
    assert(ENV_LOOM_LOCATION@.len() == 13);
    assert(ENV_LOOM_LOG@.len() == 8);
    assert(ENV_CHECKPOINT_INTERVAL@.len() == 24);
    assert(ENV_MAX_PERMUTATIONS@.len() == 21);
    assert(ENV_MAX_THREADS@.len() == 16);
}

} // verus!
