//! Where the checkpoint of a failing case lives, and which case a file
//! found in a checkpoint directory belongs to.
//!
//! A checkpoint is the file `<dir>/<prefix><test>.json`. With a directory
//! shared by all suites the prefix is `<suite>-`; with a directory of its
//! own for each test binary the prefix is empty.

use vstd::prelude::*;
use vstd::string::*;
use crate::json::{json_parsed, parse_json};
use crate::paths::{extension_of, final_component, joined, lemma_last_dot_is, stem_of};
use crate::paths;
use crate::text::{has_prefix, is_substring, opt_text};
use crate::text;

verus! {

/// The characters `.json`.
pub open spec fn dot_json() -> Seq<char> {
    seq!['.', 'j', 's', 'o', 'n']
}

/// The characters `json`.
pub open spec fn json_ext() -> Seq<char> {
    seq!['j', 's', 'o', 'n']
}

/// The prefix that marks the checkpoints of `suite` in a shared directory.
pub open spec fn suite_prefix(suite: Seq<char>) -> Seq<char> {
    suite.push('-')
}

/// The name of the checkpoint file of `test`.
pub open spec fn checkpoint_file(prefix: Seq<char>, test: Seq<char>) -> Seq<char> {
    prefix + test + dot_json()
}

/// The test whose checkpoint a file with this stem and this extension
/// is, if it is one: the extension is `json`, and the stem is the prefix
/// followed by the name of the test.
pub open spec fn test_in_parts(
    prefix: Seq<char>,
    stem: Seq<char>,
    extension: Option<Seq<char>>,
) -> Option<Seq<char>> {
    if extension == Some(json_ext()) && has_prefix(stem, prefix) {
        Some(stem.subrange(prefix.len() as int, stem.len() as int))
    } else {
        None
    }
}

/// The test whose checkpoint a file called `name` is, if it is one.
pub open spec fn test_in_file(prefix: Seq<char>, name: Seq<char>) -> Option<Seq<char>> {
    test_in_parts(prefix, stem_of(name), extension_of(name))
}

/// How the checkpoint directory is laid out.
#[derive(Copy, Clone, Debug, PartialEq, Eq, Structural)]
pub enum CheckpointScope {
    /// Each test binary has a directory of its own, named after the
    /// binary's file, so that an unchanged binary finds its checkpoints
    /// again.
    Binary,
    /// All suites share the directory, and a checkpoint carries the name
    /// of its suite in its file name.
    Shared,
}

/// The test whose checkpoint the directory entry at `entry` is, if it is one.
pub open spec fn test_in_entry(prefix: Seq<char>, entry: Seq<char>) -> Option<Seq<char>> {
    match final_component(entry) {
        Some(name) => test_in_file(prefix, name),
        None => None,
    }
}

/// The checkpoint path of `test` of `suite` below a shared `root`.
pub open spec fn shared_checkpoint_path(root: Seq<char>, suite: Seq<char>, test: Seq<char>) -> Seq<
    char,
> {
    joined(root, checkpoint_file(suite_prefix(suite), test))
}

/// Whether an optional name filter lets `test` through: no filter lets
/// everything through, a filter only the names that contain it.
pub open spec fn is_included(filter: Option<Seq<char>>, test: Seq<char>) -> bool {
    match filter {
        Some(f) => is_substring(test, f),
        None => true,
    }
}

/// A directory of checkpoint files together with the prefix its file
/// names carry.
#[derive(Debug, PartialEq, Eq)]
pub struct CheckpointDir {
    pub dir: String,
    pub prefix: String,
}

/// A checkpoint directory as a mathematical value.
pub struct CheckpointDirView {
    pub dir: Seq<char>,
    pub prefix: Seq<char>,
}

impl View for CheckpointDir {
    type V = CheckpointDirView;

    open spec fn view(&self) -> CheckpointDirView {
        CheckpointDirView { dir: self.dir@, prefix: self.prefix@ }
    }
}

impl CheckpointDirView {
    /// The path at which the checkpoint of `test` is kept.
    pub open spec fn path_of(self, test: Seq<char>) -> Seq<char> {
        joined(self.dir, checkpoint_file(self.prefix, test))
    }

    /// The directory below `root` that is named `name`, without a prefix.
    pub open spec fn below(root: Seq<char>, name: Seq<char>) -> CheckpointDirView {
        CheckpointDirView { dir: joined(root, name), prefix: Seq::empty() }
    }
}

impl CheckpointDir {

    /// The directory `root`, shared by all suites: the checkpoints of
    /// `suite_name` are the files `<suite_name>-<test>.json` in it.
    pub fn shared(root: &str, suite_name: &str) -> (r: CheckpointDir)
        ensures
            r@ == (CheckpointDirView { dir: root@, prefix: suite_prefix(suite_name@) }),
    {
        let mut prefix = suite_name.to_owned();
        prefix.append("-");
        proof {
            reveal_strlit("-");
            assert(prefix@ =~= suite_prefix(suite_name@));
        }
        CheckpointDir { dir: root.to_owned(), prefix }
    }

    /// The directory below `root` that is named after the file name of the
    /// test binary at `binary_path`, so that an unchanged binary finds its
    /// checkpoints again. `None` where the path has no file name.
    pub fn for_binary(root: &str, binary_path: &str) -> (r: Option<CheckpointDir>)
        ensures
            match final_component(binary_path@) {
                Some(name) => r matches Some(d) && d@ == CheckpointDirView::below(root@, name),
                None => r is None,
            },
    {
        match paths::file_name(binary_path) {
            Some(name) => Some(
                CheckpointDir { dir: paths::join(root, name.as_str()), prefix: String::new() },
            ),
            None => None,
        }
    }

    /// The path of the checkpoint file of `test`.
    pub fn checkpoint(&self, test: &str) -> (r: String)
        ensures
            r@ == self@.path_of(test@),
    {
        let mut file = self.prefix.clone();
        file.append(test);
        file.append(".json");
        proof {
            reveal_strlit(".json");
            assert(".json"@ =~= dot_json());
        }
        paths::join(self.dir.as_str(), file.as_str())
    }

    /// The test whose checkpoint a file with the stem `stem` and the
    /// extension `extension` is: the extension is `json` and the stem is
    /// the prefix followed by the test's name. `None` for any other file.
    pub fn test_in(&self, stem: &str, extension: Option<&str>) -> (r: Option<String>)
        ensures
            opt_text(r) == test_in_parts(
                self.prefix@,
                stem@,
                match extension {
                    Some(e) => Some(e@),
                    None => None,
                },
            ),
            forall|name: Seq<char>|
                stem@ == stem_of(name) && (match extension {
                    Some(e) => Some(e@),
                    None => None,
                }) == extension_of(name) ==> opt_text(r) == #[trigger] test_in_file(
                    self.prefix@,
                    name,
                ),
    {
        proof {
            reveal_strlit("json");
            assert("json"@ =~= json_ext());
        }
        match extension {
            Some(e) => {
                if *e == *"json" {
                    text::strip_prefix(stem, self.prefix.as_str())
                } else {
                    None
                }
            },
            None => None,
        }
    }

    /// The test whose checkpoint the directory entry `entry` is, going by
    /// the stem and the extension of its file name. `None` for an entry
    /// that is no checkpoint of this directory.
    pub fn checkpointed_test(&self, entry: &str) -> (r: Option<String>)
        ensures
            opt_text(r) == test_in_entry(self.prefix@, entry@),
    {
        let found = paths::extension(entry);
        let extension = match &found {
            Some(e) => Some(e.as_str()),
            None => None,
        };
        match paths::file_stem(entry) {
            Some(stem) => self.test_in(stem.as_str(), extension),
            None => None,
        }
    }
}

/// The checkpoint path of `test_name` of `suite_name` below `root`:
/// `<root>/<suite_name>-<test_name>.json`.
pub fn checkpoint_path(root: &str, suite_name: &str, test_name: &str) -> (r: String)
    ensures
        r@ == shared_checkpoint_path(root@, suite_name@, test_name@),
{
    CheckpointDir::shared(root, suite_name).checkpoint(test_name)
}

/// Whether the optional name filter lets `test` through.
pub fn included(filter: &Option<String>, test: &str) -> (r: bool)
    ensures
        r == is_included(opt_text(*filter), test@),
{
    match filter {
        Some(f) => text::contains(test, f.as_str()),
        None => true,
    }
}

/// Whether the text of a checkpoint file is well formed: it is one JSON
/// document.
pub open spec fn well_formed(contents: Seq<char>) -> bool {
    json_parsed(contents) is Ok
}

/// Whether a checkpoint file can be taken up again. `contents` is the
/// text of the file, `None` where there is no file or it cannot be read.
/// A file that was left half written is not well formed and counts as
/// not there.
pub fn usable_checkpoint(contents: Option<&str>) -> (r: bool)
    ensures
        r == match contents {
            Some(text) => well_formed(text@),
            None => false,
        },
{
    match contents {
        Some(text) => parse_json(text).is_ok(),
        None => false,
    }
}

/// A checkpoint file is read back as the test it was written for, as long
/// as prefix and test name are not both empty.
pub proof fn lemma_file_names_test(prefix: Seq<char>, test: Seq<char>)
    requires
        prefix.len() + test.len() > 0,
    ensures
        test_in_file(prefix, checkpoint_file(prefix, test)) == Some(test),
{
    let name = checkpoint_file(prefix, test);
    let at = (prefix.len() + test.len()) as int;
    lemma_last_dot_is(name, at);
    assert(stem_of(name) =~= prefix + test);
    assert(name.subrange(at + 1, name.len() as int) =~= json_ext());
    assert((prefix + test).subrange(0, prefix.len() as int) =~= prefix);
    assert((prefix + test).subrange(prefix.len() as int, (prefix + test).len() as int) =~= test);
}

/// In a shared directory no two cases have the same checkpoint file, as
/// long as test names hold no `-`.
pub proof fn lemma_shared_file_names_differ(
    suite1: Seq<char>,
    test1: Seq<char>,
    suite2: Seq<char>,
    test2: Seq<char>,
)
    requires
        !test1.contains('-'),
        !test2.contains('-'),
        checkpoint_file(suite_prefix(suite1), test1) == checkpoint_file(suite_prefix(suite2), test2),
    ensures
        suite1 == suite2,
        test1 == test2,
{
    let a = checkpoint_file(suite_prefix(suite1), test1);
    let b = checkpoint_file(suite_prefix(suite2), test2);
    assert(a.len() == suite1.len() + test1.len() + 6);
    assert(b.len() == suite2.len() + test2.len() + 6);
    assert(a[suite1.len() as int] == '-');
    assert(b[suite2.len() as int] == '-');
    if suite1.len() < suite2.len() {
        let k = suite2.len() - suite1.len() - 1;
        assert(a[suite2.len() as int] == '-');
        assert(test1[k] == a[suite2.len() as int]);
        assert(test1.contains('-'));
    }
    if suite2.len() < suite1.len() {
        let k = suite1.len() - suite2.len() - 1;
        assert(b[suite1.len() as int] == '-');
        assert(test2[k] == b[suite1.len() as int]);
        assert(test2.contains('-'));
    }
    assert(suite1 =~= suite2) by {
        assert forall|i: int| 0 <= i < suite1.len() implies suite1[i] == suite2[i] by {
            assert(a[i] == suite1[i]);
            assert(b[i] == suite2[i]);
        }
    }
    assert(test1 =~= test2) by {
        assert forall|i: int| 0 <= i < test1.len() implies test1[i] == test2[i] by {
            assert(a[suite1.len() + 1 + i] == test1[i]);
            assert(b[suite2.len() + 1 + i] == test2[i]);
        }
    }
}

/// In a directory of one binary no two tests have the same checkpoint file.
pub proof fn lemma_binary_file_names_differ(test1: Seq<char>, test2: Seq<char>)
    requires
        checkpoint_file(Seq::empty(), test1) == checkpoint_file(Seq::empty(), test2),
    ensures
        test1 == test2,
{
    let a = checkpoint_file(Seq::empty(), test1);
    let b = checkpoint_file(Seq::empty(), test2);
    assert(a.len() == b.len());
    assert(test1 =~= test2) by {
        assert forall|i: int| 0 <= i < test1.len() implies test1[i] == test2[i] by {
            assert(a[i] == test1[i]);
            assert(b[i] == test2[i]);
        }
    }
}

/// The checkpoint path depends on nothing but the root, the suite's name
/// and the test's name: the same three give the same path.
pub proof fn lemma_checkpoint_path_is_a_function(
    root1: Seq<char>,
    suite1: Seq<char>,
    test1: Seq<char>,
    root2: Seq<char>,
    suite2: Seq<char>,
    test2: Seq<char>,
)
    requires
        root1 == root2,
        suite1 == suite2,
        test1 == test2,
    ensures
        shared_checkpoint_path(root1, suite1, test1) == shared_checkpoint_path(root2, suite2, test2),
        forall|prefix: Seq<char>|
            (CheckpointDirView { dir: root1, prefix }).path_of(test1) == (CheckpointDirView {
                dir: root2,
                prefix,
            }).path_of(test2),
{
}

} // verus!
