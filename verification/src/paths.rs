//! Path arithmetic on UTF-8 paths held as strings.
//!
//! Joining and splitting into components is done by `camino`; only the
//! split of a file name at its last dot is spelled out here.

use vstd::prelude::*;
use crate::text::opt_text;

verus! {

/// The path that `camino::Utf8Path::join` makes of `base` and `path`.
pub uninterp spec fn joined(base: Seq<char>, path: Seq<char>) -> Seq<char>;

/// The final component of a path as `camino::Utf8Path::file_name` finds it.
pub uninterp spec fn final_component(path: Seq<char>) -> Option<Seq<char>>;

/// The position of the last `.` in `name`, or -1 where it holds none.
pub open spec fn last_dot(name: Seq<char>) -> int
    decreases name.len(),
{
    if name.len() == 0 {
        -1
    } else if name.last() == '.' {
        name.len() - 1
    } else {
        last_dot(name.drop_last())
    }
}

/// The stem of a file name: all of it where it holds no dot, or only the
/// one it begins with; otherwise what stands before the last dot.
pub open spec fn stem_of(name: Seq<char>) -> Seq<char> {
    if last_dot(name) <= 0 {
        name
    } else {
        name.subrange(0, last_dot(name))
    }
}

/// The extension of a file name: none where it holds no dot, or only the
/// one it begins with; otherwise what follows the last dot.
pub open spec fn extension_of(name: Seq<char>) -> Option<Seq<char>> {
    if last_dot(name) <= 0 {
        None
    } else {
        Some(name.subrange(last_dot(name) + 1, name.len() as int))
    }
}

/// `Utf8Path::join`: `path` adjoined to `base`.
#[verifier::external_body]
pub(crate) fn join(base: &str, path: &str) -> (r: String)
    ensures
        r@ == joined(base@, path@),
{
    camino::Utf8Path::new(base).join(path).into_string()
}

/// `Utf8Path::file_name`: the final component, if the path has one.
#[verifier::external_body]
pub(crate) fn file_name(path: &str) -> (r: Option<String>)
    ensures
        opt_text(r) == final_component(path@),
{
    camino::Utf8Path::new(path).file_name().map(String::from)
}

/// `Utf8Path::file_stem`: the stem of the path's file name, `None` where
/// the path has no file name.
#[verifier::external_body]
pub(crate) fn file_stem(path: &str) -> (r: Option<String>)
    ensures
        opt_text(r) == match final_component(path@) {
            Some(name) => Some(stem_of(name)),
            None => None,
        },
{
    camino::Utf8Path::new(path).file_stem().map(String::from)
}

/// `Utf8Path::extension`: the extension of the path's file name, `None`
/// where there is no file name or the name has no extension.
#[verifier::external_body]
pub(crate) fn extension(path: &str) -> (r: Option<String>)
    ensures
        opt_text(r) == match final_component(path@) {
            Some(name) => extension_of(name),
            None => None,
        },
{
    camino::Utf8Path::new(path).extension().map(String::from)
}

/// The last dot of `name` is a dot, and no dot follows it.
pub proof fn lemma_last_dot(name: Seq<char>)
    ensures
        -1 <= last_dot(name) < name.len(),
        last_dot(name) >= 0 ==> name[last_dot(name)] == '.',
        forall|i: int| last_dot(name) < i < name.len() ==> name[i] != '.',
    decreases name.len(),
{
    if name.len() > 0 && name.last() != '.' {
        lemma_last_dot(name.drop_last());
        assert forall|i: int| last_dot(name) < i < name.len() implies name[i] != '.' by {
            if i < name.len() - 1 {
                assert(name.drop_last()[i] == name[i]);
            }
        }
    }
}

/// A position is the last dot as soon as it holds a dot and none follows.
pub proof fn lemma_last_dot_is(name: Seq<char>, at: int)
    requires
        0 <= at < name.len(),
        name[at] == '.',
        forall|i: int| at < i < name.len() ==> name[i] != '.',
    ensures
        last_dot(name) == at,
{
    lemma_last_dot(name);
}

} // verus!
