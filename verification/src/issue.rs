//! Which errors are worth a bug report, and how the report is filled in.

use vstd::prelude::*;
use vstd::string::*;
use crate::text::{has_prefix, starts_with, texts};

verus! {

/// What kind of error stands at one place of a chain of causes.
#[derive(Copy, Clone, Debug, PartialEq, Eq, Structural)]
pub enum Cause {
    /// An I/O error.
    Io,
    /// An error passed on from Cargo.
    Cargo,
    /// Any other error.
    Other,
}

/// An error as the report hook sees it.
#[derive(Debug, PartialEq, Eq)]
pub enum ErrorKind {
    /// A panic.
    NonRecoverable,
    /// An error that was returned, with the chain of its causes, the
    /// error itself first.
    Recoverable(Vec<Cause>),
}

/// Whether none of the causes is an I/O error or comes from Cargo.
pub open spec fn all_ours(chain: Seq<Cause>) -> bool {
    forall|i: int| 0 <= i < chain.len() ==> chain[i] == Cause::Other
}

/// Whether an error with the causes `chain` may be a fault of this
/// program: neither it nor any of its causes is an I/O error or an error
/// passed on from Cargo.
pub fn error_is_issue(chain: &Vec<Cause>) -> (r: bool)
    ensures
        r == all_ours(chain@),
{
    let mut i: usize = 0;
    while i < chain.len()
        invariant
            i <= chain.len(),
            forall|k: int| 0 <= k < i ==> chain[k] == Cause::Other,
        decreases chain.len() - i,
    {
        match chain[i] {
            Cause::Io => {
                return false;
            },
            Cause::Cargo => {
                return false;
            },
            Cause::Other => {},
        }
        i += 1;
    }
    true
}

/// Whether a bug report is offered for an error: always for a panic, and
/// for a returned error if it may be a fault of this program.
pub fn is_issue(kind: &ErrorKind) -> (r: bool)
    ensures
        r == match *kind {
            ErrorKind::NonRecoverable => true,
            ErrorKind::Recoverable(chain) => all_ours(chain@),
        },
{
    match kind {
        ErrorKind::NonRecoverable => true,
        ErrorKind::Recoverable(chain) => error_is_issue(chain),
    }
}

/// Whether a stack frame of this name belongs to the runtime and is left
/// out of a backtrace.
pub open spec fn is_skipped(name: Seq<char>) -> bool {
    has_prefix(name, "tokio::runtime"@) || has_prefix(name, "tokio::coop"@) || has_prefix(
        name,
        "tokio::park"@,
    ) || has_prefix(name, "std::thread::local"@)
}

/// Whether a stack frame is shown in a backtrace: one without a name is,
/// one with a name unless it belongs to the runtime.
pub fn keep_frame(name: Option<&str>) -> (r: bool)
    ensures
        r == match name {
            Some(n) => !is_skipped(n@),
            None => true,
        },
{
    match name {
        Some(n) => {
            !starts_with(n, "tokio::runtime") && !starts_with(n, "tokio::coop") && !starts_with(
                n,
                "tokio::park",
            ) && !starts_with(n, "std::thread::local")
        },
        None => true,
    }
}

/// Arguments set one after another, each followed by a space.
pub open spec fn trailed(args: Seq<Seq<char>>) -> Seq<char>
    decreases args.len(),
{
    if args.len() == 0 {
        Seq::empty()
    } else {
        trailed(args.drop_last()) + args.last() + " "@
    }
}

/// The command line as it is quoted in a bug report: each argument
/// followed by a space.
pub fn args_line(args: &Vec<String>) -> (r: String)
    ensures
        r@ == trailed(texts(args@)),
{
    let mut out = String::new();
    let mut i: usize = 0;
    while i < args.len()
        invariant
            i <= args.len(),
            out@ == trailed(texts(args@).subrange(0, i as int)),
        decreases args.len() - i,
    {
        out.append(args[i].as_str());
        out.append(" ");
        proof {
            let done = texts(args@).subrange(0, i + 1);
            assert(done.drop_last() =~= texts(args@).subrange(0, i as int));
            assert(done.last() == args[i as int]@);
        }
        i += 1;
    }
    proof {
        assert(texts(args@).subrange(0, args.len() as int) =~= texts(args@));
    }
    out
}

} // verus!
