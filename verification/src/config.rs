//! The run's immutable configuration: the command to apply, the parent
//! directory, the canonical ignore set, the concurrency bound and the
//! optional per-invocation time limit.
use vstd::prelude::*;
use vstd::string::{StrSliceExecFns, StringExecFns};

use crate::errors::CliError;
use crate::json::Mode;

verus! {

/// A per-invocation time limit, as whole seconds plus a sub-second
/// nanosecond remainder.
pub struct TimeLimit {
    pub secs: u64,
    pub nanos: u32,
}

impl TimeLimit {
    /// A well-formed limit keeps the nanosecond remainder below one second.
    pub open spec fn wf(self) -> bool {
        self.nanos < 1_000_000_000
    }
}

/// Splits the trailing command line into the executable name and its
/// argument sequence: the first word is the executable, the rest pass
/// through unchanged. An empty command line is the fatal `Command` error.
pub fn split_command(args: Vec<String>) -> (r: Result<(String, Vec<String>), CliError>)
    ensures
        args@.len() == 0 ==> (r matches Err(e) && e is Command),
        args@.len() > 0 ==> (r matches Ok(c) && c.0 == args@[0] && c.1@ == args@.skip(1)),
{
    if args.len() == 0 {
        Err(CliError::Command)
    } else {
        let ghost orig = args@;
        let mut rest = args;
        let first = rest.remove(0);
        proof {
            assert(rest@ =~= orig.skip(1));
        }
        Ok((first, rest))
    }
}

/// A POSIX-style path is absolute exactly when it starts with the
/// separator.
pub open spec fn is_absolute_path(p: Seq<char>) -> bool {
    p.len() > 0 && p[0] == '/'
}

/// Where the resolution of one raw ignore-list entry starts: an absolute
/// entry stands by itself, a relative one is prefixed with the parent
/// directory, with one separator between them when the parent does not
/// already end in one.
pub open spec fn spec_ignore_base(dir: Seq<char>, p: Seq<char>) -> Seq<char> {
    if is_absolute_path(p) {
        p
    } else if dir.len() > 0 && dir[dir.len() - 1] == '/' {
        dir + p
    } else {
        dir + "/"@ + p
    }
}

/// Prefixes a relative ignore-list entry with the parent directory; an
/// absolute entry passes through unchanged. The result is what the host is
/// then asked to canonicalize.
pub fn ignore_base(directory: &String, path: &String) -> (r: String)
    ensures
        r@ == spec_ignore_base(directory@, path@),
{
    let path_len = path.as_str().unicode_len();
    if path_len > 0 && path.as_str().get_char(0) == '/' {
        path.clone()
    } else {
        let mut r = directory.clone();
        let dir_len = directory.as_str().unicode_len();
        if !(dir_len > 0 && directory.as_str().get_char(dir_len - 1) == '/') {
            r.append("/");
        }
        r.append(path.as_str());
        r
    }
}

/// Whether one immediate child is handed to the process runner, silently
/// left out, or counted as unreadable.
pub enum Admission {
    /// The entry could not be read or canonicalized: counted, excluded.
    Modified,
    /// The entry is not a directory, or its canonical path is ignored.
    Skip,
    /// The entry is run.
    Dispatch,
}

/// The run's immutable configuration, built once at startup and read-only
/// afterwards: the command and its arguments, the parent directory, the
/// canonical ignore set, the concurrency bound, the optional time limit
/// and the output mode.
pub struct CliParsed {
    /// The executable name and its argument sequence.
    pub command: (String, Vec<String>),
    /// The parent directory whose immediate children are processed.
    pub directory: String,
    /// The canonical paths of the subdirectories to leave out.
    pub ignored_subdirectories: Vec<String>,
    /// At most this many invocations are in flight at once.
    pub jobs: usize,
    /// The optional per-invocation time limit.
    pub timeout: Option<TimeLimit>,
    /// How the results leave the run.
    pub mode: Mode,
}

impl CliParsed {
    /// The concurrency bound is positive and the time limit well-formed.
    pub open spec fn wf(self) -> bool {
        &&& self.jobs >= 1
        &&& (self.timeout matches Some(t) ==> t.wf())
    }

    /// Whether a canonical path is a member of the ignore set; membership
    /// is exact equality, with no prefix or glob semantics.
    pub open spec fn spec_ignored(self, p: Seq<char>) -> bool {
        self.ignored_subdirectories.deep_view().contains(p)
    }

    /// What the ignore filter decides about one immediate child, given its
    /// canonical path (when it has one) and whether it is a directory.
    pub open spec fn spec_admission(self, canonical: Option<Seq<char>>, is_dir: bool) -> Admission {
        match canonical {
            Option::None => Admission::Modified,
            Option::Some(c) => if !is_dir || self.spec_ignored(c) {
                Admission::Skip
            } else {
                Admission::Dispatch
            },
        }
    }

    /// Exact-equality membership of a canonical path in the ignore set.
    fn is_ignored(&self, path: &String) -> (r: bool)
        ensures
            r == self.spec_ignored(path@),
    {
        let n = self.ignored_subdirectories.len();
        let mut i: usize = 0;
        while i < n
            invariant
                n == self.ignored_subdirectories@.len(),
                i <= n,
                forall|j: int| 0 <= j < i ==> self.ignored_subdirectories@[j]@ != path@,
            decreases n - i,
        {
            if self.ignored_subdirectories[i] == *path {
                proof {
                    assert(self.ignored_subdirectories.deep_view()[i as int] == path@);
                }
                return true;
            }
            i += 1;
        }
        proof {
            assert forall|k: int|
                0 <= k < self.ignored_subdirectories.deep_view().len() implies self.ignored_subdirectories.deep_view()[k]
                != path@ by {
                assert(self.ignored_subdirectories.deep_view()[k] == self.ignored_subdirectories@[k]@);
            }
        }
        false
    }

    /// Decides one immediate child's fate. An unreadable entry is counted
    /// as modified; a non-directory, or a directory whose canonical path
    /// is in the ignore set, is silently left out; everything else is
    /// dispatched. A non-directory is never dispatched and never reported,
    /// and an ignored subdirectory is never dispatched.
    pub fn admit_entry(&self, canonical: &Option<String>, is_dir: bool) -> (a: Admission)
        ensures
            a == self.spec_admission(spec_canonical_view(*canonical), is_dir),
            a is Dispatch ==> is_dir,
            a is Dispatch ==> (*canonical matches Some(c) && !self.spec_ignored(c@)),
            (canonical is Some && !is_dir) ==> a is Skip,
    {
        match canonical {
            Option::None => Admission::Modified,
            Option::Some(c) => {
                if !is_dir || self.is_ignored(c) {
                    Admission::Skip
                } else {
                    Admission::Dispatch
                }
            },
        }
    }
}

/// The canonical path an entry resolved to, if it resolved at all, as a
/// character sequence.
pub open spec fn spec_canonical_view(canonical: Option<String>) -> Option<Seq<char>> {
    match canonical {
        Option::None => Option::None,
        Option::Some(c) => Option::Some(c@),
    }
}

} // verus!
