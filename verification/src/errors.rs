//! Error values of the two tiers: fatal startup errors (`CliError`) and
//! per-entry recoverable classifications (`ProcessError`), with their
//! diagnostic texts.
use vstd::prelude::*;
use vstd::string::StringExecFns;

verus! {

/// What the host reported about a failed operating-system call: the raw OS
/// error code, when one exists, and the host's description of the failure.
pub struct OsError {
    pub code: Option<i32>,
    pub description: String,
}

/// A fatal startup error: the run aborts with a single diagnostic.
pub enum CliError {
    /// The trailing command line held no executable name.
    Command,
    /// The current working directory could not be read.
    CurrentDirectory(OsError),
    /// The parent directory's children could not be listed.
    SubDirectories(OsError),
    /// An ignore-list entry could not be resolved; the offending raw path
    /// is carried beside the cause.
    IgnoredDirectories(String, OsError),
}

/// The recoverable classification of one directory entry: the run goes on
/// and the outcome is reported beside the other entries' outcomes.
pub enum ProcessError {
    /// The entry could not be read or its path could not be canonicalized.
    ModifiedEntry,
    /// The external process could not be spawned in the entry.
    ProcessSpawn { process: String, entry: String, origin: OsError },
    /// The process ran, but its captured output could not be collected.
    ProcessOutput { process: String, entry: String, origin: OsError },
    /// The process did not complete within the configured time limit,
    /// rendered here in human-readable form.
    Timeout { process: String, entry: String, duration: String },
}

/// The diagnostic text of a fatal startup error.
pub open spec fn spec_cli_diagnostic(e: CliError) -> Seq<char> {
    match e {
        CliError::Command => "vacant specified command"@,
        CliError::CurrentDirectory(origin) => "current directory is unavailable as: "@
            + origin.description@,
        CliError::SubDirectories(origin) => "subdirectories are unavailable as: "@
            + origin.description@,
        CliError::IgnoredDirectories(entry, origin) => "an ignored directory ("@ + entry@
            + ") is invalid as: "@ + origin.description@,
    }
}

/// The one-line diagnostic of a per-entry classification: it names the
/// command, the entry and the cause.
pub open spec fn spec_process_diagnostic(e: ProcessError) -> Seq<char> {
    match e {
        ProcessError::ModifiedEntry => "invalid directory entry from likely modification"@,
        ProcessError::ProcessSpawn { process, entry, origin } => "process "@ + process@ + " for "@
            + entry@ + " made unavailable as: "@ + origin.description@,
        ProcessError::ProcessOutput { process, entry, origin } => "process "@ + process@ + " for "@
            + entry@ + " has unavailable output as: "@ + origin.description@,
        ProcessError::Timeout { process, entry, duration } => "process "@ + process@ + " for "@
            + entry@ + " could not complete in "@ + duration@,
    }
}

impl CliError {
    /// Renders the fatal diagnostic that the run aborts with.
    pub fn message(&self) -> (r: String)
        ensures
            r@ == spec_cli_diagnostic(*self),
    {
        match self {
            CliError::Command => {
                String::from_str("vacant specified command")
            },
            CliError::CurrentDirectory(origin) => {
                let mut r = String::from_str("current directory is unavailable as: ");
                r.append(origin.description.as_str());
                r
            },
            CliError::SubDirectories(origin) => {
                let mut r = String::from_str("subdirectories are unavailable as: ");
                r.append(origin.description.as_str());
                r
            },
            CliError::IgnoredDirectories(entry, origin) => {
                let mut r = String::from_str("an ignored directory (");
                r.append(entry.as_str());
                r.append(") is invalid as: ");
                r.append(origin.description.as_str());
                r
            },
        }
    }
}

impl ProcessError {
    /// Renders the one-line diagnostic of this classification.
    pub fn message(&self) -> (r: String)
        ensures
            r@ == spec_process_diagnostic(*self),
    {
        match self {
            ProcessError::ModifiedEntry => {
                String::from_str("invalid directory entry from likely modification")
            },
            ProcessError::ProcessSpawn { process, entry, origin } => {
                let mut r = String::from_str("process ");
                r.append(process.as_str());
                r.append(" for ");
                r.append(entry.as_str());
                r.append(" made unavailable as: ");
                r.append(origin.description.as_str());
                r
            },
            ProcessError::ProcessOutput { process, entry, origin } => {
                let mut r = String::from_str("process ");
                r.append(process.as_str());
                r.append(" for ");
                r.append(entry.as_str());
                r.append(" has unavailable output as: ");
                r.append(origin.description.as_str());
                r
            },
            ProcessError::Timeout { process, entry, duration } => {
                let mut r = String::from_str("process ");
                r.append(process.as_str());
                r.append(" for ");
                r.append(entry.as_str());
                r.append(" could not complete in ");
                r.append(duration.as_str());
                r
            },
        }
    }
}

} // verus!
