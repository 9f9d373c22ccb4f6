//! Classification of what became of one spawned process: exactly one
//! outcome per invocation.
use vstd::prelude::*;

use crate::config::{CliParsed, TimeLimit};
use crate::errors::{OsError, ProcessError};

verus! {

/// What one completed process left behind: its captured output streams.
/// The exit status is not part of the outcome: a non-zero exit is not a
/// failure.
pub struct CommandOutput {
    pub stdout: Vec<u8>,
    pub stderr: Vec<u8>,
}

/// What the host reported back about one invocation, once: it could not be
/// spawned, it outran the configured time limit, it finished but its output
/// could not be collected, or it finished with its output in hand.
pub enum RunEvent {
    SpawnFailed(OsError),
    TimedOut,
    OutputFailed(OsError),
    Completed(CommandOutput),
}

/// One entry's final outcome: the entry's path with the captured output,
/// or its failure classification.
pub type RunOutcome = Result<(String, CommandOutput), ProcessError>;

/// The text that the configured time limit is reported as.
/// Relies on humantime::format_duration, whose rendering depends on the
/// duration alone.
pub uninterp spec fn human_duration(secs: u64, nanos: u32) -> Seq<char>;

/// Renders a time limit in human-readable form.
/// Relies on humantime::format_duration: a pure rendering of the duration,
/// named by `human_duration`.
#[verifier::external_body]
fn format_time_limit(limit: &TimeLimit) -> (r: String)
    requires
        limit.wf(),
    ensures
        r@ == human_duration(limit.secs, limit.nanos),
{
    humantime::format_duration(std::time::Duration::new(limit.secs, limit.nanos)).to_string()
}

impl CliParsed {
    /// Classifies what the host reported about one invocation. A spawn
    /// failure, a timeout and an output failure each yield their error,
    /// carrying the command, the entry and the cause; a completed process
    /// yields the entry with its captured output, whatever its exit
    /// status. A timeout is classified with the configured limit rendered
    /// in human-readable form, and never as a success.
    pub fn classify_run(&self, entry: String, event: RunEvent) -> (r: RunOutcome)
        requires
            self.wf(),
            event is TimedOut ==> self.timeout is Some,
        ensures
            event matches RunEvent::SpawnFailed(origin) ==> (r matches Err(e)
                && e matches ProcessError::ProcessSpawn { process, entry: en, origin: o }
                && process@ == self.command.0@ && en == entry && o == origin),
            event is TimedOut ==> (r matches Err(e) && e matches ProcessError::Timeout {
                process,
                entry: en,
                duration,
            } && process@ == self.command.0@ && en == entry && duration@ == human_duration(
                self.timeout->Some_0.secs,
                self.timeout->Some_0.nanos,
            )),
            event matches RunEvent::OutputFailed(origin) ==> (r matches Err(e)
                && e matches ProcessError::ProcessOutput { process, entry: en, origin: o }
                && process@ == self.command.0@ && en == entry && o == origin),
            event matches RunEvent::Completed(output) ==> r == Ok::<
                (String, CommandOutput),
                ProcessError,
            >((entry, output)),
            r is Ok <==> event is Completed,
            r matches Err(e) ==> !(e is ModifiedEntry),
    {
        match event {
            RunEvent::SpawnFailed(origin) => Err(ProcessError::ProcessSpawn {
                process: self.command.0.clone(),
                entry,
                origin,
            }),
            RunEvent::TimedOut => {
                let duration = match &self.timeout {
                    Option::Some(limit) => format_time_limit(limit),
                    Option::None => String::new(),
                };
                Err(ProcessError::Timeout { process: self.command.0.clone(), entry, duration })
            },
            RunEvent::OutputFailed(origin) => Err(ProcessError::ProcessOutput {
                process: self.command.0.clone(),
                entry,
                origin,
            }),
            RunEvent::Completed(output) => Ok((entry, output)),
        }
    }
}

} // verus!
