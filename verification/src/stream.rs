//! Rendering of the streaming text mode: each consumed outcome becomes one
//! atomic chunk per output channel, so that no two entries' text can
//! interleave.
use vstd::prelude::*;
use vstd::string::{StrSliceExecFns, StringExecFns};
use vstd::utf8::encode_utf8;

use crate::errors::{spec_process_diagnostic, ProcessError};
use crate::run::{CommandOutput, RunOutcome};

verus! {

/// What one consumed outcome writes: a chunk for the primary channel and a
/// chunk for the error channel, either possibly empty. A writer holds each
/// channel for a whole chunk.
pub struct StreamChunk {
    pub out: Vec<u8>,
    pub err: Vec<u8>,
}

/// The newline written to the primary channel before every entry but the
/// first, so that consecutive successes come out blank-line separated.
pub open spec fn spec_separator(first: bool) -> Seq<u8> {
    if first {
        Seq::empty()
    } else {
        seq![10u8]
    }
}

/// The primary-channel bytes of one outcome: the separator, and for a
/// completed process the entry's path, a colon, a newline, and the
/// captured standard output exactly as it was captured.
pub open spec fn spec_chunk_out(first: bool, item: RunOutcome) -> Seq<u8> {
    match item {
        Result::Ok((entry, output)) => spec_separator(first) + encode_utf8(entry@) + seq![
            58u8,
            10u8,
        ] + output.stdout@,
        Result::Err(_) => spec_separator(first),
    }
}

/// The bytes that demarcate a warning on the error channel: a blank line,
/// the word `Warning:`, a newline.
pub open spec fn spec_warning_header() -> Seq<u8> {
    seq![10u8, 87u8, 97u8, 114u8, 110u8, 105u8, 110u8, 103u8, 58u8, 10u8]
}

/// The error-channel bytes of one outcome: a completed process's captured
/// standard error, demarcated as a warning when it is not empty; for a
/// classified failure, its one-line diagnostic.
pub open spec fn spec_chunk_err(item: RunOutcome) -> Seq<u8> {
    match item {
        Result::Ok((entry, output)) => if output.stderr@.len() == 0 {
            Seq::empty()
        } else {
            spec_warning_header() + output.stderr@
        },
        Result::Err(e) => encode_utf8(spec_process_diagnostic(e) + "\n"@),
    }
}

/// Renders one consumed outcome for the streaming text mode. `first` says
/// whether this is the run's first consumed outcome; every later one is
/// preceded by a separating newline on the primary channel.
pub fn render_entry(first: bool, item: RunOutcome) -> (c: StreamChunk)
    ensures
        c.out@ == spec_chunk_out(first, item),
        c.err@ == spec_chunk_err(item),
{
    let mut out: Vec<u8> = Vec::new();
    let mut err: Vec<u8> = Vec::new();
    if !first {
        out.push(10);
    }
    proof {
        assert(out@ =~= spec_separator(first));
    }
    match item {
        Result::Ok((entry, output)) => {
            let CommandOutput { stdout, stderr } = output;
            let ghost captured_out = stdout@;
            let ghost captured_err = stderr@;
            let mut header = entry.as_str().as_bytes_vec();
            out.append(&mut header);
            out.push(58);
            out.push(10);
            let mut body = stdout;
            out.append(&mut body);
            proof {
                assert(out@ =~= spec_separator(first) + encode_utf8(entry@) + seq![58u8, 10u8]
                    + captured_out);
            }
            if stderr.len() > 0 {
                err.push(10);
                err.push(87);
                err.push(97);
                err.push(114);
                err.push(110);
                err.push(105);
                err.push(110);
                err.push(103);
                err.push(58);
                err.push(10);
                let mut warning = stderr;
                err.append(&mut warning);
                proof {
                    assert(err@ =~= spec_warning_header() + captured_err);
                }
            }
            StreamChunk { out, err }
        },
        Result::Err(e) => {
            let mut message = e.message();
            message.append("\n");
            let mut diagnostic = message.as_str().as_bytes_vec();
            err.append(&mut diagnostic);
            StreamChunk { out, err }
        },
    }
}

} // verus!
