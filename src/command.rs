use crate::error::KissDockerError;
use crate::text::{trim, trimmed};
use vstd::prelude::*;
use vstd::utf8::{decode_utf8, valid_utf8};

verus! {

/// What a finished run of the tool left behind: its exit code, absent when a
/// signal ended it, and the bytes it wrote to standard output and standard error.
#[derive(Debug)]
pub struct CommandOutput {
    pub code: Option<i32>,
    pub stdout: Vec<u8>,
    pub stderr: Vec<u8>,
}

/// The text that `String::from_utf8_lossy` makes of the bytes `b`.
pub uninterp spec fn lossy_utf8(b: Seq<u8>) -> Seq<char>;

/// Relies on `String::from_utf8_lossy`: the text of `b`, where each invalid
/// sequence is replaced by U+FFFD; bytes that are valid UTF-8 are decoded as they are.
#[verifier::external_body]
fn text_of(b: &Vec<u8>) -> (r: String)
    ensures
        r@ == lossy_utf8(b@),
        valid_utf8(b@) ==> r@ == decode_utf8(b@),
{
    String::from_utf8_lossy(b.as_slice()).into_owned()
}

/// How a run of the tool ends, given how the attempt to start it went.
pub open spec fn outcome_spec(
    spawned: Result<CommandOutput, std::io::Error>,
    r: Result<String, KissDockerError>,
) -> bool {
    match spawned {
        Err(e) => r == Err::<String, KissDockerError>(KissDockerError::Io(e)),
        Ok(out) => match out.code {
            None => r matches Err(KissDockerError::CommandTerminatedUnexpectedly),
            Some(0) => r matches Ok(text) && text@ == lossy_utf8(out.stdout@),
            Some(_) => r matches Err(KissDockerError::DockerCommandFailed { failure })
                && failure@ == lossy_utf8(out.stderr@),
        },
    }
}

/// Classifies a run of the tool: a failure to start it, an end by a signal, a
/// non-zero exit code with the tool's own diagnostic, or on exit code zero the
/// text of its standard output.
pub fn docker_outcome(spawned: Result<CommandOutput, std::io::Error>) -> (r: Result<
    String,
    KissDockerError,
>)
    ensures
        outcome_spec(spawned, r),
{
    match spawned {
        Err(e) => Err(KissDockerError::Io(e)),
        Ok(out) => match out.code {
            None => Err(KissDockerError::CommandTerminatedUnexpectedly),
            Some(c) => {
                if c != 0 {
                    Err(KissDockerError::DockerCommandFailed { failure: text_of(&out.stderr) })
                } else {
                    Ok(text_of(&out.stdout))
                }
            },
        },
    }
}

/// The identifier that a run printed: its output without the white space around
/// it; a failed run stays as it failed.
pub fn printed_id(outcome: Result<String, KissDockerError>) -> (r: Result<String, KissDockerError>)
    ensures
        match outcome {
            Ok(out) => r matches Ok(id) && id@ == trimmed(out@),
            Err(e) => r == Err::<String, KissDockerError>(e),
        },
{
    match outcome {
        Ok(out) => Ok(trim(out.as_str())),
        Err(e) => Err(e),
    }
}

} // verus!
