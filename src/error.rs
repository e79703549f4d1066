use vstd::prelude::*;

verus! {

/// Declares `std::io::Error`, opaque: a failure to start the tool is carried as it came.
#[verifier::external_type_specification]
#[verifier::external_body]
pub struct ExIoError(std::io::Error);

/// Declares `serde_json::Error`, opaque: a failure to decode a record line is carried as it came.
#[verifier::external_type_specification]
#[verifier::external_body]
pub struct ExJsonError(serde_json::Error);

/// What can go wrong when the container runtime's command-line tool is run.
#[derive(Debug)]
pub enum KissDockerError {
    /// The tool could not be started.
    Io(std::io::Error),
    /// A line of the tool's output is not a valid record.
    SerdeError(serde_json::Error),
    /// The tool was ended by a signal and gave no exit code.
    CommandTerminatedUnexpectedly,
    /// The tool ran and reported a failure, with what it wrote to standard error.
    DockerCommandFailed { failure: String },
}

} // verus!
