use kiss_docker::command::{docker_outcome, printed_id, CommandOutput};
use kiss_docker::error::KissDockerError;
use kiss_docker::models::RunningContainer;
use kiss_docker::records::collect_records;

fn output(code: Option<i32>, stdout: &[u8], stderr: &[u8]) -> CommandOutput {
    CommandOutput { code, stdout: stdout.to_vec(), stderr: stderr.to_vec() }
}

fn bad_json() -> serde_json::Error {
    serde_json::from_str::<serde_json::Value>("{\"ID\": ").unwrap_err()
}

fn running(id: &str) -> RunningContainer {
    RunningContainer {
        id: id.to_string(),
        image: "alpine".to_string(),
        names: "n".to_string(),
        state: "running".to_string(),
    }
}

#[test]
fn test_failed_command() {
    let r = docker_outcome(Ok(output(
        Some(1),
        b"",
        b"docker: 'this' is not a docker command.\nSee 'docker --help'\n",
    )));
    assert!(matches!(r, Err(KissDockerError::DockerCommandFailed { failure: _ })));
}

#[test]
fn failure_keeps_stderr_verbatim() {
    let r = docker_outcome(Ok(output(Some(125), b"ignored", b"  Error: no such image\n")));
    match r {
        Err(KissDockerError::DockerCommandFailed { failure }) => {
            assert_eq!(failure, "  Error: no such image\n")
        }
        _ => panic!("expected a command failure"),
    }
}

#[test]
fn success_returns_stdout_verbatim() {
    let r = docker_outcome(Ok(output(Some(0), b" abc \n", b"warning\n"))).unwrap();
    assert_eq!(r, " abc \n");
}

#[test]
fn invalid_bytes_are_replaced() {
    let r = docker_outcome(Ok(output(Some(0), b"ok\xff\xfe!", b""))).unwrap();
    assert_eq!(r, "ok\u{FFFD}\u{FFFD}!");
    match docker_outcome(Ok(output(Some(2), b"", b"bad \xc3("))) {
        Err(KissDockerError::DockerCommandFailed { failure }) => assert_eq!(failure, "bad \u{FFFD}("),
        _ => panic!("expected a command failure"),
    }
}

#[test]
fn signal_end_is_terminated_unexpectedly() {
    let r = docker_outcome(Ok(output(None, b"partial", b"")));
    assert!(matches!(r, Err(KissDockerError::CommandTerminatedUnexpectedly)));
}

#[test]
fn launch_failure_is_io() {
    let e = std::io::Error::new(std::io::ErrorKind::NotFound, "docker not found");
    let r = docker_outcome(Err(e));
    match r {
        Err(KissDockerError::Io(e)) => assert_eq!(e.kind(), std::io::ErrorKind::NotFound),
        _ => panic!("expected an I/O failure"),
    }
}

#[test]
fn printed_id_is_trimmed() {
    assert_eq!(printed_id(Ok("\t 0123abcd \r\n".to_string())).unwrap(), "0123abcd");
    assert_eq!(printed_id(Ok("\u{3000}id\u{00A0}".to_string())).unwrap(), "id");
    assert_eq!(printed_id(Ok(" \n ".to_string())).unwrap(), "");
    assert_eq!(printed_id(Ok("a b".to_string())).unwrap(), "a b");
}

#[test]
fn records_all_decoded() {
    let r = collect_records(vec![Ok(running("a")), Ok(running("b"))]).unwrap();
    assert_eq!(r, vec![running("a"), running("b")]);
    let none: Vec<Result<RunningContainer, serde_json::Error>> = Vec::new();
    assert!(collect_records(none).unwrap().is_empty());
}

#[test]
fn malformed_line_fails_the_whole_listing() {
    let r = collect_records(vec![Ok(running("a")), Err(bad_json()), Ok(running("c"))]);
    assert!(matches!(r, Err(KissDockerError::SerdeError(_))));
}

#[test]
fn first_malformed_line_is_reported() {
    let second = serde_json::from_str::<serde_json::Value>("[1, 2").unwrap_err();
    let first_text = bad_json().to_string();
    let r = collect_records::<RunningContainer>(vec![Err(bad_json()), Err(second)]);
    match r {
        Err(KissDockerError::SerdeError(e)) => assert_eq!(e.to_string(), first_text),
        _ => panic!("expected a decoding failure"),
    }
}
