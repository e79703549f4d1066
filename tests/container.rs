use kiss_docker::command::printed_id;
use kiss_docker::container::{
    list_all_args, list_running_args, rm_args, stop_args, Container, Step, StopAndRemove,
};
use kiss_docker::error::KissDockerError;
use kiss_docker::key_values::KeyValues;

fn strs(v: &[&str]) -> Vec<String> {
    v.iter().map(|s| s.to_string()).collect()
}

fn pairs(v: &[(&str, &str)]) -> KeyValues {
    KeyValues::from_pairs(v.iter().map(|(k, x)| (k.to_string(), x.to_string())).collect())
}

/// Drives stop-and-remove against a fake runtime that answers with `answers`
/// in turn, and gives back the commands issued and the final result.
fn drive(
    id: &str,
    answers: Vec<Result<String, KissDockerError>>,
) -> (Vec<Vec<String>>, Result<(), KissDockerError>) {
    let mut issued = Vec::new();
    let mut answers = answers.into_iter();
    let (mut phase, mut step) = StopAndRemove::begin(id);
    loop {
        match step {
            Step::Run(args) => {
                issued.push(args);
                let answer = answers.next().expect("the fake runtime ran out of answers");
                let (p, s) = phase.advance(id, answer);
                phase = p;
                step = s;
            }
            Step::Done(r) => return (issued, r),
        }
    }
}

#[test]
fn container_test_make_default() {
    let _ctn = Container {
        ..Default::default()
    };
}

#[test]
fn default_container_args() {
    let ctn = Container {
        ..Default::default()
    };
    assert_eq!(ctn.start_args(), strs(&["run", "-d", "--rm", ""]));
    assert_eq!(ctn.get_image(), "");
    assert!(ctn.get_env().is_empty());
    assert!(ctn.get_runtime_flags().is_empty());
}

#[test]
fn test_run_and_kill() {
    let ctn = Container {
        repo: "alpine",
        ..Default::default()
    };
    assert_eq!(ctn.start_args(), strs(&["run", "-d", "--rm", "alpine"]));
    let ctn_id = printed_id(Ok("4f1c2a9e77b0\n".to_string())).unwrap();
    assert_eq!(ctn_id, "4f1c2a9e77b0");
    assert_eq!(stop_args(&ctn_id), strs(&["stop", "4f1c2a9e77b0"]));
}

#[test]
fn test_run_blocking() {
    let text = "test_text_print";
    let ctn = Container {
        repo: "alpine",
        ops: &["echo", text],
        blocking: true,
        ..Default::default()
    };
    assert_eq!(ctn.start_args(), strs(&["run", "--rm", "alpine", "echo", "test_text_print"]));
    let output = printed_id(Ok(format!("{}\n", text))).unwrap();
    assert_eq!(text, output)
}

#[test]
fn test_bogus_container() {
    let ctn = Container {
        repo: "complete_bogus_foobar",
        ..Default::default()
    };
    assert_eq!(ctn.start_args(), strs(&["run", "-d", "--rm", "complete_bogus_foobar"]));
    let result = printed_id(Err(KissDockerError::DockerCommandFailed {
        failure: "Unable to find image 'complete_bogus_foobar:latest' locally".to_string(),
    }));
    assert!(matches!(result, Err(_)));
}

#[test]
fn test_limit_cpu() {
    let ctn = Container {
        repo: "alpine",
        flags: pairs(&[("--cpus", "2.0")]),
        norm: true,
        ..Default::default()
    };
    assert_eq!(ctn.start_args(), strs(&["run", "-d", "--cpus", "2.0", "alpine"]));
}

#[test]
fn start_args_follow_the_fixed_order() {
    let ctn = Container {
        repo: "nginx",
        tag: "1.25",
        volumes: &["/data:/data", "/logs:/logs"],
        env: pairs(&[("A", "1"), ("B", "two")]),
        port_expose: 8080,
        port_internal: 80,
        blocking: false,
        norm: false,
        flags: pairs(&[("--memory", "512m")]),
        ops: &["nginx", "-g", "daemon off;"],
        network: Some("web"),
        name: Some("front"),
    };
    assert_eq!(
        ctn.start_args(),
        strs(&[
            "run", "-d", "--rm", "-p", "8080:80", "-v", "/data:/data", "-v", "/logs:/logs", "-e",
            "A=1", "-e", "B=two", "--network", "web", "--name", "front", "--memory", "512m",
            "nginx:1.25", "nginx", "-g", "daemon off;",
        ])
    );
}

#[test]
fn no_port_flag_with_both_ports_zero() {
    let ctn = Container {
        repo: "alpine",
        ..Default::default()
    };
    assert!(!ctn.start_args().iter().any(|a| a == "-p"));
}

#[test]
fn no_port_flag_with_one_port_zero() {
    let ctn = Container {
        repo: "alpine",
        port_expose: 8080,
        ..Default::default()
    };
    assert!(!ctn.start_args().iter().any(|a| a == "-p"));
}

#[test]
fn one_port_flag_with_both_ports_set() {
    let ctn = Container {
        repo: "alpine",
        port_expose: 65535,
        port_internal: 7,
        ..Default::default()
    };
    let args = ctn.start_args();
    let at: Vec<usize> = (0..args.len()).filter(|&i| args[i] == "-p").collect();
    assert_eq!(at.len(), 1);
    assert_eq!(args[at[0] + 1], "65535:7");
}

#[test]
fn image_reference_without_tag() {
    let ctn = Container {
        repo: "alpine",
        tag: "",
        ..Default::default()
    };
    assert_eq!(ctn.get_image(), "alpine");
}

#[test]
fn image_reference_with_tag() {
    let ctn = Container {
        repo: "alpine",
        tag: "3.18",
        ..Default::default()
    };
    assert_eq!(ctn.get_image(), "alpine:3.18");
}

#[test]
fn env_pairs_in_insertion_order() {
    let ctn = Container {
        env: pairs(&[("HOME", "/root"), ("EMPTY", ""), ("HOME", "/home/u")]),
        ..Default::default()
    };
    assert_eq!(ctn.get_env(), strs(&["-e", "HOME=/home/u", "-e", "EMPTY="]));
}

#[test]
fn runtime_flags_key_then_value() {
    let ctn = Container {
        flags: pairs(&[("--cpus", "2.0"), ("-m", "1g")]),
        ..Default::default()
    };
    assert_eq!(ctn.get_runtime_flags(), strs(&["--cpus", "2.0", "-m", "1g"]));
}

#[test]
fn listing_arguments() {
    assert_eq!(
        list_running_args(),
        strs(&["ps", "-a", "-f", "status=running", "--format", "{{json .}}"])
    );
    assert_eq!(list_all_args(), strs(&["ps", "-a", "--format", "{{json .}}"]));
    assert_eq!(rm_args("abc"), strs(&["rm", "abc"]));
}

#[test]
fn failed_stop_never_removes() {
    let failed = KissDockerError::DockerCommandFailed {
        failure: "Error response from daemon: No such container: gone".to_string(),
    };
    let (issued, result) = drive("gone", vec![Err(failed), Ok(String::new())]);
    assert_eq!(issued, vec![strs(&["stop", "gone"])]);
    assert!(matches!(
        result,
        Err(KissDockerError::DockerCommandFailed { failure }) if failure.contains("No such container")
    ));
}

#[test]
fn stop_then_remove() {
    let (issued, result) = drive("abc", vec![Ok("abc\n".to_string()), Ok("abc\n".to_string())]);
    assert_eq!(issued, vec![strs(&["stop", "abc"]), strs(&["rm", "abc"])]);
    assert!(result.is_ok());
}

#[test]
fn failed_remove_is_reported() {
    let (issued, result) = drive(
        "abc",
        vec![Ok("abc\n".to_string()), Err(KissDockerError::CommandTerminatedUnexpectedly)],
    );
    assert_eq!(issued.len(), 2);
    assert!(matches!(result, Err(KissDockerError::CommandTerminatedUnexpectedly)));
}

#[test]
fn test_list_running() {
    assert_eq!(
        list_running_args(),
        strs(&["ps", "-a", "-f", "status=running", "--format", "{{json .}}"])
    );
    let raw = "{\"ID\":\"a1\",\"Image\":\"alpine\"}\n{\"ID\":\"b2\",\"Image\":\"nginx\"}\n";
    let lines = kiss_docker::text::select_lines(raw, None);
    assert_eq!(lines.len(), 2);
    let alpine = kiss_docker::text::select_lines(raw, Some("alpine"));
    assert_eq!(alpine, vec!["{\"ID\":\"a1\",\"Image\":\"alpine\"}".to_string()]);
}
