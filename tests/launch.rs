use rc::docker::{quote_word, decimal_string, docker_arguments, docker_command_line, docker_outcome, host_identity, join_with_spaces};
use rc::executor::dispatch;
use rc::{diagnostic, exit_code, finish_run, plan_run};
use rc::{App, ContainerEngine, HostIdentity, Image, LaunchStatus, RunError, RunRequest};

fn strings(words: &[&str]) -> Vec<String> {
    words.iter().map(|w| w.to_string()).collect()
}

fn request(app: App, args: &[&str], working_dir: &str) -> RunRequest {
    RunRequest { image: Image::new(&app), args: strings(args), working_dir: working_dir.to_string() }
}

#[test]
fn resolve_is_deterministic_and_non_empty() {
    for app in [App::Score, App::Rosetta] {
        let first = Image::new(&app);
        let second = Image::new(&app);
        assert!(!first.as_str().is_empty());
        assert_eq!(first.as_str(), second.as_str());
    }
}

#[test]
fn both_applications_share_the_rosetta_image() {
    assert_eq!(Image::new(&App::Score).as_str(), "rosettacommons/rosetta:serial");
    assert_eq!(Image::new(&App::Rosetta).as_str(), "rosettacommons/rosetta:serial");
}

#[test]
fn applications_by_name() {
    assert_eq!(App::from_name("score"), Some(App::Score));
    assert_eq!(App::from_name("rosetta"), Some(App::Rosetta));
    assert_eq!(App::from_name("Rosetta"), None);
    assert_eq!(App::from_name(""), None);
    assert_eq!(App::Rosetta.name(), "rosetta");
    assert_eq!(App::Score.name(), "score");
}

#[test]
fn engines_by_name() {
    assert_eq!(ContainerEngine::from_name("docker"), Some(ContainerEngine::Docker));
    assert_eq!(ContainerEngine::from_name("singularity"), Some(ContainerEngine::Singularity));
    assert_eq!(ContainerEngine::from_name("apptainer"), Some(ContainerEngine::Apptainer));
    assert_eq!(ContainerEngine::from_name("podman"), None);
    assert_eq!(ContainerEngine::Apptainer.name(), "apptainer");
}

#[test]
fn decimal_rendering() {
    assert_eq!(decimal_string(0), "0");
    assert_eq!(decimal_string(7), "7");
    assert_eq!(decimal_string(10), "10");
    assert_eq!(decimal_string(1000), "1000");
    assert_eq!(decimal_string(u32::MAX), "4294967295");
}

#[test]
fn joining_words() {
    assert_eq!(join_with_spaces(&Vec::new()), "");
    assert_eq!(join_with_spaces(&strings(&["one"])), "one");
    assert_eq!(join_with_spaces(&strings(&["a", "b", "c"])), "a b c");
}

#[test]
fn invocation_layout_with_identity() {
    let req = request(App::Rosetta, &["score", "-in:file:s", "1abc.pdb"], "/data/run");
    let argv = docker_arguments(&req, Some(HostIdentity { uid: 1000, gid: 100 }));
    assert_eq!(
        argv,
        strings(&[
            "docker",
            "run",
            "--volume",
            "/data/run:/w",
            "--workdir",
            "/w",
            "--user",
            "1000:100",
            "rosettacommons/rosetta:serial",
            "score",
            "-in:file:s",
            "1abc.pdb",
        ])
    );
}

#[test]
fn invocation_layout_without_identity() {
    let req = request(App::Score, &["--flag", "-x", "--flag"], "/w0");
    assert_eq!(
        docker_command_line(&req, None),
        "docker run --volume /w0:/w --workdir /w rosettacommons/rosetta:serial --flag -x --flag"
    );
}

#[test]
fn invocation_without_arguments_ends_with_the_image() {
    let req = request(App::Score, &[], "/tmp/x");
    assert_eq!(
        docker_command_line(&req, Some(HostIdentity { uid: 0, gid: 0 })),
        "docker run --volume /tmp/x:/w --workdir /w --user 0:0 rosettacommons/rosetta:serial"
    );
}

#[test]
fn zero_exit_is_success() {
    let outcome = docker_outcome(LaunchStatus::Exited(0));
    assert!(outcome.is_ok());
    assert!(diagnostic(&outcome).is_none());
    assert_eq!(exit_code(&outcome), 0);
}

#[test]
fn non_zero_exit_is_failure() {
    for code in [1, 2, 127, -1] {
        let outcome = docker_outcome(LaunchStatus::Exited(code));
        assert!(matches!(outcome, Err(RunError::NonZeroExit(Some(c))) if c == code));
        assert_eq!(diagnostic(&outcome).unwrap(), "Docker container exited with non-zero status");
        assert_ne!(exit_code(&outcome), 0);
    }
}

#[test]
fn terminated_child_is_failure() {
    let outcome = finish_run(LaunchStatus::Terminated);
    assert!(matches!(outcome, Err(RunError::NonZeroExit(None))));
    assert!(diagnostic(&outcome).unwrap().contains("exited with non-zero status"));
    assert_eq!(exit_code(&outcome), 1);
}

#[test]
fn start_failure_keeps_the_system_message() {
    let outcome = finish_run(LaunchStatus::FailedToStart("No such file or directory".to_string()));
    assert!(matches!(&outcome, Err(RunError::ProcessStart(m)) if m == "No such file or directory"));
    assert_eq!(
        diagnostic(&outcome).unwrap(),
        "Could not start the container process: No such file or directory"
    );
    assert_eq!(exit_code(&outcome), 1);
}

#[test]
fn unsupported_engines_launch_nothing() {
    for engine in [ContainerEngine::Singularity, ContainerEngine::Apptainer] {
        let planned = plan_run(&App::Rosetta, strings(&["score"]), engine, "/tmp/work".to_string(), None);
        assert!(matches!(planned, Err(RunError::UnsupportedEngine(e)) if e == engine));
        let outcome: Result<(), RunError> = planned.map(|_| ());
        assert_ne!(exit_code(&outcome), 0);
    }
    let err = RunError::UnsupportedEngine(ContainerEngine::Singularity);
    assert_eq!(err.message(), "Unimplemented container type: singularity");
}

#[test]
fn dispatch_hands_docker_requests_to_the_docker_adapter() {
    let req = request(App::Score, &["a"], "/d");
    let line = dispatch(ContainerEngine::Docker, &req, None).ok().unwrap();
    assert_eq!(line, docker_command_line(&req, None));
    assert!(dispatch(ContainerEngine::Apptainer, &req, None).is_err());
}

#[test]
fn rosetta_score_end_to_end() {
    let identity = Some(HostIdentity { uid: 1000, gid: 1000 });
    let line = plan_run(
        &App::Rosetta,
        strings(&["score", "-in:file:s", "1abc.pdb"]),
        ContainerEngine::Docker,
        "/tmp/work".to_string(),
        identity,
    )
    .ok()
    .unwrap();
    assert_eq!(
        line,
        "docker run --volume /tmp/work:/w --workdir /w --user 1000:1000 rosettacommons/rosetta:serial score -in:file:s 1abc.pdb"
    );
    let order = ["run", "--volume /tmp/work:/w", "--workdir /w", "--user 1000:1000", "rosettacommons/rosetta:serial", "score", "-in:file:s", "1abc.pdb"];
    let mut from = 0;
    for part in order {
        let at = line[from..].find(part).unwrap();
        from += at + part.len();
    }
    let outcome = finish_run(LaunchStatus::Exited(0));
    assert!(outcome.is_ok());
    assert_eq!(exit_code(&outcome), 0);
}

#[test]
fn failing_container_end_to_end() {
    let line = plan_run(&App::Score, strings(&["score"]), ContainerEngine::Docker, "/tmp/work".to_string(), None);
    assert!(line.is_ok());
    let outcome = finish_run(LaunchStatus::Exited(1));
    assert!(matches!(outcome, Err(RunError::NonZeroExit(Some(1)))));
    assert!(diagnostic(&outcome).unwrap().contains("Docker container exited with non-zero status"));
    assert_ne!(exit_code(&outcome), 0);
}

#[test]
fn host_identity_is_the_process_identity() {
    assert!(host_identity(false).is_none());
    let id = host_identity(true).unwrap();
    assert_eq!(id.uid, users::get_current_uid());
    assert_eq!(id.gid, users::get_current_gid());
}

#[test]
fn quoting_words_for_the_shell() {
    assert_eq!(quote_word(&"-in:file:s".to_string()), "-in:file:s");
    assert_eq!(quote_word(&"a b".to_string()), "'a b'");
    assert_eq!(quote_word(&"".to_string()), "''");
    assert_eq!(quote_word(&"$HOME".to_string()), "'$HOME'");
    assert_eq!(quote_word(&"it's".to_string()), "'it'\\''s'");
    assert_eq!(quote_word(&"x;rm".to_string()), "'x;rm'");
}

#[test]
fn arguments_with_blanks_quotes_and_dollars_stay_whole() {
    let req = request(App::Score, &["a b", "it's", "$HOME", ""], "/tmp/my work");
    assert_eq!(
        docker_command_line(&req, None),
        "docker run --volume '/tmp/my work:/w' --workdir /w rosettacommons/rosetta:serial 'a b' 'it'\\''s' '$HOME' ''"
    );
    let split = request(App::Score, &["a", "b"], "/tmp/work");
    let joined = request(App::Score, &["a b"], "/tmp/work");
    assert_ne!(docker_command_line(&split, None), docker_command_line(&joined, None));
}
