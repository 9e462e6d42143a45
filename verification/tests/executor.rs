use asdf_gui::asdf::executor::{
    asdf_binary_search, get_user_path, probe_command, resolve_asdf_binary, well_known_asdf_paths,
    well_known_asdf_paths_for, CommandOutput, ProbeCommand, StreamInput, StreamRelay,
};
use asdf_gui::error::AppError;
use asdf_gui::search::{settle, Answer, Probe, Search, Step};
use asdf_gui::types::InstallEvent;

fn plan_of(mut step: Step) -> (Vec<Probe>, Result<String, AppError>) {
    let mut plan = Vec::new();
    loop {
        match step {
            Step::Done(r) => return (plan, r),
            Step::Ask(search) => {
                plan.push(search.probe().clone());
                let refusal = match search.probe() {
                    Probe::Configured(_) | Probe::Candidate(_) => Answer::Exists(false),
                    _ => Answer::Failed,
                };
                step = search.answer(refusal);
            }
        }
    }
}

fn candidate(p: &str) -> Probe {
    Probe::Candidate(p.to_string())
}

fn not_found() -> AppError {
    AppError::AsdfNotFound("asdf binary not found in PATH, $ASDF_DIR, or config".to_string())
}

#[test]
fn command_output_of_success() {
    let r = CommandOutput::from_exit(Some(0), " out \n".to_string(), " warn \n".to_string());
    assert_eq!(
        r,
        Ok(CommandOutput { stdout: " out \n".to_string(), stderr: " warn \n".to_string(), exit_code: 0 })
    );
}

#[test]
fn command_output_of_failure_carries_code_and_trimmed_stderr() {
    let r = CommandOutput::from_exit(Some(2), "out".to_string(), "  no such plugin\n".to_string());
    assert_eq!(r, Err(AppError::AsdfError { exit_code: 2, stderr: "no such plugin".to_string() }));
    let r = CommandOutput::from_exit(Some(-3), String::new(), String::new());
    assert_eq!(r, Err(AppError::AsdfError { exit_code: -3, stderr: String::new() }));
}

#[test]
fn command_output_without_exit_code_fails_with_minus_one() {
    let r = CommandOutput::from_exit(None, "out".to_string(), "killed\n".to_string());
    assert_eq!(r, Err(AppError::AsdfError { exit_code: -1, stderr: "killed".to_string() }));
}

#[test]
fn command_output_from_bytes_replaces_invalid_sequences() {
    let r = CommandOutput::from_raw(Some(0), b"caf\xc3\xa9\n", b"").unwrap();
    assert_eq!(r.stdout, "caf\u{e9}\n");
    assert_eq!(r.stderr, "");
    let r = CommandOutput::from_raw(Some(0), b"a\xffb", b"\xc3").unwrap();
    assert_eq!(r.stdout, "a\u{fffd}b");
    assert_eq!(r.stderr, "\u{fffd}");
    let r = CommandOutput::from_raw(Some(1), b"", b" bad \xfe\n");
    assert_eq!(r, Err(AppError::AsdfError { exit_code: 1, stderr: "bad \u{fffd}".to_string() }));
}

#[test]
fn well_known_paths_in_order() {
    assert_eq!(
        well_known_asdf_paths_for(Some("/home/alice")),
        vec!["/home/alice/.asdf/bin/asdf", "/opt/homebrew/bin/asdf", "/usr/local/bin/asdf", "/opt/asdf-vm/bin/asdf"]
    );
    assert_eq!(
        well_known_asdf_paths_for(Some("/home/alice/")),
        vec!["/home/alice/.asdf/bin/asdf", "/opt/homebrew/bin/asdf", "/usr/local/bin/asdf", "/opt/asdf-vm/bin/asdf"]
    );
    assert_eq!(
        well_known_asdf_paths_for(None),
        vec!["/opt/homebrew/bin/asdf", "/usr/local/bin/asdf", "/opt/asdf-vm/bin/asdf"]
    );
}

#[test]
fn well_known_paths_of_this_environment() {
    let paths = well_known_asdf_paths();
    let fixed = vec!["/opt/homebrew/bin/asdf", "/usr/local/bin/asdf", "/opt/asdf-vm/bin/asdf"];
    assert!(paths.len() == 3 || paths.len() == 4);
    assert_eq!(paths[paths.len() - 3..].to_vec(), fixed);
    if paths.len() == 4 {
        assert!(paths[0].ends_with(".asdf/bin/asdf"));
    }
}

#[test]
fn plan_with_configured_path_holds_nothing_else() {
    let (plan, end) = plan_of(asdf_binary_search(Some("/x/asdf"), Some("/opt/asdf"), Some("/home/u"), true));
    assert_eq!(plan, vec![Probe::Configured("/x/asdf".to_string())]);
    assert_eq!(end, Err(AppError::AsdfNotFound("configured path does not exist".to_string())));
}

#[test]
fn plan_without_configured_path() {
    let (plan, end) = plan_of(asdf_binary_search(None, Some("/opt/asdf"), Some("/home/u"), false));
    assert_eq!(
        plan,
        vec![
            candidate("/opt/asdf/bin/asdf"),
            candidate("/home/u/.asdf/bin/asdf"),
            candidate("/opt/homebrew/bin/asdf"),
            candidate("/usr/local/bin/asdf"),
            candidate("/opt/asdf-vm/bin/asdf"),
            Probe::Which,
        ]
    );
    assert_eq!(end, Err(not_found()));
}

#[test]
fn plan_on_windows_ends_with_where() {
    let (plan, end) = plan_of(asdf_binary_search(None, None, None, true));
    assert_eq!(
        plan,
        vec![
            candidate("/opt/homebrew/bin/asdf"),
            candidate("/usr/local/bin/asdf"),
            candidate("/opt/asdf-vm/bin/asdf"),
            Probe::Which,
            Probe::Where,
        ]
    );
    assert_eq!(end, Err(not_found()));
}

#[test]
fn plan_with_empty_asdf_dir() {
    let (plan, _) = plan_of(asdf_binary_search(None, Some(""), None, false));
    assert_eq!(plan[0], candidate("bin/asdf"));
}

#[test]
fn plan_of_this_environment() {
    let (plan, end) = plan_of(resolve_asdf_binary(None, Some("/opt/asdf"), false));
    assert_eq!(plan[0], candidate("/opt/asdf/bin/asdf"));
    assert_eq!(plan[plan.len() - 1], Probe::Which);
    assert!(plan.len() == 5 || plan.len() == 6);
    assert_eq!(end, Err(not_found()));
    let (plan, _) = plan_of(resolve_asdf_binary(Some("/x"), None, true));
    assert_eq!(plan, vec![Probe::Configured("/x".to_string())]);
}

#[test]
fn where_takes_first_line_only() {
    let out = Answer::Output { success: true, stdout: " C:\\a\\asdf.exe \r\nC:\\b\\asdf.exe\r\n".to_string() };
    assert_eq!(settle(&Probe::Where, out.clone()), Some(Ok("C:\\a\\asdf.exe".to_string())));
    assert_eq!(
        settle(&Probe::Which, out),
        Some(Ok("C:\\a\\asdf.exe \r\nC:\\b\\asdf.exe".to_string()))
    );
    let blank_first = Answer::Output { success: true, stdout: "\n/x/asdf\n".to_string() };
    assert_eq!(settle(&Probe::Where, blank_first.clone()), None);
    assert_eq!(settle(&Probe::Which, blank_first), Some(Ok("/x/asdf".to_string())));
}

#[test]
fn lookups_need_success_and_output() {
    for probe in [Probe::Which, Probe::Where, Probe::LoginShell("/bin/sh".to_string())] {
        assert_eq!(settle(&probe, Answer::Output { success: false, stdout: "/x/asdf\n".to_string() }), None);
        assert_eq!(settle(&probe, Answer::Output { success: true, stdout: " \n".to_string() }), None);
        assert_eq!(settle(&probe, Answer::Output { success: true, stdout: String::new() }), None);
        assert_eq!(settle(&probe, Answer::Failed), None);
        assert_eq!(settle(&probe, Answer::Exists(true)), None);
        assert_eq!(
            settle(&probe, Answer::Output { success: true, stdout: "/x/asdf\n".to_string() }),
            Some(Ok("/x/asdf".to_string()))
        );
    }
}

#[test]
fn paths_are_settled_by_existence() {
    let c = candidate("/a");
    assert_eq!(settle(&c, Answer::Exists(true)), Some(Ok("/a".to_string())));
    assert_eq!(settle(&c, Answer::Exists(false)), None);
    assert_eq!(settle(&c, Answer::Failed), None);
    let configured = Probe::Configured("/a".to_string());
    assert_eq!(settle(&configured, Answer::Exists(true)), Some(Ok("/a".to_string())));
    let missing = Some(Err(AppError::AsdfNotFound("configured path does not exist".to_string())));
    assert_eq!(settle(&configured, Answer::Exists(false)), missing);
    assert_eq!(settle(&configured, Answer::Failed), missing);
}

#[test]
fn search_over_empty_plan_is_done() {
    match Search::begin(Vec::new(), Ok("x".to_string())) {
        Step::Done(r) => assert_eq!(r, Ok("x".to_string())),
        Step::Ask(_) => panic!("nothing to ask"),
    }
}

#[test]
fn search_stops_at_first_hit() {
    let plan = vec![candidate("/a"), candidate("/b"), candidate("/c")];
    let mut asked = Vec::new();
    let mut step = Search::begin(plan, Err(not_found()));
    let result = loop {
        match step {
            Step::Done(r) => break r,
            Step::Ask(search) => {
                let p = match search.probe() {
                    Probe::Candidate(p) => p.clone(),
                    _ => panic!("candidates only"),
                };
                let answer = Answer::Exists(p == "/b");
                asked.push(p);
                step = search.answer(answer);
            }
        }
    };
    assert_eq!(result, Ok("/b".to_string()));
    assert_eq!(asked, vec!["/a", "/b"]);
}

#[test]
fn login_path_plan_and_fallback() {
    let shells = |step: Step| {
        let (plan, end) = plan_of(step);
        let names: Vec<String> = plan
            .into_iter()
            .map(|p| match p {
                Probe::LoginShell(s) => s,
                _ => panic!("shells only"),
            })
            .collect();
        (names, end)
    };
    assert_eq!(
        shells(get_user_path(Some("/usr/bin/fish"), Some("/usr/bin:/bin"))),
        (
            vec!["/usr/bin/fish".to_string(), "/bin/zsh".to_string(), "/bin/bash".to_string()],
            Ok("/usr/bin:/bin".to_string())
        )
    );
    assert_eq!(
        shells(get_user_path(Some(""), None)),
        (vec!["/bin/zsh".to_string(), "/bin/bash".to_string()], Ok(String::new()))
    );
    assert_eq!(
        shells(get_user_path(None, Some("/bin"))),
        (vec!["/bin/zsh".to_string(), "/bin/bash".to_string()], Ok("/bin".to_string()))
    );
}

#[test]
fn login_path_is_first_shell_output() {
    let mut step = get_user_path(Some("/usr/bin/fish"), Some("/bin"));
    let mut asked = 0;
    let result = loop {
        match step {
            Step::Done(r) => break r,
            Step::Ask(search) => {
                asked += 1;
                let answer = if asked == 1 {
                    Answer::Output { success: true, stdout: "\n".to_string() }
                } else {
                    Answer::Output { success: true, stdout: "/opt/bin:/usr/bin\n".to_string() }
                };
                step = search.answer(answer);
            }
        }
    };
    assert_eq!(result, Ok("/opt/bin:/usr/bin".to_string()));
    assert_eq!(asked, 2);
}

#[test]
fn probe_commands() {
    assert_eq!(
        probe_command(&Probe::Which),
        Some(ProbeCommand { program: "which".to_string(), args: vec!["asdf".to_string()], login_path: true })
    );
    assert_eq!(
        probe_command(&Probe::Where),
        Some(ProbeCommand { program: "where".to_string(), args: vec!["asdf".to_string()], login_path: false })
    );
    assert_eq!(
        probe_command(&Probe::LoginShell("/bin/zsh".to_string())),
        Some(ProbeCommand {
            program: "/bin/zsh".to_string(),
            args: vec!["-lc".to_string(), "echo $PATH".to_string()],
            login_path: false
        })
    );
    assert_eq!(probe_command(&candidate("/a")), None);
    assert_eq!(probe_command(&Probe::Configured("/a".to_string())), None);
}

#[test]
fn relay_passes_lines_on() {
    let mut relay = StreamRelay::new();
    assert!(!relay.is_finished());
    let step = relay.feed(StreamInput::Stdout("one".to_string()));
    assert_eq!(step.event, Some(InstallEvent::Stdout("one".to_string())));
    assert_eq!(step.outcome, None);
    let step = relay.feed(StreamInput::Stderr("two".to_string()));
    assert_eq!(step.event, Some(InstallEvent::Stderr("two".to_string())));
    assert_eq!(step.outcome, None);
    assert!(!relay.is_finished());
}

#[test]
fn relay_of_failed_wait_sends_nothing() {
    let mut relay = StreamRelay::new();
    let step = relay.feed(StreamInput::WaitFailed("no child".to_string()));
    assert_eq!(step.event, None);
    assert_eq!(step.outcome, Some(Err(AppError::ProcessError("no child".to_string()))));
    assert!(relay.is_finished());
    let step = relay.feed(StreamInput::Exited { success: true, exit_code: Some(0) });
    assert_eq!(step.event, None);
    assert_eq!(step.outcome, None);
}

#[test]
fn relay_of_exit_without_lines() {
    let mut relay = StreamRelay::new();
    let step = relay.feed(StreamInput::Exited { success: true, exit_code: Some(0) });
    assert_eq!(step.event, Some(InstallEvent::Finished { success: true }));
    assert_eq!(step.outcome, Some(Ok(())));
    let step = relay.feed(StreamInput::Stderr("late".to_string()));
    assert_eq!(step.event, None);
    assert_eq!(step.outcome, None);
}
