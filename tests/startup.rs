use scout_audit::startup::{
    capture_mode, capture_noop, check_args, dispatch_step, get_template_path, output_file,
    report_target, CaptureMode, ConfigError, DispatchAction, DispatchEvent, OutputFormat,
    ReportTarget, Scout, ToolchainState,
};
use scout_audit::telemetry::{relay_body, relay_plan, RelayPlan};

fn scout() -> Scout {
    Scout {
        manifest_path: None,
        exclude: None,
        filter: None,
        profile: None,
        list_detectors: false,
        args: vec![],
        output_format: None,
        output_path: None,
        local_detectors: None,
        force_fallback: false,
        verbose: false,
        toolchain: false,
        detectors_metadata: false,
    }
}

#[test]
fn filter_and_exclude_conflict() {
    let mut s = scout();
    s.filter = Some("a".to_string());
    s.exclude = Some("b".to_string());
    assert_eq!(s.validate(false), Err(ConfigError::FilterWithExclude));
    assert_eq!(
        ConfigError::FilterWithExclude.message(),
        "The flags `--filter` and `--exclude` can't be used together"
    );
}

#[test]
fn filter_and_profile_conflict() {
    let mut s = scout();
    s.filter = Some("a".to_string());
    s.profile = Some("p".to_string());
    assert_eq!(s.validate(false), Err(ConfigError::FilterWithProfile));
}

#[test]
fn output_directory_rejected() {
    let mut s = scout();
    s.output_path = Some("/tmp".to_string());
    assert_eq!(s.validate(true), Err(ConfigError::OutputPathIsDirectory));
    assert_eq!(s.validate(false), Ok(()));
    assert_eq!(scout().validate(true), Ok(()));
}

#[test]
fn default_target_args_added() {
    let mut s = scout();
    s.args = vec!["--release".to_string()];
    s.prepare_args();
    assert_eq!(
        s.args,
        vec![
            "--release",
            "--target=wasm32-unknown-unknown",
            "--no-default-features",
            "-Zbuild-std=std,core,alloc"
        ]
    );
}

#[test]
fn explicit_target_kept() {
    let mut s = scout();
    s.args = vec!["--target=x86_64".to_string()];
    s.prepare_args();
    assert_eq!(s.args, vec!["--target=x86_64"]);
}

#[test]
fn check_args_request_json() {
    let mut s = scout();
    s.args = vec!["-q".to_string()];
    assert_eq!(check_args(&s), vec!["-q", "--message-format=json"]);
}

#[test]
fn capture_mode_and_report_target() {
    let json = vec!["--message-format=json".to_string()];
    assert_eq!(capture_mode(&json), CaptureMode::PassThrough);
    assert_eq!(capture_mode(&vec![]), CaptureMode::Intercepted);
    assert_eq!(report_target(None, CaptureMode::PassThrough), ReportTarget::RawStream);
    assert_eq!(report_target(None, CaptureMode::Intercepted), ReportTarget::Console);
    assert_eq!(
        report_target(Some(OutputFormat::Sarif), CaptureMode::PassThrough),
        ReportTarget::File(OutputFormat::Sarif)
    );
}

#[test]
fn output_file_defaults() {
    assert_eq!(output_file(&None, OutputFormat::Html), "report.html");
    assert_eq!(output_file(&None, OutputFormat::RawJson), "raw-report.json");
    assert_eq!(output_file(&None, OutputFormat::MarkdownGithub), "report.md");
    assert_eq!(output_file(&Some("out.pdf".to_string()), OutputFormat::Pdf), "out.pdf");
}

#[test]
fn template_path_under_base() {
    let (dir, file) = get_template_path("/home/u");
    assert_eq!(dir, "/home/u/.scout-audit/templates");
    assert_eq!(file, "console.txt");
}

#[test]
fn capture_noop_passes_results_through() {
    let ok: Result<(Vec<String>, u32), String> = capture_noop(|| Ok::<u32, String>(7));
    assert_eq!(ok, Ok((vec![], 7)));
    let err: Result<(Vec<String>, u32), String> = capture_noop(|| Err::<u32, String>("e".to_string()));
    assert_eq!(err, Err("e".to_string()));
}

#[test]
fn reexec_propagates_child_exit_code() {
    let (state, action) = dispatch_step(
        ToolchainState::NeedsDispatch,
        "nightly-2024-07-11",
        &DispatchEvent::ActiveToolchain("stable".to_string()),
    );
    assert_eq!(state, ToolchainState::ReExeced);
    assert_eq!(action, DispatchAction::SpawnChild);
    for code in [0, 3, -1] {
        let (s2, a2) = dispatch_step(state, "nightly-2024-07-11", &DispatchEvent::ChildExited(code));
        assert_eq!(s2, ToolchainState::ReExeced);
        assert_eq!(a2, DispatchAction::ExitWith(code));
    }
}

#[test]
fn matching_toolchain_continues_in_process() {
    let (state, action) = dispatch_step(
        ToolchainState::NeedsDispatch,
        "nightly-2023-12-16",
        &DispatchEvent::ActiveToolchain("nightly-2023-12-16".to_string()),
    );
    assert_eq!(state, ToolchainState::RunningUnderCorrectToolchain);
    assert_eq!(action, DispatchAction::ContinueInProcess);
}

#[test]
fn no_listener_runs_directly() {
    assert!(matches!(relay_plan(None), RelayPlan::RunDirect));
    let mut calls = 0;
    let mut work = || calls += 1;
    if let RelayPlan::RunDirect = relay_plan(None) {
        work();
    }
    assert_eq!(calls, 1);
}

#[test]
fn listener_url() {
    match relay_plan(Some("8080")) {
        RelayPlan::Capture { url } => assert_eq!(url, "http://127.0.0.1:8080/vuln"),
        RelayPlan::RunDirect => panic!("expected capture"),
    }
}

#[test]
fn relay_body_wraps_json_only() {
    assert_eq!(relay_body("plain text", "k"), "plain text");
    let body = relay_body("{\"a\":1}", "my_crate");
    let v: serde_json::Value = serde_json::from_str(&body).unwrap();
    assert_eq!(v["crate"], "my_crate");
    assert_eq!(v["message"]["a"], 1);
}
