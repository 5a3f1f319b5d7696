use crashtest_harness::harness::{
    classify_outcome, parse_source_engine, parse_target_engine, report_line, timeout_seconds,
    CrashtestResult, SourceEngine, TargetEngine,
};
use crashtest_harness::{blink, gecko, webkit};

#[test]
fn successful_exit_is_passed_and_output_is_discarded() {
    let r = classify_outcome(Some(true), "noise".to_string(), "more noise".to_string());
    assert!(matches!(r, CrashtestResult::Passed));
}

#[test]
fn failing_exit_is_crashed_with_captured_output() {
    match classify_outcome(Some(false), "".to_string(), "".to_string()) {
        CrashtestResult::Crashed { stdout, stderr } => {
            assert_eq!(stdout, "");
            assert_eq!(stderr, "");
        }
        _ => panic!("expected a crash classification"),
    }
}

#[test]
fn elapsed_budget_is_timeout_with_partial_output() {
    match classify_outcome(None, "partial".to_string(), "oops".to_string()) {
        CrashtestResult::Timeout { stdout, stderr } => {
            assert_eq!(stdout, "partial");
            assert_eq!(stderr, "oops");
        }
        _ => panic!("expected a timeout classification"),
    }
}

#[test]
fn report_lines_carry_prefix_and_identity() {
    assert_eq!(
        report_line(&CrashtestResult::Passed, "file:///a.html"),
        "OK: file:///a.html"
    );
    assert_eq!(
        report_line(&CrashtestResult::Skipped, "about:blank"),
        "SKIP: about:blank"
    );
    let t = CrashtestResult::Timeout { stdout: String::new(), stderr: String::new() };
    assert_eq!(report_line(&t, "file:///b.html"), "TIMEOUT: file:///b.html");
    let c = CrashtestResult::Crashed { stdout: String::new(), stderr: String::new() };
    assert_eq!(report_line(&c, "file:///c.html"), "CRASHED: file:///c.html");
}

#[test]
fn execution_ceiling_is_twenty_seconds() {
    assert_eq!(timeout_seconds(), 20);
}

#[test]
fn engine_selection() {
    assert!(matches!(parse_source_engine("gecko"), Some(SourceEngine::Gecko)));
    assert!(matches!(parse_source_engine("blink"), Some(SourceEngine::Blink)));
    assert!(parse_source_engine("webkit").is_none());
    assert!(parse_source_engine("servo").is_none());
    assert!(matches!(parse_target_engine("gecko"), Some(TargetEngine::Gecko)));
    assert!(matches!(parse_target_engine("blink"), Some(TargetEngine::Blink)));
    assert!(matches!(parse_target_engine("webkit"), Some(TargetEngine::Webkit)));
    assert!(parse_target_engine("servo").is_none());
}

#[test]
fn non_file_urls_are_skipped_without_a_command() {
    let g = gecko::CrashtestRunner::new("/obj".to_string());
    assert!(g.plan("https://example.com/t.html", "/tmp/profile").is_none());
    assert!(g.plan("about:blank", "/tmp/profile").is_none());
    let b = blink::CrashtestRunner::new("/out".to_string());
    assert!(b.plan("data:text/html,x").is_none());
    let w = webkit::CrashtestRunner::new("/build".to_string());
    assert!(w.plan("https://example.com/").is_none());
}

#[test]
fn gecko_invocation_is_exact() {
    let g = gecko::CrashtestRunner::new("/obj".to_string());
    let c = g.plan("file:///t/a-crash.html", "/tmp/profile").expect("file URL runs");
    assert_eq!(c.program, "/obj/dist/bin/firefox");
    assert_eq!(
        c.args,
        vec![
            "-layoutdebug".to_string(),
            "file:///t/a-crash.html".to_string(),
            "-autoclose".to_string(),
            "-no-remote".to_string(),
            "-profile".to_string(),
            "/tmp/profile".to_string(),
        ]
    );
    assert_eq!(
        c.env,
        vec![
            ("MOZ_GDB_SLEEP".to_string(), "0".to_string()),
            ("MOZ_HEADLESS".to_string(), "1".to_string()),
        ]
    );
}

#[test]
fn blink_invocation_is_exact() {
    let b = blink::CrashtestRunner::new("/out/Default".to_string());
    assert_eq!(b.content_shell, "/out/Default/content_shell");
    let c = b.plan("file:///t/a-crash.html").expect("file URL runs");
    assert_eq!(c.program, "/out/Default/content_shell");
    assert_eq!(
        c.args,
        vec![
            "--run-web-tests".to_string(),
            "--single-process".to_string(),
            "--enable-experimental-web-platform-features".to_string(),
            "file:///t/a-crash.html".to_string(),
        ]
    );
    assert!(c.env.is_empty());
}

#[test]
fn webkit_invocation_is_exact() {
    let w = webkit::CrashtestRunner::new("/build".to_string());
    assert_eq!(w.test_runner, "/build/Debug/bin/WebKitTestRunner");
    assert_eq!(w.plugin_path, "/build/Debug/lib/plugins");
    assert_eq!(
        w.test_runner_injected_bundle,
        "/build/Debug/lib/libTestRunnerInjectedBundle.so"
    );
    assert_eq!(w.dependencies_path, "/build/DependenciesGTK/Root/lib");
    let c = w.plan("file:///t/a-crash.html").expect("file URL runs");
    assert_eq!(c.program, "/build/Debug/bin/WebKitTestRunner");
    assert_eq!(c.args, vec!["file:///t/a-crash.html".to_string()]);
    assert_eq!(
        c.env,
        vec![
            ("LD_LIBRARY_PATH".to_string(), "/build/DependenciesGTK/Root/lib".to_string()),
            ("TEST_RUNNER_TEST_PLUGIN_PATH".to_string(), "/build/Debug/lib/plugins".to_string()),
            (
                "TEST_RUNNER_INJECTED_BUNDLE_FILENAME".to_string(),
                "/build/Debug/lib/libTestRunnerInjectedBundle.so".to_string()
            ),
        ]
    );
}

#[test]
fn gecko_crashtests_list_path_layout() {
    assert_eq!(
        gecko::crashtests_list_path("/src/gecko"),
        "/src/gecko/testing/crashtest/crashtests.list"
    );
}

#[test]
fn gecko_crashtests_list_url() {
    assert_eq!(
        gecko::crashtests_list_url("/src/gecko/testing/crashtest/crashtests.list"),
        Some("file:///src/gecko/testing/crashtest/crashtests.list".to_string())
    );
    assert_eq!(gecko::crashtests_list_url("relative/crashtests.list"), None);
}
