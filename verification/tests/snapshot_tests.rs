use snaprun::cli::{Cli, Command};
use snaprun::snapshot::{
    assemble_test, check_output, command_words, diff, exit_code_zero, new_snapshot, record_outcome,
    replace_newlines_shorten, result_report, run, shortenable, BuilderError, FailureReason, SnapshotDiff, Test,
    TestBuilder, TestFile, TestResult, TestStatus,
};

fn strings(v: &[&str]) -> Vec<String> {
    v.iter().map(|s| s.to_string()).collect()
}

fn test_file(stdout: Option<&str>, stderr: Option<&str>, code: i32) -> TestFile {
    TestFile {
        command: "hello-world".to_string(),
        args: vec![],
        timeout_ms: None,
        stdin: None,
        stdout: stdout.map(|s| s.to_string()),
        stderr: stderr.map(|s| s.to_string()),
        code,
    }
}

fn test_named(name: &str, file: TestFile) -> Test {
    Test { name: name.to_string(), path: format!("snapshots/{name}"), test: file }
}

#[test]
fn default_exit_code_is_zero() {
    assert_eq!(exit_code_zero(), 0);
}

#[test]
fn readme_mismatch_report() {
    let test = test_named("diff-example", test_file(Some("foo bar baz"), None, 0));
    let outcome = check_output(&test.test, 0, "Hello, World!\n".to_string(), String::new());
    let reason = outcome.unwrap_err();
    let result = TestResult::fail(&test, reason);
    assert_eq!(
        result_report(&result),
        "[FAIL] diff-example\n  stdout mismatch:\n---- left:  expected\n++++ right: got\n   1     - foo bar baz\n       1 + Hello, World!\n       2 + \n\n"
    );
}

#[test]
fn readme_not_found_and_pass_reports() {
    let test = test_named("xdg-ninja", test_file(None, None, 0));
    let result = TestResult::fail(&test, FailureReason::CommandNotFound("xdg-ninja".to_string()));
    assert_eq!(result_report(&result), "[FAIL] xdg-ninja\n  command 'xdg-ninja' not found");
    let hello = test_named("hello-test", test_file(None, None, 0));
    assert_eq!(result_report(&TestResult::pass(&hello)), "[PASS] hello-test");
    let skipped = TestResult { status: TestStatus::Skip, test: &hello };
    assert_eq!(result_report(&skipped), "[SKIP] hello-test");
}

#[test]
fn failure_texts() {
    assert_eq!(
        FailureReason::CommandFailed("ls".to_string(), "io failed".to_string()).render(),
        "command 'ls' failed: io failed"
    );
    assert_eq!(
        FailureReason::Mismatch(Some((0, -3)), None, None).render(),
        "exit code mismatch: expected 0, got -3\n"
    );
    assert_eq!(
        FailureReason::Mismatch(None, None, Some(("a".to_string(), "b".to_string()))).render(),
        "stderr mismatch:\n---- left:  expected\n++++ right: got\n   1     - a\n       1 + b\n\n"
    );
}

#[test]
fn output_checks() {
    let t = test_file(Some("out"), None, 2);
    assert!(check_output(&t, 2, "out".to_string(), "anything".to_string()).is_ok());
    match check_output(&t, 3, "out".to_string(), String::new()) {
        Err(FailureReason::Mismatch(code, out, err)) => {
            assert_eq!(code, Some((2, 3)));
            assert_eq!(out, None);
            assert_eq!(err, None);
        },
        _ => panic!("expected a mismatch"),
    }
    match check_output(&t, 2, "other".to_string(), String::new()) {
        Err(FailureReason::Mismatch(code, out, _)) => {
            assert_eq!(code, None);
            assert_eq!(out, Some(("out".to_string(), "other".to_string())));
        },
        _ => panic!("expected a mismatch"),
    }
    let unchecked = test_file(None, None, 0);
    assert!(check_output(&unchecked, 0, "x".to_string(), "y".to_string()).is_ok());
}

#[test]
fn mismatch_diff_of_equal_texts_is_empty() {
    assert_eq!(diff("x\n".to_string(), "x\n".to_string()), "");
    assert_eq!(
        diff("a\r\n".to_string(), "a\n".to_string()),
        "---- left:  expected\n++++ right: got\n   1   1 | a\n   2   2 | \n"
    );
}

#[test]
fn running_tests_in_order() {
    let tests = vec![
        test_named("a", test_file(None, None, 0)),
        test_named("b", test_file(None, None, 1)),
        test_named("c", test_file(None, None, 0)),
    ];
    let judge = |t: &Test| {
        if t.test.code == 0 {
            Ok(())
        } else {
            Err(FailureReason::CommandNotFound(t.name.clone()))
        }
    };
    let all = run(&tests, false, judge);
    assert_eq!(all.len(), 3);
    assert!(matches!(all[0].status, TestStatus::Pass));
    assert!(matches!(all[1].status, TestStatus::Fail { .. }));
    assert!(matches!(all[2].status, TestStatus::Pass));
    assert_eq!(all[2].test.name, "c");
    let fast = run(&tests, true, judge);
    assert_eq!(fast.len(), 2);
    assert!(matches!(fast[1].status, TestStatus::Fail { .. }));
    let none: Vec<Test> = vec![];
    assert!(run(&none, true, judge).is_empty());
}

#[test]
fn fail_fast_stops_after_first_failure() {
    let a = test_named("a", test_file(None, None, 0));
    let b = test_named("b", test_file(None, None, 0));
    let mut results = Vec::new();
    assert!(record_outcome(&mut results, &a, Ok(()), true));
    assert!(!record_outcome(&mut results, &b, Err(FailureReason::CommandNotFound("x".to_string())), true));
    assert!(record_outcome(&mut results, &b, Err(FailureReason::CommandNotFound("x".to_string())), false));
    assert_eq!(results.len(), 3);
    assert!(matches!(results[0].status, TestStatus::Pass));
    assert!(matches!(results[1].status, TestStatus::Fail { .. }));
}

#[test]
fn builder_refuses_streams_twice() {
    let b = TestBuilder::with_base(test_file(Some("o"), None, 0), "d".to_string());
    assert_eq!(b.stdout("again".to_string()).unwrap_err(), BuilderError::StdoutAlreadyDefined);
    let b = TestBuilder::with_base(test_file(None, Some("e"), 0), "d".to_string());
    assert_eq!(b.stderr("again".to_string()).unwrap_err(), BuilderError::StderrAlreadyDefined);
    let mut base = test_file(None, None, 0);
    base.stdin = Some("in".to_string());
    let b = TestBuilder::with_base(base, "d".to_string());
    assert_eq!(b.stdin(Some("again".to_string())).unwrap_err(), BuilderError::StdinAlreadyDefined);
    let unnamed = TestBuilder::new("ls".to_string(), "d".to_string());
    assert_eq!(unnamed.build().unwrap_err(), BuilderError::NameNotSet);
    assert_eq!(BuilderError::StdoutAlreadyDefined.message(), "Stdout is already defined");
    assert_eq!(BuilderError::StderrAlreadyDefined.message(), "Stderr is already defined");
    assert_eq!(BuilderError::StdinAlreadyDefined.message(), "Stdin is already defined");
    assert_eq!(BuilderError::NameNotSet.message(), "Name not set");
}

#[test]
fn builder_defaults_code_to_zero() {
    let t = TestBuilder::new("ls".to_string(), "d".to_string())
        .name("n".to_string())
        .timeout(Some(5))
        .build()
        .unwrap();
    assert_eq!(t.test.code, 0);
    assert_eq!(t.test.timeout_ms, Some(5));
    assert_eq!(t.name, "n");
    assert_eq!(t.path, "d");
}

#[test]
fn saved_snapshot_reads_back() {
    let mut file = test_file(Some("out\n"), Some(""), 4);
    file.stdin = Some("in".to_string());
    file.args = strings(&["-a"]);
    file.timeout_ms = Some(250);
    let t = test_named("s", file);
    let stripped = t.test.without_streams();
    assert_eq!(stripped.stdout, None);
    let back = assemble_test(
        stripped,
        t.path.clone(),
        t.name.clone(),
        t.test.stdin.clone(),
        t.test.stdout.clone(),
        t.test.stderr.clone(),
    )
    .unwrap();
    assert_eq!(back.name, t.name);
    assert_eq!(back.path, t.path);
    assert_eq!(back.test.command, t.test.command);
    assert_eq!(back.test.args, t.test.args);
    assert_eq!(back.test.timeout_ms, t.test.timeout_ms);
    assert_eq!(back.test.stdin, t.test.stdin);
    assert_eq!(back.test.stdout, t.test.stdout);
    assert_eq!(back.test.stderr, t.test.stderr);
    assert_eq!(back.test.code, t.test.code);
}

#[test]
fn stream_in_description_and_file_is_refused() {
    let base = test_file(Some("a"), None, 0);
    let r = assemble_test(base, "d".to_string(), "n".to_string(), None, Some("b".to_string()), None);
    assert_eq!(r.unwrap_err(), BuilderError::StdoutAlreadyDefined);
}

#[test]
fn listing_files() {
    let mut t = test_named("hello-test", test_file(Some("x"), Some("y"), 0));
    t.test.stdin = Some(String::new());
    assert_eq!(
        t.list_files(),
        strings(&[
            "snapshots/hello-test/snapshot.toml",
            "snapshots/hello-test/stdout.txt",
            "snapshots/hello-test/stderr.txt",
            "snapshots/hello-test/stdin.txt",
        ])
    );
    t.test.stdout = None;
    t.test.stdin = None;
    assert_eq!(
        t.list_files(),
        strings(&["snapshots/hello-test/snapshot.toml", "snapshots/hello-test/stderr.txt"])
    );
}

#[test]
fn new_snapshot_takes_printed_streams() {
    let t = new_snapshot(
        "hello-world".to_string(),
        strings(&["--greet", "World"]),
        "snapshots/hello-test".to_string(),
        "hello-test".to_string(),
        "Hello, World!\n".to_string(),
        String::new(),
        Some(String::new()),
        Some(250),
        3,
    );
    assert_eq!(t.name, "hello-test");
    assert_eq!(t.test.stdout.as_deref(), Some("Hello, World!\n"));
    assert_eq!(t.test.stderr.as_deref(), Some(""));
    assert_eq!(t.test.stdin.as_deref(), Some(""));
    assert_eq!(t.test.timeout_ms, Some(250));
    assert_eq!(t.test.code, 3);
    assert_eq!(t.test.command, "hello-world");
    assert_eq!(t.test.args, strings(&["--greet", "World"]));
    assert_eq!(t.path, "snapshots/hello-test");
}

#[test]
fn readme_update_render() {
    let mut old_file = test_file(Some("Hello, World!\n"), Some(""), 0);
    old_file.stdin = Some(String::new());
    old_file.timeout_ms = Some(250);
    let old = test_named("hello-test", old_file);
    let mut new_file = test_file(Some("Goodbye, World!\n"), Some(""), 0);
    new_file.command = "goodbye-world".to_string();
    let new = test_named("goodbye-test", new_file);
    let d = SnapshotDiff::new(old, new);
    assert!(d.can_render());
    assert_eq!(d.checked_render(), Some(d.render()));
    assert_eq!(
        d.render(),
        "  name: 'hello-test' -> 'goodbye-test'\n  command: 'hello-world' -> 'goodbye-world'\n  unset timeout = '250'\n  unset stdin = ''\n  stdout: 'Hello, World![NEWLINE]' -> 'Goodbye, World![NEWLINE]'\n"
    );
}

#[test]
fn render_of_set_values_and_args() {
    let old = test_named("t", test_file(None, None, 0));
    let mut new_file = test_file(None, Some("err"), 1);
    new_file.args = strings(&["-v"]);
    new_file.timeout_ms = Some(9);
    let new = test_named("t", new_file);
    let d = SnapshotDiff::new(old, new);
    assert_eq!(
        d.render(),
        "  args: '[][NEWLINE]' -> '[[NEWLINE]    \"-v\",[NEWLINE]][NEWLINE]'\n  code: '0' -> '1'\n  set timeout = '9'\n  set stderr = 'err'"
    );
}

#[test]
fn identical_snapshots_render_nothing() {
    let t = test_named("t", test_file(Some("x"), None, 3));
    let u = test_named("t", test_file(Some("x"), None, 3));
    assert_eq!(SnapshotDiff::new(t, u).render(), "");
}

#[test]
fn shortening_values() {
    assert_eq!(replace_newlines_shorten("short\nvalue"), "short[NEWLINE]value");
    assert_eq!(replace_newlines_shorten("abcdefghijklmnopqrstuvwxyz0123456789"), "abcde...456789");
    assert_eq!(replace_newlines_shorten("a\nbcdefghijklmnopqrstuvwxyz01234\n6789"), "a[NEWLINE]bcd...4[NEWLINE]6789");
    assert!(shortenable("abcdefghijklmnopqrstuvwxyz0123456789"));
    assert!(!shortenable("ééééééééééééééééé"));
    assert!(shortenable("é"));
}

#[test]
fn unrenderable_change_is_detected() {
    let old = test_named("ééééééééééééééééé", test_file(None, None, 0));
    let new = test_named("t", test_file(None, None, 0));
    let d = SnapshotDiff::new(old, new);
    assert!(!d.can_render());
    assert_eq!(d.checked_render(), None);
}

#[test]
fn new_snapshot_command_words() {
    let (c, a) = command_words("  hello-world  --flag x ").unwrap();
    assert_eq!(c, "hello-world");
    assert_eq!(a, strings(&["--flag", "x"]));
    assert!(command_words("   ").is_none());
    let (c, a) = command_words("run\u{3000}a\u{a0}b\t\nc").unwrap();
    assert_eq!(c, "run");
    assert_eq!(a, strings(&["a", "b", "c"]));
    assert!(command_words("\u{2028}\u{85}").is_none());
}

#[test]
fn default_command_runs_snapshots() {
    let cli = Cli { command: None };
    match cli.command() {
        Command::Run { fail_fast, snapshots } => {
            assert!(!fail_fast);
            assert_eq!(snapshots, None);
        },
        _ => panic!("expected run"),
    }
    let cli = Cli { command: Some(Command::Run { fail_fast: true, snapshots: Some("s".to_string()) }) };
    match cli.command() {
        Command::Run { fail_fast, snapshots } => {
            assert!(fail_fast);
            assert_eq!(snapshots.as_deref(), Some("s"));
        },
        _ => panic!("expected run"),
    }
}
