use snaprun::diff::Diff;
use snaprun::runner::{
    command_check_status, command_parts, directory_check_status, file_check_step, find_missing_fragment,
    split_command, stream_matches, string_diff, var_check_status, CheckStatus, CommandOutput, DiffInput,
    FileObservations, FileRead, FileStep,
};

fn reason(s: CheckStatus) -> Option<String> {
    match s {
        CheckStatus::Success => None,
        CheckStatus::Fail { reason } => Some(reason),
    }
}

fn strings(v: &[&str]) -> Vec<String> {
    v.iter().map(|s| s.to_string()).collect()
}

#[test]
fn stream_without_expectation_passes() {
    let out = b"anything".to_vec();
    assert_eq!(reason(stream_matches(&out, None, &strings(&["missing"]), "stdout")), None);
}

#[test]
fn stream_must_equal_expected() {
    let out = b"hello\n".to_vec();
    let expected = "hello\n".to_string();
    assert_eq!(reason(stream_matches(&out, Some(&expected), &[], "stdout")), None);
    let other = "bye\n".to_string();
    assert_eq!(
        reason(stream_matches(&out, Some(&other), &[], "stderr")),
        Some("stderr did not match expected output".to_string())
    );
}

#[test]
fn stream_must_contain_fragments() {
    let out = b"hello world".to_vec();
    let expected = "hello world".to_string();
    assert_eq!(reason(stream_matches(&out, Some(&expected), &strings(&["hello", "world"]), "stdout")), None);
    assert_eq!(
        reason(stream_matches(&out, Some(&expected), &strings(&["hello", "moon", "sun"]), "stdout")),
        Some("stdout did not contain expected fragment 'moon'".to_string())
    );
}

#[test]
fn invalid_utf8_is_replaced() {
    let out = vec![b'a', 0xff, b'b'];
    let expected = "a\u{FFFD}b".to_string();
    assert_eq!(reason(stream_matches(&out, Some(&expected), &[], "stdout")), None);
}

#[test]
fn missing_fragment_index() {
    assert_eq!(find_missing_fragment("abc", &strings(&["a", "bc", "d", "e"])), Some(2));
    assert_eq!(find_missing_fragment("abc", &strings(&["", "abc"])), None);
}

#[test]
fn new_diff_input() {
    let d = DiffInput::new("Expected", "text");
    assert_eq!(d.name, "Expected");
    assert_eq!(d.content, "text");
}

#[test]
fn plain_string_diff() {
    let e = DiffInput::new("Expected", "a\nb\n");
    let a = DiffInput::new("Actual", "a\nc\n");
    assert_eq!(
        string_diff(&e, &a).render(),
        "---- expected: Expected\n++++ actual: Actual\n  1  1 | a\n  2    - b\n     2 + c\n  3  3 | \n"
    );
    let same = DiffInput::new("Actual", "a\nb\n");
    assert!(matches!(string_diff(&e, &same), Diff::Same));
    let crlf = DiffInput::new("Actual", "a\r\nb\r\n");
    assert!(matches!(string_diff(&e, &crlf), Diff::Diff(_)));
}

#[test]
fn directory_checks() {
    let path = "out".to_string();
    let listing = Some(strings(&["a", "b", "c"]));
    assert_eq!(reason(directory_check_status(&path, true, &listing, &strings(&["c", "a"]))), None);
    assert_eq!(
        reason(directory_check_status(&path, false, &listing, &vec![])),
        Some("Missing directory: out".to_string())
    );
    assert_eq!(
        reason(directory_check_status(&path, true, &None, &vec![])),
        Some("Unable to read directory out".to_string())
    );
    assert_eq!(
        reason(directory_check_status(&path, true, &listing, &strings(&["a", "x", "y"]))),
        Some("Expected child x of out does not exist".to_string())
    );
}

#[test]
fn variable_checks() {
    let vars = vec![("HOME".to_string(), "/root".to_string()), ("USER".to_string(), "me".to_string())];
    let key = "USER".to_string();
    assert_eq!(reason(var_check_status(&key, &None, &vars)), None);
    assert_eq!(reason(var_check_status(&key, &Some("me".to_string()), &vars)), None);
    assert_eq!(
        reason(var_check_status(&key, &Some("you".to_string()), &vars)),
        Some("Variable 'USER' did not match expected value 'you' (was 'me')".to_string())
    );
    let absent = "PATH".to_string();
    assert_eq!(reason(var_check_status(&absent, &None, &vars)), Some("Variable 'PATH' not set".to_string()));
    assert_eq!(
        reason(var_check_status(&absent, &Some("x".to_string()), &vars)),
        Some("Variable 'PATH' not set".to_string())
    );
}

fn output(code: Option<i32>, out: &str, err: &str) -> Result<CommandOutput, String> {
    Ok(CommandOutput { code, stdout: out.as_bytes().to_vec(), stderr: err.as_bytes().to_vec() })
}

#[test]
fn command_checks() {
    let cmd = "echo hi".to_string();
    let out = Some("hi\n".to_string());
    let none: Option<String> = None;
    let no: Vec<String> = vec![];
    assert_eq!(reason(command_check_status(&cmd, 0, &out, &none, &no, &no, &output(Some(0), "hi\n", ""))), None);
    assert_eq!(
        reason(command_check_status(&cmd, 0, &out, &none, &no, &no, &Err("Unable to run command echo hi".to_string()))),
        Some("Command did not run successfully: Unable to run command echo hi".to_string())
    );
    assert_eq!(
        reason(command_check_status(&cmd, 0, &out, &none, &no, &no, &output(Some(1), "hi\n", ""))),
        Some("Command echo hi exited with unexpected code".to_string())
    );
    assert_eq!(
        reason(command_check_status(&cmd, 0, &out, &none, &no, &no, &output(None, "hi\n", ""))),
        Some("Command echo hi exited with unexpected code".to_string())
    );
    assert_eq!(
        reason(command_check_status(&cmd, 0, &out, &none, &no, &no, &output(Some(0), "ho\n", ""))),
        Some("stdout did not match expected output".to_string())
    );
    let err = Some("warn".to_string());
    assert_eq!(
        reason(command_check_status(&cmd, 0, &none, &err, &no, &strings(&["x"]), &output(Some(0), "", "warn"))),
        Some("stderr did not contain expected fragment 'x'".to_string())
    );
}

#[test]
fn splitting_commands() {
    let (exec, args) = split_command("echo 'a b' c").unwrap().unwrap();
    assert_eq!(exec, "echo");
    assert_eq!(args, strings(&["a b", "c"]));
    assert!(split_command("echo 'unbalanced").is_none());
    assert_eq!(split_command("   ").unwrap().unwrap_err(), "Unable to parse command    ");
    assert_eq!(command_parts(strings(&["ls"]), "ls").unwrap(), ("ls".to_string(), vec![]));
}

fn finished(step: FileStep) -> (Option<String>, Option<String>) {
    match step {
        FileStep::Finished { status, shown } => (
            reason(status),
            match shown {
                Diff::Same => None,
                Diff::Diff(t) => Some(t),
            },
        ),
        FileStep::ReadAgain => panic!("asked to read again"),
        FileStep::RenderTemplate => panic!("asked to render"),
    }
}

#[test]
fn file_checks_in_order() {
    let path = "f.txt".to_string();
    let full = "/base/f.txt".to_string();
    let no: Vec<String> = vec![];
    let obs = |first: FileRead| FileObservations { first, second: None, rendered: None };
    assert_eq!(
        finished(file_check_step(&path, &full, &no, &None, &None, &obs(FileRead::Missing))),
        (Some("Missing file f.txt".to_string()), None)
    );
    assert_eq!(
        finished(file_check_step(&path, &full, &no, &None, &None, &obs(FileRead::Unreadable))),
        (Some("Unable to read file /base/f.txt".to_string()), None)
    );
    let contents = Some("a\n".to_string());
    let (r, d) = finished(file_check_step(
        &path,
        &full,
        &no,
        &None,
        &contents,
        &obs(FileRead::Contents("b\n".to_string())),
    ));
    assert_eq!(r, Some("File contents do not match expected contents".to_string()));
    assert_eq!(
        d,
        Some("---- expected: Expected\n++++ actual: Actual\n  1    - a\n     1 + b\n  2  2 | \n".to_string())
    );
    let crlf = Some("a\r\n".to_string());
    let (r, _) = finished(file_check_step(
        &path,
        &full,
        &no,
        &None,
        &crlf,
        &obs(FileRead::Contents("a\n".to_string())),
    ));
    assert_eq!(r, Some("File contents do not match expected contents".to_string()));
    assert_eq!(
        finished(file_check_step(
            &path,
            &full,
            &strings(&["z"]),
            &None,
            &contents,
            &obs(FileRead::Contents("a\n".to_string())),
        )),
        (Some("f.txt  did not contain expected fragment 'z'".to_string()), None)
    );
}

#[test]
fn file_check_with_template() {
    let path = "f.txt".to_string();
    let full = "/base/f.txt".to_string();
    let no: Vec<String> = vec![];
    let template = Some("t.j2".to_string());
    let mut obs = FileObservations { first: FileRead::Contents("x".to_string()), second: None, rendered: None };
    assert!(matches!(file_check_step(&path, &full, &no, &template, &None, &obs), FileStep::ReadAgain));
    obs.second = Some(FileRead::Contents("x".to_string()));
    assert!(matches!(file_check_step(&path, &full, &no, &template, &None, &obs), FileStep::RenderTemplate));
    obs.rendered = Some("x".to_string());
    assert_eq!(finished(file_check_step(&path, &full, &no, &template, &None, &obs)), (None, None));
    obs.rendered = Some("y".to_string());
    let (r, d) = finished(file_check_step(&path, &full, &no, &template, &None, &obs));
    assert_eq!(r, Some("File contents do not match rendered template".to_string()));
    assert_eq!(d, Some("---- expected: Template\n++++ actual: Actual\n  1    - y\n     1 + x\n".to_string()));
    obs.second = Some(FileRead::Missing);
    assert_eq!(
        finished(file_check_step(&path, &full, &no, &template, &None, &obs)),
        (Some("Missing file f.txt".to_string()), None)
    );
}
