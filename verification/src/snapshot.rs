//! Snapshot tests: their description, how one is built from its files, how a
//! run is judged against it, how results are reported, and how two versions
//! of a snapshot differ.
use vstd::prelude::*;
use crate::diff::{line_diff, line_diff_entries, rendered_diff_with, DiffSettings};
use crate::text::joined_lines;
use vstd::utf8::{
    decode_utf8, encode_utf8, encode_utf8_decode_utf8, is_ascii_chars, is_ascii_chars_encode_utf8, is_char_boundary,
};
use crate::paths::{join_path, joined_path};
use crate::text::{
    contains_seq, lemma_parts_contained, copy_opt, copy_strings, decimal, digit_char, i32_to_string, lemma_contains_middle,
    lemma_decimal_injective, lemma_signed_decimal_injective, signed_decimal, u64_to_string,
};

verus! {

/// The exit code a snapshot expects when it names none.
pub fn exit_code_zero() -> (r: i32)
    ensures
        r == 0,
{
    0
}

/// The name of the file that describes a snapshot.
pub const SNAPSHOT_FILE_NAME: &'static str = "snapshot.toml";

/// The name of the file that holds the expected stdout.
pub const STDOUT_FILE_NAME: &'static str = "stdout.txt";

/// The name of the file that holds the expected stderr.
pub const STDERR_FILE_NAME: &'static str = "stderr.txt";

/// The name of the file that holds the stdin fed to the command.
pub const STDIN_FILE_NAME: &'static str = "stdin.txt";

/// What a snapshot runs and expects.
#[derive(Debug)]
pub struct TestFile {
    pub command: String,
    pub args: Vec<String>,
    pub timeout_ms: Option<u64>,
    pub stdin: Option<String>,
    pub stdout: Option<String>,
    pub stderr: Option<String>,
    pub code: i32,
}

/// A snapshot test: its name, its directory and its description.
#[derive(Debug)]
pub struct Test {
    pub name: String,
    pub path: String,
    pub test: TestFile,
}

impl TestFile {
    /// Both describe the same run and expectations.
    pub open spec fn same_as(&self, other: TestFile) -> bool {
        &&& self.command@ == other.command@
        &&& self.args.deep_view() == other.args.deep_view()
        &&& self.timeout_ms == other.timeout_ms
        &&& self.stdin.deep_view() == other.stdin.deep_view()
        &&& self.stdout.deep_view() == other.stdout.deep_view()
        &&& self.stderr.deep_view() == other.stderr.deep_view()
        &&& self.code == other.code
    }

    /// The description without its streams, which are saved to files of their own.
    pub fn without_streams(&self) -> (r: TestFile)
        ensures
            r.command@ == self.command@,
            r.args.deep_view() == self.args.deep_view(),
            r.timeout_ms == self.timeout_ms,
            r.code == self.code,
            r.stdin is None,
            r.stdout is None,
            r.stderr is None,
    {
        TestFile {
            command: self.command.clone(),
            args: copy_strings(&self.args),
            timeout_ms: self.timeout_ms,
            stdin: None,
            stdout: None,
            stderr: None,
            code: self.code,
        }
    }
}

/// The files that hold a snapshot: its description, and a file for each
/// stream it has.
pub open spec fn snapshot_files(t: Test) -> Seq<Seq<char>> {
    let dir = t.path@;
    seq![joined_path(dir, SNAPSHOT_FILE_NAME@)] + (if t.test.stdout is Some {
        seq![joined_path(dir, STDOUT_FILE_NAME@)]
    } else {
        Seq::empty()
    }) + (if t.test.stderr is Some {
        seq![joined_path(dir, STDERR_FILE_NAME@)]
    } else {
        Seq::empty()
    }) + (if t.test.stdin is Some {
        seq![joined_path(dir, STDIN_FILE_NAME@)]
    } else {
        Seq::empty()
    })
}

impl Test {
    /// The files that hold this snapshot.
    pub fn list_files(&self) -> (r: Vec<String>)
        ensures
            r.deep_view() == snapshot_files(*self),
    {
        let mut files: Vec<String> = Vec::new();
        files.push(join_path(self.path.as_str(), SNAPSHOT_FILE_NAME));
        if self.test.stdout.is_some() {
            files.push(join_path(self.path.as_str(), STDOUT_FILE_NAME));
        }
        if self.test.stderr.is_some() {
            files.push(join_path(self.path.as_str(), STDERR_FILE_NAME));
        }
        if self.test.stdin.is_some() {
            files.push(join_path(self.path.as_str(), STDIN_FILE_NAME));
        }
        assert(files.deep_view() =~= snapshot_files(*self));
        files
    }
}

// ----- building a snapshot -----

/// Why a snapshot could not be built.
#[derive(Debug, PartialEq, Eq, Structural)]
pub enum BuilderError {
    StdinAlreadyDefined,
    StdoutAlreadyDefined,
    StderrAlreadyDefined,
    NameNotSet,
}

impl BuilderError {
    /// The message shown for the error.
    pub fn message(&self) -> (r: String)
        ensures
            r@ == match self {
                BuilderError::StdinAlreadyDefined => "Stdin is already defined"@,
                BuilderError::StdoutAlreadyDefined => "Stdout is already defined"@,
                BuilderError::StderrAlreadyDefined => "Stderr is already defined"@,
                BuilderError::NameNotSet => "Name not set"@,
            },
    {
        match self {
            BuilderError::StdinAlreadyDefined => String::from_str("Stdin is already defined"),
            BuilderError::StdoutAlreadyDefined => String::from_str("Stdout is already defined"),
            BuilderError::StderrAlreadyDefined => String::from_str("Stderr is already defined"),
            BuilderError::NameNotSet => String::from_str("Name not set"),
        }
    }
}

/// A snapshot under construction. Each stream can be given once, from the
/// description or from its own file.
#[derive(Debug)]
pub struct TestBuilder {
    pub dir: String,
    pub name: Option<String>,
    pub command: String,
    pub args: Vec<String>,
    pub timeout_ms: Option<u64>,
    pub stdin: Option<String>,
    pub stdout: Option<String>,
    pub stderr: Option<String>,
    pub code: Option<i32>,
}

/// The builder with stdin set, or the error when stdin is already set.
pub open spec fn with_stdin(b: TestBuilder, stdin: Option<String>) -> Result<TestBuilder, BuilderError> {
    if b.stdin is Some {
        Err(BuilderError::StdinAlreadyDefined)
    } else {
        Ok(TestBuilder { stdin, ..b })
    }
}

/// The builder with the expected stdout set, or the error when it is already set.
pub open spec fn with_stdout(b: TestBuilder, stdout: String) -> Result<TestBuilder, BuilderError> {
    if b.stdout is Some {
        Err(BuilderError::StdoutAlreadyDefined)
    } else {
        Ok(TestBuilder { stdout: Some(stdout), ..b })
    }
}

/// The builder with the expected stderr set, or the error when it is already set.
pub open spec fn with_stderr(b: TestBuilder, stderr: String) -> Result<TestBuilder, BuilderError> {
    if b.stderr is Some {
        Err(BuilderError::StderrAlreadyDefined)
    } else {
        Ok(TestBuilder { stderr: Some(stderr), ..b })
    }
}

/// The snapshot a builder makes: exit code 0 unless one was given, and an
/// error when it was not named.
pub open spec fn built(b: TestBuilder) -> Result<Test, BuilderError> {
    match b.name {
        None => Err(BuilderError::NameNotSet),
        Some(n) => Ok(
            Test {
                name: n,
                path: b.dir,
                test: TestFile {
                    command: b.command,
                    args: b.args,
                    timeout_ms: b.timeout_ms,
                    stdin: b.stdin,
                    stdout: b.stdout,
                    stderr: b.stderr,
                    code: match b.code {
                        Some(c) => c,
                        None => 0,
                    },
                },
            },
        ),
    }
}

impl TestBuilder {
    /// A snapshot of `command` in `dir` with nothing else set.
    pub fn new(command: String, dir: String) -> (r: Self)
        ensures
            r.dir == dir,
            r.command == command,
            r.name is None,
            r.args@.len() == 0,
            r.timeout_ms is None,
            r.stdin is None,
            r.stdout is None,
            r.stderr is None,
            r.code is None,
    {
        TestBuilder {
            dir,
            name: None,
            command,
            args: Vec::new(),
            timeout_ms: None,
            stdin: None,
            stdout: None,
            stderr: None,
            code: None,
        }
    }

    /// A snapshot in `dir` that starts from a description read from its file.
    pub fn with_base(base: TestFile, dir: String) -> (r: Self)
        ensures
            r == (TestBuilder {
                dir,
                name: None,
                command: base.command,
                args: base.args,
                timeout_ms: base.timeout_ms,
                stdin: base.stdin,
                stdout: base.stdout,
                stderr: base.stderr,
                code: Some(base.code),
            }),
    {
        TestBuilder {
            dir,
            name: None,
            command: base.command,
            args: base.args,
            timeout_ms: base.timeout_ms,
            stdin: base.stdin,
            stdout: base.stdout,
            stderr: base.stderr,
            code: Some(base.code),
        }
    }

    /// Names the snapshot.
    pub fn name(self, name: String) -> (r: Self)
        ensures
            r == (TestBuilder { name: Some(name), ..self }),
    {
        let mut r = self;
        r.name = Some(name);
        r
    }

    /// Sets the stdin fed to the command; refused when it is already set.
    pub fn stdin(self, stdin: Option<String>) -> (r: Result<Self, BuilderError>)
        ensures
            r == with_stdin(self, stdin),
    {
        if self.stdin.is_some() {
            return Err(BuilderError::StdinAlreadyDefined);
        }
        let mut r = self;
        r.stdin = stdin;
        Ok(r)
    }

    /// Sets the expected stdout; refused when it is already set.
    pub fn stdout(self, stdout: String) -> (r: Result<Self, BuilderError>)
        ensures
            r == with_stdout(self, stdout),
    {
        if self.stdout.is_some() {
            return Err(BuilderError::StdoutAlreadyDefined);
        }
        let mut r = self;
        r.stdout = Some(stdout);
        Ok(r)
    }

    /// Sets the expected stderr; refused when it is already set.
    pub fn stderr(self, stderr: String) -> (r: Result<Self, BuilderError>)
        ensures
            r == with_stderr(self, stderr),
    {
        if self.stderr.is_some() {
            return Err(BuilderError::StderrAlreadyDefined);
        }
        let mut r = self;
        r.stderr = Some(stderr);
        Ok(r)
    }

    /// Sets the timeout.
    pub fn timeout(self, timeout: Option<u64>) -> (r: Self)
        ensures
            r == (TestBuilder { timeout_ms: timeout, ..self }),
    {
        let mut r = self;
        r.timeout_ms = timeout;
        r
    }

    /// The snapshot; its exit code is 0 unless one was given, and it must
    /// have been named.
    pub fn build(self) -> (r: Result<Test, BuilderError>)
        ensures
            r == built(self),
    {
        let code = match self.code {
            Some(c) => c,
            None => exit_code_zero(),
        };
        let test = TestFile {
            command: self.command,
            args: self.args,
            timeout_ms: self.timeout_ms,
            stdin: self.stdin,
            stdout: self.stdout,
            stderr: self.stderr,
            code,
        };
        match self.name {
            None => Err(BuilderError::NameNotSet),
            Some(name) => Ok(Test { name, path: self.dir, test }),
        }
    }
}

/// A builder step that keeps the builder when no value is given.
pub open spec fn then_stdin(b: Result<TestBuilder, BuilderError>, v: Option<String>) -> Result<TestBuilder, BuilderError> {
    match (b, v) {
        (Ok(b), Some(s)) => with_stdin(b, Some(s)),
        _ => b,
    }
}

/// A builder step that keeps the builder when no value is given.
pub open spec fn then_stdout(b: Result<TestBuilder, BuilderError>, v: Option<String>) -> Result<TestBuilder, BuilderError> {
    match (b, v) {
        (Ok(b), Some(s)) => with_stdout(b, s),
        _ => b,
    }
}

/// A builder step that keeps the builder when no value is given.
pub open spec fn then_stderr(b: Result<TestBuilder, BuilderError>, v: Option<String>) -> Result<TestBuilder, BuilderError> {
    match (b, v) {
        (Ok(b), Some(s)) => with_stderr(b, s),
        _ => b,
    }
}

/// The snapshot stored in a directory: its description, named after the
/// directory, with the streams found in their own files added in the order
/// stdin, stdout, stderr.
pub open spec fn assembled(
    base: TestFile,
    dir: String,
    name: String,
    stdin_file: Option<String>,
    stdout_file: Option<String>,
    stderr_file: Option<String>,
) -> Result<Test, BuilderError> {
    let b = TestBuilder {
        dir,
        name: Some(name),
        command: base.command,
        args: base.args,
        timeout_ms: base.timeout_ms,
        stdin: base.stdin,
        stdout: base.stdout,
        stderr: base.stderr,
        code: Some(base.code),
    };
    match then_stderr(then_stdout(then_stdin(Ok(b), stdin_file), stdout_file), stderr_file) {
        Ok(b) => built(b),
        Err(e) => Err(e),
    }
}

/// Assembles the snapshot stored in directory `dir` from its description and
/// the contents of its stream files (each `None` when the file is absent).
/// A stream given both in the description and in a file is refused.
pub fn assemble_test(
    base: TestFile,
    dir: String,
    name: String,
    stdin_file: Option<String>,
    stdout_file: Option<String>,
    stderr_file: Option<String>,
) -> (r: Result<Test, BuilderError>)
    ensures
        r == assembled(base, dir, name, stdin_file, stdout_file, stderr_file),
{
    let mut builder = TestBuilder::with_base(base, dir).name(name);
    if let Some(stdin) = stdin_file {
        builder = match builder.stdin(Some(stdin)) {
            Ok(b) => b,
            Err(e) => {
                return Err(e);
            },
        };
    }
    if let Some(stdout) = stdout_file {
        builder = match builder.stdout(stdout) {
            Ok(b) => b,
            Err(e) => {
                return Err(e);
            },
        };
    }
    if let Some(stderr) = stderr_file {
        builder = match builder.stderr(stderr) {
            Ok(b) => b,
            Err(e) => {
                return Err(e);
            },
        };
    }
    builder.build()
}

/// Saving a snapshot (its description without streams, as `without_streams`
/// gives it, and a file for each stream) and reading it back gives the same
/// snapshot.
pub proof fn law_saved_snapshot_reads_back(t: Test, stripped: TestFile)
    requires
        stripped.command@ == t.test.command@,
        stripped.args.deep_view() == t.test.args.deep_view(),
        stripped.timeout_ms == t.test.timeout_ms,
        stripped.code == t.test.code,
        stripped.stdin is None,
        stripped.stdout is None,
        stripped.stderr is None,
    ensures
        assembled(stripped, t.path, t.name, t.test.stdin, t.test.stdout, t.test.stderr) matches Ok(back) && back.name
            == t.name && back.path == t.path && back.test.same_as(t.test),
{
}

/// A stream given both in the description and in its own file is refused.
pub proof fn law_stream_given_twice_is_refused(
    base: TestFile,
    dir: String,
    name: String,
    stdin_file: Option<String>,
    stdout_file: Option<String>,
    stderr_file: Option<String>,
)
    requires
        (base.stdin is Some && stdin_file is Some) || (base.stdout is Some && stdout_file is Some) || (
        base.stderr is Some && stderr_file is Some),
    ensures
        assembled(base, dir, name, stdin_file, stdout_file, stderr_file) is Err,
{
}

/// The snapshot that a new run of `command` with `args` makes: the printed
/// streams and the exit code become the expected ones, with the given stdin
/// and timeout.
pub fn new_snapshot(
    command: String,
    args: Vec<String>,
    dir: String,
    name: String,
    stdout: String,
    stderr: String,
    stdin: Option<String>,
    timeout: Option<u64>,
    code: i32,
) -> (r: Test)
    ensures
        r == (Test {
            name,
            path: dir,
            test: TestFile {
                command,
                args,
                timeout_ms: timeout,
                stdin,
                stdout: Some(stdout),
                stderr: Some(stderr),
                code,
            },
        }),
{
    let b = TestBuilder::new(command, dir).name(name);
    let b = match b.stdout(stdout) {
        Ok(b) => b,
        Err(_) => {
            return vstd::pervasive::unreached();
        },
    };
    let b = match b.stderr(stderr) {
        Ok(b) => b,
        Err(_) => {
            return vstd::pervasive::unreached();
        },
    };
    let b = match b.stdin(stdin) {
        Ok(b) => b,
        Err(_) => {
            return vstd::pervasive::unreached();
        },
    };
    let mut b = b.timeout(timeout);
    b.args = args;
    b.code = Some(code);
    match b.build() {
        Ok(t) => t,
        Err(_) => {
            vstd::pervasive::unreached()
        },
    }
}

// ----- judging a run -----

/// The diff shown for a mismatched stream: nothing when the texts are equal,
/// else the headers `expected` and `got` and every entry, line numbers
/// aligned for numbers up to 30.
pub open spec fn mismatch_diff(expected: Seq<char>, got: Seq<char>) -> Seq<char> {
    if expected == got {
        Seq::empty()
    } else {
        joined_lines(
            rendered_diff_with(
                line_diff_entries(expected, got),
                Some("expected"@),
                Some("got"@),
                '-',
                '+',
                4,
                2,
                30,
            ),
        )
    }
}

/// The diff shown for a mismatched stream is empty exactly when the two
/// texts are equal.
pub proof fn law_mismatch_diff_empty_iff_equal(expected: Seq<char>, got: Seq<char>)
    ensures
        (mismatch_diff(expected, got).len() == 0) == (expected == got),
{
    if expected != got {
        let lines = rendered_diff_with(
            line_diff_entries(expected, got),
            Some("expected"@),
            Some("got"@),
            '-',
            '+',
            4,
            2,
            30,
        );
        assert(lines.len() >= 2);
        assert(joined_lines(lines).len() >= 1);
    }
}

/// The diff shown for a mismatched stream.
pub fn diff(left: String, right: String) -> (r: String)
    ensures
        r@ == mismatch_diff(left@, right@),
{
    let settings = DiffSettings::default().names(String::from_str("expected"), String::from_str("got")).max_line_number(
        30,
    );
    let d = line_diff(left.as_str(), right.as_str(), &settings);
    d.render()
}

/// Why a snapshot test failed.
#[derive(Debug)]
pub enum FailureReason {
    /// The command is not on the search path.
    CommandNotFound(String),
    /// The command could not be run; the text says why.
    CommandFailed(String, String),
    /// The run differs from the snapshot: exit code (expected, got), stdout
    /// and stderr (expected, got), each only when it differs.
    Mismatch(Option<(i32, i32)>, Option<(String, String)>, Option<(String, String)>),
}

/// The text of a failure reason.
pub open spec fn failure_text(f: FailureReason) -> Seq<char> {
    match f {
        FailureReason::CommandNotFound(cmd) => "command '"@ + cmd@ + "' not found"@,
        FailureReason::CommandFailed(cmd, reason) => "command '"@ + cmd@ + "' failed: "@ + reason@,
        FailureReason::Mismatch(code, stdout, stderr) => (match code {
            Some((e, g)) => "exit code mismatch: expected "@ + signed_decimal(e as int) + ", got "@ + signed_decimal(
                g as int,
            ) + "\n"@,
            None => Seq::empty(),
        }) + (match stdout {
            Some((e, g)) => "stdout mismatch:\n"@ + mismatch_diff(e@, g@) + "\n"@,
            None => Seq::empty(),
        }) + (match stderr {
            Some((e, g)) => "stderr mismatch:\n"@ + mismatch_diff(e@, g@) + "\n"@,
            None => Seq::empty(),
        }),
    }
}

/// The text of a mismatch is its exit-code section, then its stdout section,
/// then its stderr section, each present exactly when its part is given and
/// whatever the other parts are; with no part the text is empty.
pub proof fn law_mismatch_sections(
    code: Option<(i32, i32)>,
    stdout: Option<(String, String)>,
    stderr: Option<(String, String)>,
)
    ensures
        failure_text(FailureReason::Mismatch(code, stdout, stderr)) == failure_text(
            FailureReason::Mismatch(code, None, None),
        ) + failure_text(FailureReason::Mismatch(None, stdout, None)) + failure_text(
            FailureReason::Mismatch(None, None, stderr),
        ),
        failure_text(FailureReason::Mismatch(None, None, None)) == Seq::<char>::empty(),
        code matches Some((e, g)) ==> failure_text(FailureReason::Mismatch(code, None, None))
            == "exit code mismatch: expected "@ + signed_decimal(e as int) + ", got "@ + signed_decimal(g as int)
            + "\n"@,
        stdout matches Some((e, g)) ==> failure_text(FailureReason::Mismatch(None, stdout, None))
            == "stdout mismatch:\n"@ + mismatch_diff(e@, g@) + "\n"@,
        stderr matches Some((e, g)) ==> failure_text(FailureReason::Mismatch(None, None, stderr))
            == "stderr mismatch:\n"@ + mismatch_diff(e@, g@) + "\n"@,
        stdout matches Some((e, g)) ==> contains_seq(
            failure_text(FailureReason::Mismatch(code, stdout, stderr)),
            "stdout mismatch:\n"@ + mismatch_diff(e@, g@) + "\n"@,
        ),
        stderr matches Some((e, g)) ==> contains_seq(
            failure_text(FailureReason::Mismatch(code, stdout, stderr)),
            "stderr mismatch:\n"@ + mismatch_diff(e@, g@) + "\n"@,
        ),
{
    let c = failure_text(FailureReason::Mismatch(code, None, None));
    let o = failure_text(FailureReason::Mismatch(None, stdout, None));
    let e = failure_text(FailureReason::Mismatch(None, None, stderr));
    let t = failure_text(FailureReason::Mismatch(code, stdout, stderr));
    assert(c + Seq::<char>::empty() + Seq::<char>::empty() =~= c);
    assert(Seq::<char>::empty() + o + Seq::<char>::empty() =~= o);
    assert(Seq::<char>::empty() + Seq::<char>::empty() + e =~= e);
    assert(Seq::<char>::empty() + Seq::<char>::empty() + Seq::<char>::empty() =~= Seq::<char>::empty());
    assert(t =~= c + o + e);
    lemma_contains_middle(c, o, e);
    lemma_contains_middle(c + o, e, Seq::<char>::empty());
    assert(c + o + e + Seq::<char>::empty() =~= t);
}

impl FailureReason {
    /// The text shown for the failure.
    pub fn render(&self) -> (r: String)
        ensures
            r@ == failure_text(*self),
    {
        match self {
            FailureReason::CommandNotFound(cmd) => {
                let mut r = String::from_str("command '");
                r.append(cmd.as_str());
                r.append("' not found");
                r
            },
            FailureReason::CommandFailed(cmd, reason) => {
                let mut r = String::from_str("command '");
                r.append(cmd.as_str());
                r.append("' failed: ");
                r.append(reason.as_str());
                r
            },
            FailureReason::Mismatch(code, stdout, stderr) => {
                let mut r = String::new();
                if let Some((expected, got)) = code {
                    r.append("exit code mismatch: expected ");
                    r.append(i32_to_string(*expected).as_str());
                    r.append(", got ");
                    r.append(i32_to_string(*got).as_str());
                    r.append("\n");
                }
                if let Some((expected, got)) = stdout {
                    r.append("stdout mismatch:\n");
                    r.append(diff(expected.clone(), got.clone()).as_str());
                    r.append("\n");
                }
                if let Some((expected, got)) = stderr {
                    r.append("stderr mismatch:\n");
                    r.append(diff(expected.clone(), got.clone()).as_str());
                    r.append("\n");
                }
                assert(r@ =~= failure_text(*self));
                r
            },
        }
    }
}

/// The mismatch of an expected stream with what was printed, if any.
pub open spec fn stream_mismatch(expected: Option<String>, got: String) -> Option<(Seq<char>, Seq<char>)> {
    match expected {
        Some(e) => if e@ != got@ {
            Some((e@, got@))
        } else {
            None
        },
        None => None,
    }
}

/// An expected stream mismatches what was printed exactly when the two texts
/// differ, character for character; the mismatch holds both texts. A stream
/// with no expectation never mismatches.
pub proof fn law_stream_mismatch(expected: Option<String>, got: String)
    ensures
        (stream_mismatch(expected, got) is None) == (expected is Some ==> expected->Some_0@ == got@),
        stream_mismatch(expected, got) matches Some((e, g)) ==> expected is Some && e == expected->Some_0@ && g
            == got@,
{
}

/// Judges a run of a snapshot's command by its exit code and output. The run
/// passes exactly when the code is the expected one and every expected stream
/// equals what was printed; otherwise the failure names each part that differs.
pub fn check_output(test: &TestFile, code: i32, stdout: String, stderr: String) -> (r: Result<(), FailureReason>)
    ensures
        (r is Ok) == (code == test.code && (test.stdout is Some ==> test.stdout->Some_0@ == stdout@) && (test.stderr
            is Some ==> test.stderr->Some_0@ == stderr@)),
        (r is Ok) == (code == test.code && stream_mismatch(test.stdout, stdout) is None && stream_mismatch(
            test.stderr,
            stderr,
        ) is None),
        r matches Err(f) ==> f matches FailureReason::Mismatch(c, o, e) && c == (if code != test.code {
            Some((test.code, code))
        } else {
            None
        }) && o.deep_view() == stream_mismatch(test.stdout, stdout) && e.deep_view() == stream_mismatch(
            test.stderr,
            stderr,
        ),
{
    let exit_code_mismatch = if test.code != code {
        Some((test.code, code))
    } else {
        None
    };
    let stdout_mismatch = match &test.stdout {
        Some(expected) => if *expected != stdout {
            Some((expected.clone(), stdout))
        } else {
            None
        },
        None => None,
    };
    let stderr_mismatch = match &test.stderr {
        Some(expected) => if *expected != stderr {
            Some((expected.clone(), stderr))
        } else {
            None
        },
        None => None,
    };
    if exit_code_mismatch.is_some() || stdout_mismatch.is_some() || stderr_mismatch.is_some() {
        Err(FailureReason::Mismatch(exit_code_mismatch, stdout_mismatch, stderr_mismatch))
    } else {
        Ok(())
    }
}

/// How a snapshot test ended.
#[derive(Debug)]
pub enum TestStatus {
    Pass,
    Skip,
    Fail { reason: FailureReason },
}

/// A snapshot test with how it ended.
#[derive(Debug)]
pub struct TestResult<'a> {
    pub status: TestStatus,
    pub test: &'a Test,
}

impl<'a> TestResult<'a> {
    /// A failed test.
    pub fn fail(test: &'a Test, reason: FailureReason) -> (r: Self)
        ensures
            r.test == test,
            r.status == (TestStatus::Fail { reason }),
    {
        Self { status: TestStatus::Fail { reason }, test }
    }

    /// A passed test.
    pub fn pass(test: &'a Test) -> (r: Self)
        ensures
            r.test == test,
            r.status is Pass,
    {
        Self { status: TestStatus::Pass, test }
    }
}

/// Records how a test ended and says whether to run the next one: a run
/// stops after the first failure when `fail_fast` is set.
pub fn record_outcome<'a>(
    results: &mut Vec<TestResult<'a>>,
    test: &'a Test,
    outcome: Result<(), FailureReason>,
    fail_fast: bool,
) -> (keep_going: bool)
    ensures
        final(results)@.len() == old(results)@.len() + 1,
        final(results)@.take(old(results)@.len() as int) == old(results)@,
        final(results)@.last().test == test,
        match outcome {
            Ok(()) => final(results)@.last().status is Pass,
            Err(reason) => final(results)@.last().status == (TestStatus::Fail { reason }),
        },
        keep_going == !(outcome is Err && fail_fast),
{
    match outcome {
        Ok(()) => {
            results.push(TestResult::pass(test));
            assert(final(results)@.take(old(results)@.len() as int) =~= old(results)@);
            true
        },
        Err(reason) => {
            results.push(TestResult::fail(test, reason));
            assert(final(results)@.take(old(results)@.len() as int) =~= old(results)@);
            !fail_fast
        },
    }
}

/// How a status records the outcome of running a test.
pub open spec fn records(status: TestStatus, outcome: Result<(), FailureReason>) -> bool {
    match status {
        TestStatus::Pass => outcome is Ok,
        TestStatus::Fail { reason } => outcome == Err::<(), FailureReason>(reason),
        TestStatus::Skip => false,
    }
}

/// Running `test` with `run_test` can end as `status` records.
pub open spec fn ran_as<'a, F: Fn(&'a Test) -> Result<(), FailureReason>>(
    run_test: F,
    test: &'a Test,
    status: TestStatus,
) -> bool {
    exists|o: Result<(), FailureReason>| call_ensures(run_test, (test,), o) && records(status, o)
}

/// Runs the tests in order, each with `run_test`, and records how each ended.
/// Without `fail_fast` every test is run; with it, the run stops after the
/// first failure, so every result but the last has passed.
pub fn run<'a, F: Fn(&'a Test) -> Result<(), FailureReason>>(
    tests: &'a [Test],
    fail_fast: bool,
    run_test: F,
) -> (results: Vec<TestResult<'a>>)
    requires
        forall|i: int| 0 <= i < tests@.len() ==> call_requires(run_test, (&tests@[i],)),
    ensures
        results@.len() <= tests@.len(),
        forall|i: int| 0 <= i < results@.len() ==> (#[trigger] results@[i]).test == &tests@[i],
        forall|i: int|
            0 <= i < results@.len() ==> ran_as(run_test, &tests@[i], (#[trigger] results@[i]).status),
        !fail_fast ==> results@.len() == tests@.len(),
        fail_fast ==> forall|i: int| 0 <= i < results@.len() - 1 ==> (#[trigger] results@[i]).status is Pass,
        fail_fast ==> results@.len() == tests@.len() || results@.last().status is Fail,
{
    let mut results: Vec<TestResult<'a>> = Vec::new();
    let mut i: usize = 0;
    while i < tests.len()
        invariant
            i <= tests@.len(),
            results@.len() == i,
            forall|k: int| 0 <= k < tests@.len() ==> call_requires(run_test, (&tests@[k],)),
            forall|k: int| 0 <= k < i ==> (#[trigger] results@[k]).test == &tests@[k],
            forall|k: int| 0 <= k < i ==> ran_as(run_test, &tests@[k], (#[trigger] results@[k]).status),
            fail_fast ==> forall|k: int| 0 <= k < i ==> (#[trigger] results@[k]).status is Pass,
        decreases tests@.len() - i,
    {
        let test = &tests[i];
        let outcome = run_test(test);
        let ghost o = outcome;
        let ghost before = results@;
        let keep_going = record_outcome(&mut results, test, outcome, fail_fast);
        assert forall|k: int| 0 <= k < i implies results@[k] == before[k] by {
            assert(results@.take(i as int)[k] == results@[k]);
        }
        assert forall|k: int| 0 <= k < i + 1 implies (#[trigger] results@[k]).test == &tests@[k] by {
            if k < i {
                assert(results@[k] == before[k]);
            }
        }
        assert forall|k: int| 0 <= k < i + 1 implies ran_as(run_test, &tests@[k], (#[trigger] results@[k]).status) by {
            if k < i {
                assert(results@[k] == before[k]);
            } else {
                assert(call_ensures(run_test, (&tests@[k],), o) && records(results@[k].status, o));
            }
        }
        if fail_fast {
            assert forall|k: int| 0 <= k < i implies (#[trigger] results@[k]).status is Pass by {
                assert(results@[k] == before[k]);
            }
        }
        if !keep_going {
            return results;
        }
        assert(fail_fast ==> results@[i as int].status is Pass);
        i = i + 1;
    }
    results
}

/// The indentation of a failure reason under its test.
pub const INDENT: &'static str = "  ";

/// The report of a test result: its status and name, and for a failure the
/// reason on the next line, indented.
pub open spec fn report_text(r: TestResult) -> Seq<char> {
    match r.status {
        TestStatus::Pass => "[PASS] "@ + r.test.name@,
        TestStatus::Skip => "[SKIP] "@ + r.test.name@,
        TestStatus::Fail { reason } => "[FAIL] "@ + r.test.name@ + "\n"@ + INDENT@ + failure_text(reason),
    }
}

/// The report printed for a test result.
pub fn result_report(result: &TestResult) -> (r: String)
    ensures
        r@ == report_text(*result),
{
    let name = &result.test.name;
    match &result.status {
        TestStatus::Pass => {
            let mut r = String::from_str("[PASS] ");
            r.append(name.as_str());
            r
        },
        TestStatus::Skip => {
            let mut r = String::from_str("[SKIP] ");
            r.append(name.as_str());
            r
        },
        TestStatus::Fail { reason } => {
            let mut r = String::from_str("[FAIL] ");
            r.append(name.as_str());
            r.append("\n");
            r.append(INDENT);
            r.append(reason.render().as_str());
            r
        },
    }
}


// ----- how two versions of a snapshot differ -----

/// A value as a change shows it: shortened to its first 5 and last 6 bytes
/// when it is longer than 30 bytes, and each line feed shown as `[NEWLINE]`.
pub open spec fn shown_value(v: Seq<char>) -> Seq<char> {
    newlines_marked(shortened(v))
}

/// A value longer than 30 bytes cut to its first 5 and last 6 bytes around `...`.
pub open spec fn shortened(s: Seq<char>) -> Seq<char> {
    let b = encode_utf8(s);
    if b.len() > 30 {
        decode_utf8(b.subrange(0, 5)) + "..."@ + decode_utf8(b.subrange(b.len() - 6, b.len() as int))
    } else {
        s
    }
}

/// The value can be shortened: it is short, or its cut points fall between
/// characters.
pub open spec fn can_shorten(s: Seq<char>) -> bool {
    let b = encode_utf8(s);
    b.len() <= 30 || (is_char_boundary(b, 5) && is_char_boundary(b, b.len() - 6))
}

/// The text with each line feed written `[NEWLINE]`.
pub open spec fn newlines_marked(s: Seq<char>) -> Seq<char>
    decreases s.len(),
{
    if s.len() == 0 {
        Seq::empty()
    } else if s.last() == '\n' {
        newlines_marked(s.drop_last()) + "[NEWLINE]"@
    } else {
        newlines_marked(s.drop_last()).push(s.last())
    }
}

/// Writes each line feed of `s` as `[NEWLINE]`.
pub fn mark_newlines(s: &str) -> (r: String)
    ensures
        r@ == newlines_marked(s@),
{
    let n = s.unicode_len();
    let mut r = String::new();
    let mut i: usize = 0;
    while i < n
        invariant
            n == s@.len(),
            i <= n,
            r@ == newlines_marked(s@.take(i as int)),
        decreases n - i,
    {
        let c = s.get_char(i);
        if c == '\n' {
            r.append("[NEWLINE]");
        } else {
            r.append(s.substring_char(i, i + 1));
        }
        assert(s@.take(i + 1).drop_last() =~= s@.take(i as int));
        i = i + 1;
    }
    assert(s@.take(n as int) =~= s@);
    r
}

/// Marking line feeds works piece by piece: a line feed becomes `[NEWLINE]`
/// and every other character stays as it is.
pub proof fn law_newlines_marked(a: Seq<char>, b: Seq<char>, c: char)
    ensures
        newlines_marked(a + b) == newlines_marked(a) + newlines_marked(b),
        newlines_marked(seq!['\n']) == "[NEWLINE]"@,
        c != '\n' ==> newlines_marked(seq![c]) == seq![c],
    decreases b.len(),
{
    assert(seq!['\n'].drop_last() =~= Seq::<char>::empty());
    assert(seq![c].drop_last() =~= Seq::<char>::empty());
    assert(seq!['\n'].last() == '\n');
    assert(seq![c].last() == c);
    assert(newlines_marked(Seq::<char>::empty()) == Seq::<char>::empty());
    assert(newlines_marked(seq!['\n']) == newlines_marked(seq!['\n'].drop_last()) + "[NEWLINE]"@);
    assert(c != '\n' ==> newlines_marked(seq![c]) == newlines_marked(seq![c].drop_last()).push(c));
    assert(Seq::<char>::empty() + "[NEWLINE]"@ =~= "[NEWLINE]"@);
    assert(Seq::<char>::empty().push(c) =~= seq![c]);
    if b.len() == 0 {
        assert(a + b =~= a);
        assert(newlines_marked(a) + newlines_marked(b) =~= newlines_marked(a));
    } else {
        law_newlines_marked(a, b.drop_last(), c);
        assert((a + b).drop_last() =~= a + b.drop_last());
        assert((a + b).last() == b.last());
        if b.last() == '\n' {
            assert(newlines_marked(a) + newlines_marked(b.drop_last()) + "[NEWLINE]"@ =~= newlines_marked(a) + (
            newlines_marked(b.drop_last()) + "[NEWLINE]"@));
        } else {
            assert((newlines_marked(a) + newlines_marked(b.drop_last())).push(b.last()) =~= newlines_marked(a) + (
            newlines_marked(b.drop_last()).push(b.last())));
        }
    }
}

/// A value of at most 30 bytes without a line feed is shown as it is.
pub proof fn law_short_plain_value_shown_as_is(v: Seq<char>)
    requires
        encode_utf8(v).len() <= 30,
        forall|i: int| 0 <= i < v.len() ==> v[i] != '\n',
    ensures
        shown_value(v) == v,
{
    lemma_plain_text_unmarked(v);
}

/// A text without a line feed is left as it is by `newlines_marked`.
proof fn lemma_plain_text_unmarked(v: Seq<char>)
    requires
        forall|i: int| 0 <= i < v.len() ==> v[i] != '\n',
    ensures
        newlines_marked(v) == v,
    decreases v.len(),
{
    if v.len() > 0 {
        lemma_plain_text_unmarked(v.drop_last());
        assert(v.drop_last().push(v.last()) =~= v);
    }
}

/// Whether the value can be shortened.
pub fn shortenable(s: &str) -> (r: bool)
    ensures
        r == can_shorten(s@),
{
    let len = s.as_bytes().len();
    len <= 30 || (s.is_char_boundary(5) && s.is_char_boundary(len - 6))
}

/// A value as a change shows it.
pub fn replace_newlines_shorten(input: &str) -> (r: String)
    requires
        can_shorten(input@),
    ensures
        r@ == shown_value(input@),
{
    let len = input.as_bytes().len();
    let short = if len > 30 {
        let (first, _) = input.split_at(5);
        let (_, last) = input.split_at(len - 6);
        proof {
            encode_utf8_decode_utf8(first@);
            encode_utf8_decode_utf8(last@);
        }
        let mut s = String::from_str(first);
        s.append("...");
        s.append(last);
        s
    } else {
        String::from_str(input)
    };
    mark_newlines(short.as_str())
}

/// The line that shows how a field changed: its old and new values, that it
/// was unset or set, or nothing when it is unchanged or absent from both.
pub open spec fn change_text(name: Seq<char>, old: Option<Seq<char>>, new: Option<Seq<char>>, newline: bool) -> Seq<
    char,
> {
    let nl = if newline { seq!['\n'] } else { Seq::empty() };
    match (old, new) {
        (Some(o), Some(n)) => if o == n {
            Seq::empty()
        } else {
            INDENT@ + name + ": '"@ + shown_value(o) + "' -> '"@ + shown_value(n) + "'"@ + nl
        },
        (Some(o), None) => INDENT@ + "unset "@ + name + " = '"@ + shown_value(o) + "'"@ + nl,
        (None, Some(n)) => INDENT@ + "set "@ + name + " = '"@ + shown_value(n) + "'"@ + nl,
        (None, None) => Seq::empty(),
    }
}

/// Every value that the change line shows can be shortened.
pub open spec fn change_ok(old: Option<Seq<char>>, new: Option<Seq<char>>) -> bool {
    match (old, new) {
        (Some(o), Some(n)) => o == n || (can_shorten(o) && can_shorten(n)),
        (Some(o), None) => can_shorten(o),
        (None, Some(n)) => can_shorten(n),
        (None, None) => true,
    }
}

/// Appends the line that shows how a field changed.
fn push_change(s: &mut String, name: &str, before: Option<String>, after: Option<String>, newline: bool)
    requires
        change_ok(before.deep_view(), after.deep_view()),
    ensures
        final(s)@ == old(s)@ + change_text(name@, before.deep_view(), after.deep_view(), newline),
{
    match (before, after) {
        (Some(o), Some(n)) => {
            if o == n {
                return;
            }
            let o = replace_newlines_shorten(o.as_str());
            let n = replace_newlines_shorten(n.as_str());
            s.append(INDENT);
            s.append(name);
            s.append(": '");
            s.append(o.as_str());
            s.append("' -> '");
            s.append(n.as_str());
            s.append("'");
        },
        (Some(o), None) => {
            let o = replace_newlines_shorten(o.as_str());
            s.append(INDENT);
            s.append("unset ");
            s.append(name);
            s.append(" = '");
            s.append(o.as_str());
            s.append("'");
        },
        (None, Some(n)) => {
            let n = replace_newlines_shorten(n.as_str());
            s.append(INDENT);
            s.append("set ");
            s.append(name);
            s.append(" = '");
            s.append(n.as_str());
            s.append("'");
        },
        (None, None) => {
            return;
        },
    }
    if newline {
        proof { reveal_strlit("\n"); }
        s.append("\n");
    }
}

/// What snapbox's `ToDebug` shows for a list of arguments.
pub uninterp spec fn debug_text(args: Seq<Seq<char>>) -> Seq<char>;

/// `snapbox::ToDebug::to_debug` on the argument list, shown with `to_string`
/// (snapbox wraps the pretty `Debug` text of the value, and a line feed, in a
/// text `Data`, which displays as that text). Only the naming by `debug_text`
/// is claimed: how `Debug` escapes each argument is left to the name.
#[verifier::external_body]
fn args_debug(args: &Vec<String>) -> (r: String)
    ensures
        r@ == debug_text(args.deep_view()),
{
    snapbox::ToDebug::to_debug(args).to_string()
}

/// An optional number as text.
pub open spec fn opt_decimal(n: Option<u64>) -> Option<Seq<char>> {
    match n {
        Some(k) => Some(decimal(k as nat)),
        None => None,
    }
}

/// The lines that show how a snapshot changed, field by field: name, command,
/// arguments, exit code, timeout, stdin, stdout and stderr.
pub open spec fn snapshot_changes(old: Test, new: Test) -> Seq<char> {
    change_text("name"@, Some(old.name@), Some(new.name@), true) + change_text(
        "command"@,
        Some(old.test.command@),
        Some(new.test.command@),
        true,
    ) + change_text(
        "args"@,
        Some(debug_text(old.test.args.deep_view())),
        Some(debug_text(new.test.args.deep_view())),
        true,
    ) + change_text(
        "code"@,
        Some(signed_decimal(old.test.code as int)),
        Some(signed_decimal(new.test.code as int)),
        true,
    ) + change_text("timeout"@, opt_decimal(old.test.timeout_ms), opt_decimal(new.test.timeout_ms), true)
        + change_text("stdin"@, old.test.stdin.deep_view(), new.test.stdin.deep_view(), true) + change_text(
        "stdout"@,
        old.test.stdout.deep_view(),
        new.test.stdout.deep_view(),
        true,
    ) + change_text("stderr"@, old.test.stderr.deep_view(), new.test.stderr.deep_view(), false)
}

/// Every value that the changes show can be shortened.
pub open spec fn snapshot_changes_ok(old: Test, new: Test) -> bool {
    &&& change_ok(Some(old.name@), Some(new.name@))
    &&& change_ok(Some(old.test.command@), Some(new.test.command@))
    &&& change_ok(Some(debug_text(old.test.args.deep_view())), Some(debug_text(new.test.args.deep_view())))
    &&& change_ok(old.test.stdin.deep_view(), new.test.stdin.deep_view())
    &&& change_ok(old.test.stdout.deep_view(), new.test.stdout.deep_view())
    &&& change_ok(old.test.stderr.deep_view(), new.test.stderr.deep_view())
}

/// Ten to the power `k`.
pub open spec fn pow10(k: nat) -> nat
    decreases k,
{
    if k == 0 {
        1
    } else {
        10 * pow10((k - 1) as nat)
    }
}

/// A number below `10^k` has at most `k` decimal digits, all ASCII.
proof fn lemma_decimal_short(n: nat, k: nat)
    requires
        1 <= k,
        n < pow10(k),
    ensures
        is_ascii_chars(decimal(n)),
        decimal(n).len() <= k,
    decreases n,
{
    if n >= 10 {
        assert(k >= 2) by {
            if k == 1 {
                assert(pow10(1) == 10 * pow10(0));
            }
        }
        assert(n / 10 < pow10((k - 1) as nat));
        lemma_decimal_short(n / 10, (k - 1) as nat);
        let p = decimal(n / 10);
        assert(decimal(n) == p.push(digit_char(n % 10)));
        assert forall|i: int| 0 <= i < decimal(n).len() implies '\0' <= #[trigger] decimal(n)[i] <= '\u{7f}' by {
            if i < p.len() {
                assert(decimal(n)[i] == p[i]);
            }
        }
    }
}

/// The rendering of a 64-bit number can be shown unshortened.
proof fn lemma_u64_shortenable(n: u64)
    ensures
        can_shorten(decimal(n as nat)),
{
    reveal_with_fuel(pow10, 21);
    assert(pow10(20) == 100000000000000000000nat);
    lemma_decimal_short(n as nat, 20);
    is_ascii_chars_encode_utf8(decimal(n as nat));
}

/// The rendering of a 32-bit signed number can be shown unshortened.
proof fn lemma_i32_shortenable(i: i32)
    ensures
        can_shorten(signed_decimal(i as int)),
{
    reveal_with_fuel(pow10, 11);
    assert(pow10(10) == 10000000000nat);
    let m: nat = if i < 0 { (-i) as nat } else { i as nat };
    lemma_decimal_short(m, 10);
    let s = signed_decimal(i as int);
    assert(is_ascii_chars(s)) by {
        if i < 0 {
            assert forall|k: int| 0 <= k < s.len() implies '\0' <= #[trigger] s[k] <= '\u{7f}' by {
                if k > 0 {
                    assert(s[k] == decimal(m)[k - 1]);
                }
            }
        }
    }
    is_ascii_chars_encode_utf8(s);
}


/// An old and a new version of a snapshot.
#[derive(Debug)]
pub struct SnapshotDiff {
    pub old: Test,
    pub new: Test,
}

impl SnapshotDiff {
    /// The change from `old` to `new`.
    pub fn new(old: Test, new: Test) -> (r: Self)
        ensures
            r.old == old,
            r.new == new,
    {
        Self { old, new }
    }

    /// Every value that `render` shows can be shortened, so that it can render.
    pub fn can_render(&self) -> (r: bool)
        ensures
            r == snapshot_changes_ok(self.old, self.new),
    {
        let old = &self.old;
        let new = &self.new;
        let args_old = args_debug(&old.test.args);
        let args_new = args_debug(&new.test.args);
        opt_change_ok(&Some(old.name.clone()), &Some(new.name.clone())) && opt_change_ok(
            &Some(old.test.command.clone()),
            &Some(new.test.command.clone()),
        ) && opt_change_ok(&Some(args_old), &Some(args_new)) && opt_change_ok(&old.test.stdin, &new.test.stdin)
            && opt_change_ok(&old.test.stdout, &new.test.stdout) && opt_change_ok(
            &old.test.stderr,
            &new.test.stderr,
        )
    }

    /// The lines that show what changed between the two versions, field by
    /// field; unchanged fields show nothing.
    pub fn render(&self) -> (r: String)
        requires
            snapshot_changes_ok(self.old, self.new),
        ensures
            r@ == snapshot_changes(self.old, self.new),
    {
        let old = &self.old;
        let new = &self.new;
        let mut s = String::new();
        push_change(&mut s, "name", Some(old.name.clone()), Some(new.name.clone()), true);
        push_change(&mut s, "command", Some(old.test.command.clone()), Some(new.test.command.clone()), true);
        push_change(&mut s, "args", Some(args_debug(&old.test.args)), Some(args_debug(&new.test.args)), true);
        proof {
            lemma_i32_shortenable(old.test.code);
            lemma_i32_shortenable(new.test.code);
        }
        push_change(
            &mut s,
            "code",
            Some(i32_to_string(old.test.code)),
            Some(i32_to_string(new.test.code)),
            true,
        );
        let timeout_old = match old.test.timeout_ms {
            Some(t) => Some(u64_to_string(t)),
            None => None,
        };
        let timeout_new = match new.test.timeout_ms {
            Some(t) => Some(u64_to_string(t)),
            None => None,
        };
        proof {
            if let Some(t) = old.test.timeout_ms {
                lemma_u64_shortenable(t);
            }
            if let Some(t) = new.test.timeout_ms {
                lemma_u64_shortenable(t);
            }
        }
        push_change(&mut s, "timeout", timeout_old, timeout_new, true);
        push_change(&mut s, "stdin", copy_opt(&old.test.stdin), copy_opt(&new.test.stdin), true);
        push_change(&mut s, "stdout", copy_opt(&old.test.stdout), copy_opt(&new.test.stdout), true);
        push_change(&mut s, "stderr", copy_opt(&old.test.stderr), copy_opt(&new.test.stderr), false);
        s
    }
}

impl SnapshotDiff {
    /// The lines that show what changed, or `None` when a changed value cannot
    /// be shortened at a character boundary.
    pub fn checked_render(&self) -> (r: Option<String>)
        ensures
            (r is None) == !snapshot_changes_ok(self.old, self.new),
            r matches Some(t) ==> t@ == snapshot_changes(self.old, self.new),
    {
        if self.can_render() {
            Some(self.render())
        } else {
            None
        }
    }
}

/// Whether the values of a change line can be shortened.
fn opt_change_ok(before: &Option<String>, after: &Option<String>) -> (r: bool)
    ensures
        r == change_ok(before.deep_view(), after.deep_view()),
{
    match (before, after) {
        (Some(o), Some(n)) => *o == *n || (shortenable(o.as_str()) && shortenable(n.as_str())),
        (Some(o), None) => shortenable(o.as_str()),
        (None, Some(n)) => shortenable(n.as_str()),
        (None, None) => true,
    }
}

/// Two identical versions of a snapshot show no change, and can always be
/// rendered.
pub proof fn law_unchanged_snapshot_renders_nothing(t: Test)
    ensures
        snapshot_changes_ok(t, t),
        snapshot_changes(t, t) == Seq::<char>::empty(),
{
    assert(snapshot_changes(t, t) =~= Seq::<char>::empty());
}


/// Every field that differs between two versions of a snapshot is shown: a
/// changed value as `name: 'old' -> 'new'`, a value that only the old version
/// has as `unset name = 'old'`, and one that only the new version has as
/// `set name = 'new'`, whatever the other fields are.
pub proof fn law_changed_fields_are_shown(old: Test, new: Test)
    ensures
        old.name@ != new.name@ ==> contains_seq(snapshot_changes(old, new), INDENT@ + "name"@ + ": '"@ + shown_value(old.name@) + "' -> '"@ + shown_value(new.name@) + "'"@ + seq!['\n']),
        old.test.command@ != new.test.command@ ==> contains_seq(snapshot_changes(old, new), INDENT@ + "command"@ + ": '"@ + shown_value(old.test.command@) + "' -> '"@ + shown_value(new.test.command@) + "'"@ + seq!['\n']),
        debug_text(old.test.args.deep_view()) != debug_text(new.test.args.deep_view()) ==> contains_seq(snapshot_changes(old, new), INDENT@ + "args"@ + ": '"@ + shown_value(debug_text(old.test.args.deep_view())) + "' -> '"@ + shown_value(debug_text(new.test.args.deep_view())) + "'"@ + seq!['\n']),
        old.test.code != new.test.code ==> contains_seq(snapshot_changes(old, new), INDENT@ + "code"@ + ": '"@ + shown_value(signed_decimal(old.test.code as int)) + "' -> '"@ + shown_value(signed_decimal(new.test.code as int)) + "'"@ + seq!['\n']),
        old.test.timeout_ms is Some && new.test.timeout_ms is Some && old.test.timeout_ms->Some_0 != new.test.timeout_ms->Some_0 ==> contains_seq(snapshot_changes(old, new), INDENT@ + "timeout"@ + ": '"@ + shown_value(decimal(old.test.timeout_ms->Some_0 as nat)) + "' -> '"@ + shown_value(decimal(new.test.timeout_ms->Some_0 as nat)) + "'"@ + seq!['\n']),
        old.test.timeout_ms is Some && new.test.timeout_ms is None ==> contains_seq(snapshot_changes(old, new), INDENT@ + "unset "@ + "timeout"@ + " = '"@ + shown_value(decimal(old.test.timeout_ms->Some_0 as nat)) + "'"@ + seq!['\n']),
        old.test.timeout_ms is None && new.test.timeout_ms is Some ==> contains_seq(snapshot_changes(old, new), INDENT@ + "set "@ + "timeout"@ + " = '"@ + shown_value(decimal(new.test.timeout_ms->Some_0 as nat)) + "'"@ + seq!['\n']),
        old.test.stdin is Some && new.test.stdin is Some && old.test.stdin->Some_0@ != new.test.stdin->Some_0@ ==> contains_seq(snapshot_changes(old, new), INDENT@ + "stdin"@ + ": '"@ + shown_value(old.test.stdin->Some_0@) + "' -> '"@ + shown_value(new.test.stdin->Some_0@) + "'"@ + seq!['\n']),
        old.test.stdin is Some && new.test.stdin is None ==> contains_seq(snapshot_changes(old, new), INDENT@ + "unset "@ + "stdin"@ + " = '"@ + shown_value(old.test.stdin->Some_0@) + "'"@ + seq!['\n']),
        old.test.stdin is None && new.test.stdin is Some ==> contains_seq(snapshot_changes(old, new), INDENT@ + "set "@ + "stdin"@ + " = '"@ + shown_value(new.test.stdin->Some_0@) + "'"@ + seq!['\n']),
        old.test.stdout is Some && new.test.stdout is Some && old.test.stdout->Some_0@ != new.test.stdout->Some_0@ ==> contains_seq(snapshot_changes(old, new), INDENT@ + "stdout"@ + ": '"@ + shown_value(old.test.stdout->Some_0@) + "' -> '"@ + shown_value(new.test.stdout->Some_0@) + "'"@ + seq!['\n']),
        old.test.stdout is Some && new.test.stdout is None ==> contains_seq(snapshot_changes(old, new), INDENT@ + "unset "@ + "stdout"@ + " = '"@ + shown_value(old.test.stdout->Some_0@) + "'"@ + seq!['\n']),
        old.test.stdout is None && new.test.stdout is Some ==> contains_seq(snapshot_changes(old, new), INDENT@ + "set "@ + "stdout"@ + " = '"@ + shown_value(new.test.stdout->Some_0@) + "'"@ + seq!['\n']),
        old.test.stderr is Some && new.test.stderr is Some && old.test.stderr->Some_0@ != new.test.stderr->Some_0@ ==> contains_seq(snapshot_changes(old, new), INDENT@ + "stderr"@ + ": '"@ + shown_value(old.test.stderr->Some_0@) + "' -> '"@ + shown_value(new.test.stderr->Some_0@) + "'"@),
        old.test.stderr is Some && new.test.stderr is None ==> contains_seq(snapshot_changes(old, new), INDENT@ + "unset "@ + "stderr"@ + " = '"@ + shown_value(old.test.stderr->Some_0@) + "'"@),
        old.test.stderr is None && new.test.stderr is Some ==> contains_seq(snapshot_changes(old, new), INDENT@ + "set "@ + "stderr"@ + " = '"@ + shown_value(new.test.stderr->Some_0@) + "'"@),
{
    let t = snapshot_changes(old, new);
    let a0 = change_text("name"@, Some(old.name@), Some(new.name@), true);
    let a1 = change_text("command"@, Some(old.test.command@), Some(new.test.command@), true);
    let a2 = change_text("args"@, Some(debug_text(old.test.args.deep_view())), Some(debug_text(new.test.args.deep_view())), true);
    let a3 = change_text("code"@, Some(signed_decimal(old.test.code as int)), Some(signed_decimal(new.test.code as int)), true);
    let a4 = change_text("timeout"@, opt_decimal(old.test.timeout_ms), opt_decimal(new.test.timeout_ms), true);
    let a5 = change_text("stdin"@, old.test.stdin.deep_view(), new.test.stdin.deep_view(), true);
    let a6 = change_text("stdout"@, old.test.stdout.deep_view(), new.test.stdout.deep_view(), true);
    let a7 = change_text("stderr"@, old.test.stderr.deep_view(), new.test.stderr.deep_view(), false);
    lemma_parts_contained(a0, a1, a2, a3, a4, a5, a6, a7);
    assert(t == a0 + a1 + a2 + a3 + a4 + a5 + a6 + a7);
    lemma_signed_decimal_injective(old.test.code as int, new.test.code as int);
    if old.test.timeout_ms is Some && new.test.timeout_ms is Some {
        lemma_decimal_injective(old.test.timeout_ms->Some_0 as nat, new.test.timeout_ms->Some_0 as nat);
    }
}

/// Two versions of a snapshot that agree in every shown field show no change.
pub proof fn law_agreeing_fields_show_nothing(old: Test, new: Test)
    requires
        old.name@ == new.name@,
        old.test.command@ == new.test.command@,
        old.test.args.deep_view() == new.test.args.deep_view(),
        old.test.code == new.test.code,
        old.test.timeout_ms == new.test.timeout_ms,
        old.test.stdin.deep_view() == new.test.stdin.deep_view(),
        old.test.stdout.deep_view() == new.test.stdout.deep_view(),
        old.test.stderr.deep_view() == new.test.stderr.deep_view(),
    ensures
        snapshot_changes(old, new) == Seq::<char>::empty(),
{
    assert(snapshot_changes(old, new) =~= Seq::<char>::empty());
}

// ----- the command line of a new snapshot -----

/// A character of the Unicode property White_Space, which is what
/// `char::is_whitespace` tests.
pub open spec fn is_white_space(c: char) -> bool {
    ||| '\u{9}' <= c <= '\u{d}'
    ||| c == ' '
    ||| c == '\u{85}'
    ||| c == '\u{a0}'
    ||| c == '\u{1680}'
    ||| '\u{2000}' <= c <= '\u{200a}'
    ||| c == '\u{2028}'
    ||| c == '\u{2029}'
    ||| c == '\u{202f}'
    ||| c == '\u{205f}'
    ||| c == '\u{3000}'
}

/// The words of a text: its maximal runs of characters that are not white
/// space, in order.
pub open spec fn whitespace_words(s: Seq<char>) -> Seq<Seq<char>>
    decreases s.len(),
{
    if s.len() == 0 {
        Seq::empty()
    } else {
        let words = whitespace_words(s.drop_last());
        let c = s.last();
        if is_white_space(c) {
            words
        } else if s.len() >= 2 && !is_white_space(s[s.len() - 2]) {
            words.drop_last().push(words.last().push(c))
        } else {
            words.push(seq![c])
        }
    }
}

/// `str::split_whitespace`, each word made owned. Its documentation says that
/// it yields the sub-slices separated by any amount of white space, as
/// `char::is_whitespace` (Unicode White_Space) defines it, with no empty
/// words: the maximal runs of other characters, in order.
#[verifier::external_body]
fn split_whitespace(s: &str) -> (r: Vec<String>)
    ensures
        r.deep_view() == whitespace_words(s@),
{
    s.split_whitespace().map(|w| w.to_string()).collect()
}

/// The program and arguments of the command line of a new snapshot, split at
/// white space; `None` when the line has no word.
pub fn command_words(command_str: &str) -> (r: Option<(String, Vec<String>)>)
    ensures
        (r is None) == (whitespace_words(command_str@).len() == 0),
        r matches Some((c, a)) ==> c@ == whitespace_words(command_str@)[0] && a.deep_view()
            == whitespace_words(command_str@).drop_first(),
{
    let mut parts = split_whitespace(command_str);
    if parts.len() == 0 {
        return None;
    }
    let ghost ws = parts@;
    let ghost wv = parts.deep_view();
    let command = parts.remove(0);
    assert(parts.deep_view() =~= wv.drop_first()) by {
        assert forall|k: int| 0 <= k < parts.len() implies parts.deep_view()[k] == wv.drop_first()[k] by {
            assert(parts@[k] == ws[k + 1]);
            assert(wv[k + 1] == ws[k + 1]@);
        }
    }
    assert(command@ == wv[0]);
    Some((command, parts))
}

} // verus!
