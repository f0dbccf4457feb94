//! Checks on the results of a run: output streams, files, directories,
//! commands and variables, each judged from what was observed.
use vstd::prelude::*;
use vstd::utf8::{decode_utf8, valid_utf8};
use crate::diff::{
    diff_input_lines, diff_lines, entry_lines, left_side, line_diff_entries, render_entries, right_side, Diff,
};
use crate::text::{chars_of, contains_seq, contains_text, join_lines, joined_lines, same_text};

verus! {

/// The verdict of a check.
#[derive(Debug)]
pub enum CheckStatus {
    Success,
    Fail { reason: String },
}

impl CheckStatus {
    /// The failure reason, or `None` for a success.
    pub open spec fn failure(self) -> Option<Seq<char>> {
        match self {
            CheckStatus::Success => None,
            CheckStatus::Fail { reason } => Some(reason@),
        }
    }
}

/// The index of the first element of `s` that satisfies `p`.
pub open spec fn first_index_where<A>(s: Seq<A>, p: spec_fn(A) -> bool) -> Option<int>
    decreases s.len(),
{
    if s.len() == 0 {
        None
    } else {
        let before = first_index_where(s.drop_last(), p);
        if before is Some {
            before
        } else if p(s.last()) {
            Some(s.len() - 1)
        } else {
            None
        }
    }
}

/// `first_index_where` over a whole sequence agrees with it over a prefix
/// once the prefix has a match; the index it finds is the first element that
/// satisfies `p`, and it finds none only when no element does.
pub proof fn lemma_first_index_where<A>(s: Seq<A>, p: spec_fn(A) -> bool, k: int)
    requires
        0 <= k <= s.len(),
    ensures
        first_index_where(s.take(k), p) is Some ==> first_index_where(s, p) == first_index_where(s.take(k), p),
        first_index_where(s, p) matches Some(i) ==> 0 <= i < s.len() && p(s[i]),
        first_index_where(s, p) matches Some(i) ==> forall|j: int| 0 <= j < i ==> !p(#[trigger] s[j]),
        first_index_where(s, p) is None ==> forall|j: int| 0 <= j < s.len() ==> !p(#[trigger] s[j]),
    decreases s.len(),
{
    if s.len() > 0 {
        if k == s.len() {
            assert(s.take(k) =~= s);
        }
        let k2 = if k == s.len() { k - 1 } else { k };
        lemma_first_index_where(s.drop_last(), p, k2);
        assert(s.drop_last().take(k2) =~= s.take(k2));
        assert forall|j: int| 0 <= j < s.len() - 1 implies s.drop_last()[j] == s[j] by {}
    }
}

/// Steps `first_index_where` from a prefix of `k` elements to one of `k + 1`.
pub proof fn lemma_first_index_step<A>(s: Seq<A>, p: spec_fn(A) -> bool, k: int)
    requires
        0 <= k < s.len(),
        first_index_where(s.take(k), p) is None,
    ensures
        first_index_where(s.take(k + 1), p) == (if p(s[k]) { Some(k) } else { None }),
{
    assert(s.take(k + 1).drop_last() =~= s.take(k));
}

/// The first fragment that `text` does not contain.
pub open spec fn first_missing(text: Seq<char>, frags: Seq<Seq<char>>) -> Option<int> {
    first_index_where(frags, |f: Seq<char>| !contains_seq(text, f))
}

/// The index of the first fragment that `text` does not contain.
pub fn find_missing_fragment(text: &str, frags: &[String]) -> (r: Option<usize>)
    ensures
        r matches Some(i) ==> i < frags.len(),
        match r {
            Some(i) => first_missing(text@, frags@.map_values(|s: String| s@)) == Some(i as int),
            None => first_missing(text@, frags@.map_values(|s: String| s@)) is None,
        },
{
    let ghost fv = frags@.map_values(|s: String| s@);
    let ghost p = |f: Seq<char>| !contains_seq(text@, f);
    let hay = chars_of(text);
    let mut i: usize = 0;
    assert(fv.take(0) =~= Seq::<Seq<char>>::empty());
    while i < frags.len()
        invariant
            i <= frags.len(),
            hay@ == text@,
            fv == frags@.map_values(|s: String| s@),
            p == (|f: Seq<char>| !contains_seq(text@, f)),
            first_index_where(fv.take(i as int), p) is None,
        decreases frags.len() - i,
    {
        proof { lemma_first_index_step(fv, p, i as int); }
        if !contains_text(&hay, frags[i].as_str()) {
            proof { lemma_first_index_where(fv, p, i + 1); }
            return Some(i);
        }
        i = i + 1;
    }
    assert(fv.take(i as int) =~= fv);
    None
}

/// What `String::from_utf8_lossy` makes of some bytes.
pub uninterp spec fn lossy_text(bytes: Seq<u8>) -> Seq<char>;

/// `String::from_utf8_lossy`, made owned. std documents that valid UTF-8 comes
/// back as the text it encodes; how invalid sequences are replaced is left to
/// the name.
#[verifier::external_body]
fn utf8_lossy(bytes: &Vec<u8>) -> (r: String)
    ensures
        r@ == lossy_text(bytes@),
        valid_utf8(bytes@) ==> r@ == decode_utf8(bytes@),
{
    String::from_utf8_lossy(bytes).into_owned()
}

/// Why an output stream fails its expectation, if it does: it must equal the
/// expected text, and then contain every fragment. Without an expected text
/// the stream is not judged.
pub open spec fn stream_failure(
    actual: Seq<char>,
    expected: Option<Seq<char>>,
    contains: Seq<Seq<char>>,
    stream_type: Seq<char>,
) -> Option<Seq<char>> {
    match expected {
        None => None,
        Some(e) => if actual != e {
            Some(stream_type + " did not match expected output"@)
        } else {
            match first_missing(actual, contains) {
                Some(i) => Some(stream_type + " did not contain expected fragment '"@ + contains[i] + "'"@),
                None => None,
            }
        },
    }
}

/// A stream with an expected text passes exactly when it equals that text
/// and contains every fragment; a stream without one is not judged.
pub proof fn law_stream_judged(
    actual: Seq<char>,
    expected: Option<Seq<char>>,
    contains: Seq<Seq<char>>,
    stream_type: Seq<char>,
)
    ensures
        (stream_failure(actual, expected, contains, stream_type) is None) == (expected is Some ==> (actual
            == expected->Some_0 && forall|i: int| 0 <= i < contains.len() ==> contains_seq(actual, #[trigger] contains[i]))),
        expected is Some && actual != expected->Some_0 ==> stream_failure(actual, expected, contains, stream_type)
            == Some(stream_type + " did not match expected output"@),
{
    law_all_fragments_found(actual, contains);
}

/// No fragment is missing from a text exactly when the text contains each
/// one; a missing one is the first fragment the text lacks.
pub proof fn law_all_fragments_found(text: Seq<char>, frags: Seq<Seq<char>>)
    ensures
        (first_missing(text, frags) is None) == (forall|i: int| 0 <= i < frags.len() ==> contains_seq(text, #[trigger] frags[i])),
        first_missing(text, frags) matches Some(k) ==> 0 <= k < frags.len() && !contains_seq(text, frags[k])
            && forall|j: int| 0 <= j < k ==> contains_seq(text, #[trigger] frags[j]),
{
    let p = |f: Seq<char>| !contains_seq(text, f);
    lemma_first_index_where(frags, p, 0);
    if first_missing(text, frags) is None {
        assert forall|i: int| 0 <= i < frags.len() implies contains_seq(text, #[trigger] frags[i]) by {
            assert(!p(frags[i]));
        }
    } else {
        let k = first_missing(text, frags)->Some_0;
        assert(p(frags[k]));
        assert forall|j: int| 0 <= j < k implies contains_seq(text, #[trigger] frags[j]) by {
            assert(!p(frags[j]));
        }
    }
}

/// Judges an output stream against its expected text and fragments.
pub fn stream_matches(
    stream: &Vec<u8>,
    expected_match: Option<&String>,
    contains: &[String],
    stream_type: &str,
) -> (r: CheckStatus)
    ensures
        r.failure() == stream_failure(
            lossy_text(stream@),
            match expected_match {
                Some(e) => Some(e@),
                None => None,
            },
            contains@.map_values(|s: String| s@),
            stream_type@,
        ),
        expected_match is Some && valid_utf8(stream@) ==> lossy_text(stream@) == decode_utf8(stream@),
{
    if let Some(expected_match) = expected_match {
        let actual = utf8_lossy(stream);
        if actual != *expected_match {
            let mut reason = String::from_str(stream_type);
            reason.append(" did not match expected output");
            return CheckStatus::Fail { reason };
        }
        match find_missing_fragment(actual.as_str(), contains) {
            Some(i) => {
                let mut reason = String::from_str(stream_type);
                reason.append(" did not contain expected fragment '");
                reason.append(contains[i].as_str());
                reason.append("'");
                return CheckStatus::Fail { reason };
            },
            None => {},
        }
    }
    CheckStatus::Success
}

// ----- plain diffs of expected and actual text -----

/// A named text to compare.
#[derive(Debug)]
pub struct DiffInput<'a> {
    pub name: &'a str,
    pub content: &'a str,
}

impl<'a> DiffInput<'a> {
    /// A text to compare, under the name shown in the diff header.
    pub fn new(name: &'a str, content: &'a str) -> (r: Self)
        ensures
            r.name@ == name@,
            r.content@ == content@,
    {
        Self { name, content }
    }
}

/// The lines shown for a plain diff of expected and actual text: a header for
/// each, then every entry numbered with no padding.
pub open spec fn string_diff_lines(
    expected_name: Seq<char>,
    expected: Seq<char>,
    actual_name: Seq<char>,
    actual: Seq<char>,
) -> Seq<Seq<char>> {
    seq!["---- expected: "@ + expected_name, "++++ actual: "@ + actual_name] + entry_lines(
        line_diff_entries(expected, actual),
        "  "@,
        1,
    )
}

/// Compares expected and actual text line by line: `Same` exactly when they
/// are equal, else the rendered diff, each line ended by a line feed.
pub fn string_diff(expected: &DiffInput, actual: &DiffInput) -> (d: Diff)
    ensures
        (d is Same) == (expected.content@ == actual.content@),
        d matches Diff::Diff(t) ==> t@ == joined_lines(
            string_diff_lines(expected.name@, expected.content@, actual.name@, actual.content@),
        ),
        d is Diff ==> left_side(line_diff_entries(expected.content@, actual.content@)) == diff_input_lines(
            expected.content@,
        ),
        d is Diff ==> right_side(line_diff_entries(expected.content@, actual.content@)) == diff_input_lines(
            actual.content@,
        ),
{
    if same_text(expected.content, actual.content) {
        return Diff::Same;
    }
    let entries = diff_lines(expected.content, actual.content);
    let body = render_entries(&entries, "  ", 1);
    let mut lines: Vec<String> = Vec::new();
    let mut h1 = String::from_str("---- expected: ");
    h1.append(expected.name);
    let mut h2 = String::from_str("++++ actual: ");
    h2.append(actual.name);
    lines.push(h1);
    lines.push(h2);
    let ghost head = lines.deep_view();
    assert(head =~= seq!["---- expected: "@ + expected.name@, "++++ actual: "@ + actual.name@]) by {
        assert(head[0] == lines@[0]@);
        assert(head[1] == lines@[1]@);
    }
    let ghost bv = body.deep_view();
    let mut i: usize = 0;
    while i < body.len()
        invariant
            i <= body.len(),
            lines.len() == 2 + i,
            head.len() == 2,
            bv == body.deep_view(),
            forall|k: int| 0 <= k < 2 ==> (#[trigger] lines@[k])@ == head[k],
            forall|k: int| 0 <= k < i ==> (#[trigger] lines@[k + 2])@ == bv[k],
        decreases body.len() - i,
    {
        let line = body[i].clone();
        lines.push(line);
        assert(lines@[i + 2]@ == bv[i as int]);
        i = i + 1;
    }
    assert(lines.deep_view() =~= head + bv) by {
        assert forall|k: int| 0 <= k < lines.len() implies lines.deep_view()[k] == (head + bv)[k] by {
            assert(lines.deep_view()[k] == lines@[k]@);
            if k >= 2 {
                assert(lines@[(k - 2) + 2]@ == bv[k - 2]);
            }
        }
    }
    Diff::Diff(join_lines(&lines))
}


// ----- the checks -----

/// A check on the outcome of a run.
#[derive(Debug)]
#[allow(inconsistent_fields)]
pub enum CheckType {
    /// A file exists; it may have to hold given contents, match a rendered
    /// template and contain fragments.
    File { path: String, contains: Vec<String>, template: Option<String>, contents: Option<String> },
    /// A directory exists and has the given children.
    Directory { path: String, children: Vec<String> },
    /// A command exits with a code and prints the expected streams.
    Command {
        cmd: String,
        code: i32,
        expected_stdout: Option<String>,
        expected_stderr: Option<String>,
        stdout_contains: Vec<String>,
        stderr_contains: Vec<String>,
    },
    /// An HTTP request gets a response (not judged by this library).
    Http { method: String, code: u16, url: String, body_contains: Vec<String>, expected_body: Option<String> },
    /// A variable is set, and to a value when one is given.
    VarSet { key: String, value: Option<String> },
}

// ----- directories -----

/// The first expected child that the listing lacks.
pub open spec fn first_absent(listing: Seq<Seq<char>>, children: Seq<Seq<char>>) -> Option<int> {
    first_index_where(children, |c: Seq<char>| !listing.contains(c))
}

/// Why a directory check fails, if it does.
pub open spec fn directory_failure(
    path: Seq<char>,
    is_dir: bool,
    listing: Option<Seq<Seq<char>>>,
    children: Seq<Seq<char>>,
) -> Option<Seq<char>> {
    if !is_dir {
        Some("Missing directory: "@ + path)
    } else {
        match listing {
            None => Some("Unable to read directory "@ + path),
            Some(l) => match first_absent(l, children) {
                Some(i) => Some("Expected child "@ + children[i] + " of "@ + path + " does not exist"@),
                None => None,
            },
        }
    }
}

/// Only the expected children are checked: a directory that passes its check
/// still passes with more entries in it.
pub proof fn law_extra_entries_allowed(
    path: Seq<char>,
    listing: Seq<Seq<char>>,
    extra: Seq<Seq<char>>,
    children: Seq<Seq<char>>,
)
    requires
        directory_failure(path, true, Some(listing), children) is None,
    ensures
        directory_failure(path, true, Some(listing + extra), children) is None,
{
    let p = |c: Seq<char>| !listing.contains(c);
    let q = |c: Seq<char>| !(listing + extra).contains(c);
    lemma_first_index_where(children, p, 0);
    lemma_first_index_where(children, q, 0);
    if first_index_where(children, q) is Some {
        let i = first_index_where(children, q)->Some_0;
        assert(!p(children[i]));
        let j = choose|j: int| 0 <= j < listing.len() && listing[j] == children[i];
        assert((listing + extra)[j] == children[i]);
    }
}

fn listing_has(listing: &Vec<String>, name: &String) -> (r: bool)
    ensures
        r == listing.deep_view().contains(name@),
{
    let mut i: usize = 0;
    while i < listing.len()
        invariant
            i <= listing.len(),
            forall|j: int| 0 <= j < i ==> listing.deep_view()[j] != name@,
        decreases listing.len() - i,
    {
        if listing[i] == *name {
            assert(listing.deep_view()[i as int] == name@);
            return true;
        }
        assert(listing.deep_view()[i as int] == listing@[i as int]@);
        i = i + 1;
    }
    false
}

/// Judges a directory check from whether the path is a directory and the
/// names of its entries (`None` when it could not be read). Unlisted entries
/// are allowed; every expected child must be listed.
pub fn directory_check_status(
    path: &String,
    is_dir: bool,
    listing: &Option<Vec<String>>,
    children: &Vec<String>,
) -> (r: CheckStatus)
    ensures
        r.failure() == directory_failure(path@, is_dir, listing.deep_view(), children.deep_view()),
{
    if !is_dir {
        let mut reason = String::from_str("Missing directory: ");
        reason.append(path.as_str());
        return CheckStatus::Fail { reason };
    }
    match listing {
        None => {
            let mut reason = String::from_str("Unable to read directory ");
            reason.append(path.as_str());
            CheckStatus::Fail { reason }
        },
        Some(l) => {
            assert(listing.deep_view() == Some(l.deep_view()));
            let ghost cv = children.deep_view();
            let ghost p = |c: Seq<char>| !l.deep_view().contains(c);
            let mut i: usize = 0;
            assert(cv.take(0) =~= Seq::<Seq<char>>::empty());
            while i < children.len()
                invariant
                    i <= children.len(),
                    cv == children.deep_view(),
                    is_dir,
                    listing.deep_view() == Some(l.deep_view()),
                    p == (|c: Seq<char>| !l.deep_view().contains(c)),
                    first_index_where(cv.take(i as int), p) is None,
                decreases children.len() - i,
            {
                proof { lemma_first_index_step(cv, p, i as int); }
                assert(cv[i as int] == children@[i as int]@);
                if !listing_has(l, &children[i]) {
                    proof { lemma_first_index_where(cv, p, i + 1); }
                    assert(first_absent(l.deep_view(), cv) == Some(i as int));
                    let mut reason = String::from_str("Expected child ");
                    reason.append(children[i].as_str());
                    reason.append(" of ");
                    reason.append(path.as_str());
                    reason.append(" does not exist");
                    return CheckStatus::Fail { reason };
                }
                i = i + 1;
            }
            assert(cv.take(i as int) =~= cv);
            CheckStatus::Success
        },
    }
}

// ----- variables -----

/// No two variables have the same name: the variables form a map from names
/// to values.
pub open spec fn distinct_names(vars: Seq<(Seq<char>, Seq<char>)>) -> bool {
    forall|i: int, j: int| 0 <= i < j < vars.len() ==> vars[i].0 != vars[j].0
}

/// The value of the variable named `key` (with distinct names, the only one).
pub open spec fn lookup_var(vars: Seq<(Seq<char>, Seq<char>)>, key: Seq<char>) -> Option<Seq<char>> {
    match first_index_where(vars, |v: (Seq<char>, Seq<char>)| v.0 == key) {
        Some(i) => Some(vars[i].1),
        None => None,
    }
}

/// Why a variable check fails, if it does.
pub open spec fn var_failure(
    key: Seq<char>,
    value: Option<Seq<char>>,
    vars: Seq<(Seq<char>, Seq<char>)>,
) -> Option<Seq<char>> {
    match (value, lookup_var(vars, key)) {
        (_, None) => Some("Variable '"@ + key + "' not set"@),
        (Some(v), Some(a)) => if a != v {
            Some("Variable '"@ + key + "' did not match expected value '"@ + v + "' (was '"@ + a + "')"@)
        } else {
            None
        },
        (None, Some(_)) => None,
    }
}

/// The value of the variable named `key`.
pub fn find_var<'a>(vars: &'a Vec<(String, String)>, key: &String) -> (r: Option<&'a String>)
    requires
        distinct_names(vars.deep_view()),
    ensures
        match r {
            Some(v) => lookup_var(vars.deep_view(), key@) == Some(v@),
            None => lookup_var(vars.deep_view(), key@) is None,
        },
{
    let ghost vv = vars.deep_view();
    let ghost p = |v: (Seq<char>, Seq<char>)| v.0 == key@;
    let mut i: usize = 0;
    assert(vv.take(0) =~= Seq::<(Seq<char>, Seq<char>)>::empty());
    while i < vars.len()
        invariant
            i <= vars.len(),
            vv == vars.deep_view(),
            p == (|v: (Seq<char>, Seq<char>)| v.0 == key@),
            first_index_where(vv.take(i as int), p) is None,
        decreases vars.len() - i,
    {
        proof { lemma_first_index_step(vv, p, i as int); }
        assert(vv[i as int] == (vars@[i as int].0@, vars@[i as int].1@));
        if vars[i].0 == *key {
            proof { lemma_first_index_where(vv, p, i + 1); }
            return Some(&vars[i].1);
        }
        i = i + 1;
    }
    assert(vv.take(i as int) =~= vv);
    None
}

/// Judges a variable check against the variables of the run, given as
/// name-value pairs with distinct names.
pub fn var_check_status(key: &String, value: &Option<String>, vars: &Vec<(String, String)>) -> (r: CheckStatus)
    requires
        distinct_names(vars.deep_view()),
    ensures
        r.failure() == var_failure(key@, value.deep_view(), vars.deep_view()),
{
    match find_var(vars, key) {
        None => {
            let mut reason = String::from_str("Variable '");
            reason.append(key.as_str());
            reason.append("' not set");
            CheckStatus::Fail { reason }
        },
        Some(actual) => match value {
            Some(v) => {
                if *actual != *v {
                    let mut reason = String::from_str("Variable '");
                    reason.append(key.as_str());
                    reason.append("' did not match expected value '");
                    reason.append(v.as_str());
                    reason.append("' (was '");
                    reason.append(actual.as_str());
                    reason.append("')");
                    CheckStatus::Fail { reason }
                } else {
                    CheckStatus::Success
                }
            },
            None => CheckStatus::Success,
        },
    }
}


// ----- commands -----

/// What a command left behind: its exit code (`None` when a signal ended it)
/// and its raw output streams.
#[derive(Debug)]
pub struct CommandOutput {
    pub code: Option<i32>,
    pub stdout: Vec<u8>,
    pub stderr: Vec<u8>,
}

/// Why a command check fails, if it does: the command must have run, exited
/// with the expected code, and printed what stdout and then stderr expect.
pub open spec fn command_failure(
    cmd: Seq<char>,
    code: i32,
    expected_stdout: Option<Seq<char>>,
    expected_stderr: Option<Seq<char>>,
    stdout_contains: Seq<Seq<char>>,
    stderr_contains: Seq<Seq<char>>,
    run: Result<CommandOutput, String>,
) -> Option<Seq<char>> {
    match run {
        Err(e) => Some("Command did not run successfully: "@ + e@),
        Ok(o) => if o.code != Some(code) {
            Some("Command "@ + cmd + " exited with unexpected code"@)
        } else {
            let f = stream_failure(lossy_text(o.stdout@), expected_stdout, stdout_contains, "stdout"@);
            if f is Some {
                f
            } else {
                stream_failure(lossy_text(o.stderr@), expected_stderr, stderr_contains, "stderr"@)
            }
        },
    }
}

/// Judges a command check from the outcome of running the command (`Err` with
/// the error's text when it could not be run).
pub fn command_check_status(
    cmd: &String,
    code: i32,
    expected_stdout: &Option<String>,
    expected_stderr: &Option<String>,
    stdout_contains: &Vec<String>,
    stderr_contains: &Vec<String>,
    run: &Result<CommandOutput, String>,
) -> (r: CheckStatus)
    ensures
        r.failure() == command_failure(
            cmd@,
            code,
            expected_stdout.deep_view(),
            expected_stderr.deep_view(),
            stdout_contains@.map_values(|s: String| s@),
            stderr_contains@.map_values(|s: String| s@),
            *run,
        ),
        run matches Ok(o) ==> (o.code == Some(code) && expected_stdout is Some && valid_utf8(o.stdout@)
            ==> lossy_text(o.stdout@) == decode_utf8(o.stdout@)),
        run matches Ok(o) ==> (o.code == Some(code) && stream_failure(
            lossy_text(o.stdout@),
            expected_stdout.deep_view(),
            stdout_contains@.map_values(|s: String| s@),
            "stdout"@,
        ) is None && expected_stderr is Some && valid_utf8(o.stderr@) ==> lossy_text(o.stderr@) == decode_utf8(
            o.stderr@,
        )),
{
    match run {
        Err(e) => {
            let mut reason = String::from_str("Command did not run successfully: ");
            reason.append(e.as_str());
            CheckStatus::Fail { reason }
        },
        Ok(o) => {
            let code_matches = match o.code {
                Some(c) => c == code,
                None => false,
            };
            if !code_matches {
                let mut reason = String::from_str("Command ");
                reason.append(cmd.as_str());
                reason.append(" exited with unexpected code");
                return CheckStatus::Fail { reason };
            }
            let out = stream_matches(&o.stdout, expected_stdout.as_ref(), stdout_contains.as_slice(), "stdout");
            match out {
                CheckStatus::Fail { reason } => CheckStatus::Fail { reason },
                CheckStatus::Success => stream_matches(
                    &o.stderr,
                    expected_stderr.as_ref(),
                    stderr_contains.as_slice(),
                    "stderr",
                ),
            }
        },
    }
}

/// A command check passes exactly when the command ran, exited with the
/// expected code, and both stdout and stderr pass their own expectations;
/// stdout is judged first, and stderr is judged whenever stdout passes.
pub proof fn law_command_check_passes(
    cmd: Seq<char>,
    code: i32,
    expected_stdout: Option<Seq<char>>,
    expected_stderr: Option<Seq<char>>,
    stdout_contains: Seq<Seq<char>>,
    stderr_contains: Seq<Seq<char>>,
    run: Result<CommandOutput, String>,
)
    ensures
        (command_failure(cmd, code, expected_stdout, expected_stderr, stdout_contains, stderr_contains, run) is None)
            == (run is Ok && run->Ok_0.code == Some(code) && stream_failure(
            lossy_text(run->Ok_0.stdout@),
            expected_stdout,
            stdout_contains,
            "stdout"@,
        ) is None && stream_failure(lossy_text(run->Ok_0.stderr@), expected_stderr, stderr_contains, "stderr"@)
            is None),
        run is Ok && run->Ok_0.code == Some(code) && stream_failure(
            lossy_text(run->Ok_0.stdout@),
            expected_stdout,
            stdout_contains,
            "stdout"@,
        ) is None ==> command_failure(cmd, code, expected_stdout, expected_stderr, stdout_contains, stderr_contains, run)
            == stream_failure(lossy_text(run->Ok_0.stderr@), expected_stderr, stderr_contains, "stderr"@),
        run is Ok && run->Ok_0.code == Some(code) && stream_failure(
            lossy_text(run->Ok_0.stdout@),
            expected_stdout,
            stdout_contains,
            "stdout"@,
        ) is Some ==> command_failure(cmd, code, expected_stdout, expected_stderr, stdout_contains, stderr_contains, run)
            == stream_failure(lossy_text(run->Ok_0.stdout@), expected_stdout, stdout_contains, "stdout"@),
        run is Ok && run->Ok_0.code != Some(code) ==> command_failure(
            cmd,
            code,
            expected_stdout,
            expected_stderr,
            stdout_contains,
            stderr_contains,
            run,
        ) == Some("Command "@ + cmd + " exited with unexpected code"@),
        run is Err ==> command_failure(cmd, code, expected_stdout, expected_stderr, stdout_contains, stderr_contains, run)
            is Some,
{
}

/// What `shlex::split` returns for a command line.
pub uninterp spec fn shlex_words(cmd: Seq<char>) -> Option<Seq<Seq<char>>>;

/// `shlex::split`: the words of a command line under shell quoting rules, or
/// `None` when the quoting is unbalanced. Only its naming by `shlex_words` is
/// claimed; the quoting rules are left to the name.
#[verifier::external_body]
fn shlex_split(cmd: &str) -> (r: Option<Vec<String>>)
    ensures
        r.deep_view() == shlex_words(cmd@),
{
    shlex::split(cmd)
}

/// The program and arguments of a command made of `words`, or the error for
/// an empty command.
pub open spec fn command_parts_spec(words: Seq<Seq<char>>, cmd: Seq<char>) -> Result<
    (Seq<char>, Seq<Seq<char>>),
    Seq<char>,
> {
    if words.len() == 0 {
        Err("Unable to parse command "@ + cmd)
    } else {
        Ok((words[0], words.drop_first()))
    }
}

/// A split command by the text of its parts.
pub open spec fn parts_view(r: Result<(String, Vec<String>), String>) -> Result<(Seq<char>, Seq<Seq<char>>), Seq<char>> {
    match r {
        Ok((e, a)) => Ok((e@, a.deep_view())),
        Err(m) => Err(m@),
    }
}

/// Splits the words of the command `cmd` into its program and its arguments.
pub fn command_parts(words: Vec<String>, cmd: &str) -> (r: Result<(String, Vec<String>), String>)
    ensures
        parts_view(r) == command_parts_spec(words.deep_view(), cmd@),
{
    if words.len() == 0 {
        let mut m = String::from_str("Unable to parse command ");
        m.append(cmd);
        return Err(m);
    }
    let ghost wv = words.deep_view();
    let ghost ws = words@;
    let mut args = words;
    let exec = args.remove(0);
    assert(args.deep_view() =~= wv.drop_first()) by {
        assert forall|k: int| 0 <= k < args.len() implies args.deep_view()[k] == wv.drop_first()[k] by {
            assert(args@[k] == ws[k + 1]);
            assert(wv[k + 1] == ws[k + 1]@);
        }
    }
    assert(exec@ == wv[0]);
    Ok((exec, args))
}


/// Splits a command line into its program and arguments under shell quoting
/// rules. `None` when `shlex` cannot split it (unbalanced quoting); otherwise
/// the program and its arguments, or the error for an empty command.
pub fn split_command(cmd: &str) -> (r: Option<Result<(String, Vec<String>), String>>)
    ensures
        (r is None) == (shlex_words(cmd@) is None),
        r matches Some(p) ==> parts_view(p) == command_parts_spec(shlex_words(cmd@)->Some_0, cmd@),
{
    match shlex_split(cmd) {
        None => None,
        Some(words) => Some(command_parts(words, cmd)),
    }
}


// ----- files -----

/// The outcome of reading a checked file.
#[derive(Debug)]
pub enum FileRead {
    /// The path is not a file.
    Missing,
    /// The file could not be read as text.
    Unreadable,
    /// The file's text.
    Contents(String),
}

/// Why a read cannot be checked further, if it cannot.
pub open spec fn read_failure(path: Seq<char>, full: Seq<char>, r: FileRead) -> Option<Seq<char>> {
    match r {
        FileRead::Missing => Some("Missing file "@ + path),
        FileRead::Unreadable => Some("Unable to read file "@ + full),
        FileRead::Contents(_) => None,
    }
}

/// What has been observed of a checked file so far: the first read, the read
/// made again before a template is compared, and the rendered template.
#[derive(Debug)]
pub struct FileObservations {
    pub first: FileRead,
    pub second: Option<FileRead>,
    pub rendered: Option<String>,
}

/// The next step of a file check: its verdict with the diff to show (if
/// any), or the observation that must be made next.
#[derive(Debug)]
pub enum FileStep {
    Finished { status: CheckStatus, shown: Diff },
    ReadAgain,
    RenderTemplate,
}

/// A file-check step by its failure reason and shown diff text.
pub enum FileVerdict {
    Finished(Option<Seq<char>>, Option<Seq<char>>),
    ReadAgain,
    RenderTemplate,
}

impl FileStep {
    pub open spec fn verdict(self) -> FileVerdict {
        match self {
            FileStep::Finished { status, shown } => FileVerdict::Finished(
                status.failure(),
                match shown {
                    Diff::Same => None,
                    Diff::Diff(t) => Some(t@),
                },
            ),
            FileStep::ReadAgain => FileVerdict::ReadAgain,
            FileStep::RenderTemplate => FileVerdict::RenderTemplate,
        }
    }
}

/// The verdict on the fragments that a file must contain.
pub open spec fn fragments_verdict(path: Seq<char>, text: Seq<char>, contains: Seq<Seq<char>>) -> FileVerdict {
    FileVerdict::Finished(
        match first_missing(text, contains) {
            Some(i) => Some(path + "  did not contain expected fragment '"@ + contains[i] + "'"@),
            None => None,
        },
        None,
    )
}

/// The next step of a file check, in order: the file must exist and be
/// readable; match the expected contents; after a second read, match the
/// rendered template; and contain every fragment. A failed comparison shows
/// its diff.
pub open spec fn file_verdict(
    path: Seq<char>,
    full: Seq<char>,
    contains: Seq<Seq<char>>,
    has_template: bool,
    contents: Option<Seq<char>>,
    obs: FileObservations,
) -> FileVerdict {
    match obs.first {
        FileRead::Contents(a) => {
            let a = a@;
            if contents is Some && contents->Some_0 != a {
                FileVerdict::Finished(
                    Some("File contents do not match expected contents"@),
                    Some(joined_lines(string_diff_lines("Expected"@, contents->Some_0, "Actual"@, a))),
                )
            } else if !has_template {
                fragments_verdict(path, a, contains)
            } else {
                match obs.second {
                    None => FileVerdict::ReadAgain,
                    Some(FileRead::Contents(b)) => match obs.rendered {
                        None => FileVerdict::RenderTemplate,
                        Some(x) => if x@ != b@ {
                            FileVerdict::Finished(
                                Some("File contents do not match rendered template"@),
                                Some(joined_lines(string_diff_lines("Template"@, x@, "Actual"@, b@))),
                            )
                        } else {
                            fragments_verdict(path, a, contains)
                        },
                    },
                    Some(second) => FileVerdict::Finished(read_failure(path, full, second), None),
                }
            }
        },
        first => FileVerdict::Finished(read_failure(path, full, first), None),
    }
}

/// A file check finishes with success exactly when the file was read, its
/// text equals the expected contents (if any), the file read again equals the
/// rendered template (if there is a template), and the first text contains
/// every fragment, whether or not a template was given. A success shows no
/// diff.
pub proof fn law_file_check_passes(
    path: Seq<char>,
    full: Seq<char>,
    contains: Seq<Seq<char>>,
    has_template: bool,
    contents: Option<Seq<char>>,
    obs: FileObservations,
)
    ensures
        (file_verdict(path, full, contains, has_template, contents, obs) matches FileVerdict::Finished(None, _)) == (
        obs.first is Contents && (contents is Some ==> contents->Some_0 == obs.first->Contents_0@) && (has_template
            ==> (obs.second matches Some(FileRead::Contents(b)) && obs.rendered is Some && obs.rendered->Some_0@
            == b@)) && forall|i: int| 0 <= i < contains.len() ==> contains_seq(obs.first->Contents_0@, #[trigger] contains[i])),
        file_verdict(path, full, contains, has_template, contents, obs) matches FileVerdict::Finished(None, d) ==> d is None,
        obs.first matches FileRead::Contents(a) && (contents is Some ==> contents->Some_0 == a@) && first_missing(
            a@,
            contains,
        ) is Some ==> file_verdict(path, full, contains, has_template, contents, obs) matches FileVerdict::Finished(
            Some(_),
            _,
        ) || file_verdict(path, full, contains, has_template, contents, obs) is ReadAgain || file_verdict(
            path,
            full,
            contains,
            has_template,
            contents,
            obs,
        ) is RenderTemplate,
{
    if let FileRead::Contents(a) = obs.first {
        law_all_fragments_found(a@, contains);
    }
}

fn read_failure_status(path: &String, full_display: &String, r: &FileRead) -> (s: CheckStatus)
    requires
        !(r is Contents),
    ensures
        s.failure() == read_failure(path@, full_display@, *r),
{
    match r {
        FileRead::Missing => {
            let mut reason = String::from_str("Missing file ");
            reason.append(path.as_str());
            CheckStatus::Fail { reason }
        },
        _ => {
            let mut reason = String::from_str("Unable to read file ");
            reason.append(full_display.as_str());
            CheckStatus::Fail { reason }
        },
    }
}

fn fragments_step(path: &String, text: &String, contains: &Vec<String>) -> (r: FileStep)
    ensures
        r.verdict() == fragments_verdict(path@, text@, contains@.map_values(|s: String| s@)),
{
    match find_missing_fragment(text.as_str(), contains.as_slice()) {
        Some(i) => {
            let mut reason = path.clone();
            reason.append("  did not contain expected fragment '");
            reason.append(contains[i].as_str());
            reason.append("'");
            FileStep::Finished { status: CheckStatus::Fail { reason }, shown: Diff::Same }
        },
        None => FileStep::Finished { status: CheckStatus::Success, shown: Diff::Same },
    }
}

/// The next step of a file check, given what has been observed so far. The
/// caller makes the observation asked for (`ReadAgain`, `RenderTemplate`) and
/// asks again, until the check is finished.
pub fn file_check_step(
    path: &String,
    full_display: &String,
    contains: &Vec<String>,
    template: &Option<String>,
    contents: &Option<String>,
    obs: &FileObservations,
) -> (r: FileStep)
    ensures
        r.verdict() == file_verdict(
            path@,
            full_display@,
            contains@.map_values(|s: String| s@),
            template is Some,
            contents.deep_view(),
            *obs,
        ),
{
    let actual = match &obs.first {
        FileRead::Contents(a) => a,
        first => {
            let status = read_failure_status(path, full_display, first);
            return FileStep::Finished { status, shown: Diff::Same };
        },
    };
    if let Some(expected_contents) = contents {
        let expected = DiffInput::new("Expected", expected_contents.as_str());
        let got = DiffInput::new("Actual", actual.as_str());
        let d = string_diff(&expected, &got);
        if let Diff::Diff(_) = d {
            let status = CheckStatus::Fail {
                reason: String::from_str("File contents do not match expected contents"),
            };
            return FileStep::Finished { status, shown: d };
        }
    }
    if template.is_none() {
        return fragments_step(path, actual, contains);
    }
    let second = match &obs.second {
        None => {
            return FileStep::ReadAgain;
        },
        Some(FileRead::Contents(b)) => b,
        Some(second) => {
            let status = read_failure_status(path, full_display, second);
            return FileStep::Finished { status, shown: Diff::Same };
        },
    };
    let rendered = match &obs.rendered {
        None => {
            return FileStep::RenderTemplate;
        },
        Some(x) => x,
    };
    let expected = DiffInput::new("Template", rendered.as_str());
    let got = DiffInput::new("Actual", second.as_str());
    let d = string_diff(&expected, &got);
    if let Diff::Diff(_) = d {
        let status = CheckStatus::Fail {
            reason: String::from_str("File contents do not match rendered template"),
        };
        return FileStep::Finished { status, shown: d };
    }
    fragments_step(path, actual, contains)
}

} // verus!
