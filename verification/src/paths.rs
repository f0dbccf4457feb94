//! Paths as text: joining a file name onto a directory, and naming a file
//! relative to the working directory.
use vstd::prelude::*;

verus! {

/// `dir` joined with `name`, as `Path::join` does: an absolute `name` (one
/// that starts with `/`) replaces `dir`; otherwise a separator goes between
/// them unless `dir` is empty or already ends in one.
pub open spec fn joined_path(dir: Seq<char>, name: Seq<char>) -> Seq<char> {
    if name.len() > 0 && name[0] == '/' {
        name
    } else if dir.len() == 0 {
        name
    } else if dir.last() == '/' {
        dir + name
    } else {
        dir + seq!['/'] + name
    }
}

/// Joins the file name `name` onto the directory `dir`.
pub fn join_path(dir: &str, name: &str) -> (r: String)
    ensures
        r@ == joined_path(dir@, name@),
{
    if name.unicode_len() > 0 && name.get_char(0) == '/' {
        return String::from_str(name);
    }
    let n = dir.unicode_len();
    let mut r = String::from_str(dir);
    if n > 0 && dir.get_char(n - 1) != '/' {
        proof { reveal_strlit("/"); }
        r.append("/");
    }
    r.append(name);
    r
}

/// What `pathdiff::diff_paths` returns for two paths, as text.
pub uninterp spec fn relative_path(path: Seq<char>, base: Seq<char>) -> Option<Seq<char>>;

/// `pathdiff::diff_paths`, with both paths given as text and the result shown
/// as `Path::display` shows it. Only its naming by `relative_path` is claimed:
/// the walk over path components that decides the result is left to the name.
#[verifier::external_body]
fn diff_paths(path: &str, base: &str) -> (r: Option<String>)
    ensures
        r.deep_view() == relative_path(path@, base@),
{
    pathdiff::diff_paths(path, base).map(|p| p.display().to_string())
}

/// The name shown for a file: `./` and its path relative to the working
/// directory when there is one, else the path as it is.
pub open spec fn shown_name(relative: Option<Seq<char>>, path: Seq<char>) -> Seq<char> {
    match relative {
        Some(p) => seq!['.', '/'] + p,
        None => path,
    }
}

/// The name shown for `path`, given its path relative to the working directory.
pub fn shown_path(relative: Option<String>, path: &str) -> (r: String)
    ensures
        r@ == shown_name(relative.deep_view(), path@),
{
    match relative {
        Some(p) => {
            proof { reveal_strlit("./"); }
            let mut r = String::from_str("./");
            r.append(p.as_str());
            r
        },
        None => String::from_str(path),
    }
}

/// The name under which a file is shown: relative to `cwd` when `pathdiff`
/// can express it so, else the path itself.
pub fn display_name(path: &str, cwd: &str) -> (r: String)
    ensures
        r@ == shown_name(relative_path(path@, cwd@), path@),
{
    let relative = diff_paths(path, cwd);
    shown_path(relative, path)
}

} // verus!
