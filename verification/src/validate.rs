//! The shape a python executable's `--version` report must have: the first
//! line of whichever stream spoke, trimmed, beginning with `Python `.
use crate::listing::first_marker;
use crate::listing::split_once_at;
use crate::textutil::str_eq;
use crate::textutil::trim_str;
use crate::textutil::trimmed_of;
use vstd::prelude::*;

verus! {

/// The stream the version is read from: standard output when it said
/// anything, else standard error.
pub open spec fn version_source(stdout: Seq<char>, stderr: Seq<char>) -> Seq<char> {
    if stdout.len() > 0 {
        stdout
    } else {
        stderr
    }
}

/// The first line of a text: everything before the first newline, or all of
/// it.
pub open spec fn head_line(s: Seq<char>) -> Seq<char> {
    match first_marker(s, "\n"@) {
        Some(i) => s.take(i),
        None => s,
    }
}

/// The version line a valid python reported: the trimmed first line of its
/// output, when it begins with `Python `.
pub open spec fn python_version_of(stdout: Seq<char>, stderr: Seq<char>) -> Option<Seq<char>> {
    let t = trimmed_of(head_line(version_source(stdout, stderr)));
    if t.len() >= 7 && t.subrange(0, 7) == "Python "@ {
        Some(t)
    } else {
        None
    }
}

/// Extract the version line from a `--version` run's two streams, or
/// nothing when the output is not a python version report.
pub fn python_version_line(stdout: &str, stderr: &str) -> (r: Option<String>)
    ensures
        python_version_of(stdout@, stderr@) matches Some(v) ==> (r matches Some(rv) && rv@ == v),
        python_version_of(stdout@, stderr@) is None ==> r is None,
{
    let source: &str = if stdout.unicode_len() > 0 {
        stdout
    } else {
        stderr
    };
    let line: String = match split_once_at(source, "\n") {
        Some(parts) => parts.0,
        None => source.to_owned(),
    };
    let trimmed = trim_str(line.as_str());
    let len: usize = trimmed.unicode_len();
    if len >= 7 {
        let prefix = trimmed.substring_char(0, 7);
        if str_eq(prefix, "Python ") {
            return Some(trimmed.to_owned());
        }
    }
    None
}

} // verus!
