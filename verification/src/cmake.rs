//! What is read from the build description of a project: where it lies
//! and the name it declares.

use vstd::prelude::*;
use vstd::string::StrSliceExecFns;
use vstd::string::StringExecFns;
use crate::platform::{join_path, joined, Platform};
use crate::text::{
    chars_of, has_prefix, is_space, is_space_char, lowercase, skip_leading, starts_with,
    to_lowercase, trim, trimmed,
};

verus! {

/// Path of the build description of the workspace at `workspace`.
pub open spec fn cmake_lists_of(workspace: Seq<char>, p: Platform) -> Seq<char> {
    joined(joined(joined(workspace, "app"@, p), "app"@, p), "CMakeLists.txt"@, p)
}

/// Path of the build description of the workspace at `workspace_path`.
pub fn cmake_lists_path(workspace_path: &str, p: Platform) -> (r: String)
    ensures
        r@ == cmake_lists_of(workspace_path@, p),
{
    let outer = join_path(workspace_path, "app", p);
    let inner = join_path(outer.as_str(), "app", p);
    join_path(inner.as_str(), "CMakeLists.txt", p)
}

/// Index of the first `c` in `s`, or the length of `s` if there is none.
pub open spec fn first_index(s: Seq<char>, c: char) -> int
    decreases s.len(),
{
    if s.len() == 0 || s.first() == c {
        0
    } else {
        1 + first_index(s.drop_first(), c)
    }
}

/// Index of the last `c` in `s`, or `-1` if there is none.
pub open spec fn last_index(s: Seq<char>, c: char) -> int
    decreases s.len(),
{
    if s.len() == 0 {
        -1
    } else if s.last() == c {
        s.len() - 1
    } else {
        last_index(s.drop_last(), c)
    }
}

/// Number of characters of `s` before its first white space.
pub open spec fn word_len(s: Seq<char>) -> int
    decreases s.len(),
{
    if s.len() == 0 || is_space(s.first()) {
        0
    } else {
        1 + word_len(s.drop_first())
    }
}

/// The first word of `s`: what stands between the white space at its start
/// and the next white space. It is empty if `s` holds white space only.
pub open spec fn first_word(s: Seq<char>) -> Seq<char> {
    skip_leading(s).take(word_len(skip_leading(s)))
}

/// The name that `line` declares, if it is a project directive: the first
/// word between its first opening and its last closing parenthesis.
/// `lowered` is the line without surrounding white space, in lower case.
pub open spec fn declared_name(line: Seq<char>, lowered: Seq<char>) -> Option<Seq<char>> {
    let open = first_index(line, '(');
    let close = last_index(line, ')');
    if starts_with(lowered, "project("@) && open < close {
        Some(first_word(line.subrange(open + 1, close)))
    } else {
        None
    }
}

/// Reads the name that `line` declares, if it is a project directive.
/// `lowered` is the line without surrounding white space, in lower case.
pub fn name_in_line(line: &str, lowered: &str) -> (r: Option<String>)
    ensures
        r.deep_view() == declared_name(line@, lowered@),
{
    if !has_prefix(lowered, "project(") {
        return None;
    }
    let chars = chars_of(line);
    let n: usize = chars.len();
    let mut open: usize = 0;
    assert(chars@.subrange(0, n as int) =~= line@);
    while open < n && chars[open] != '('
        invariant
            n == chars.len(),
            chars@ == line@,
            open <= n,
            first_index(line@, '(') == open + first_index(line@.subrange(open as int, n as int), '('),
        decreases n - open,
    {
        assert(line@.subrange(open as int, n as int).drop_first() =~= line@.subrange(
            open + 1,
            n as int,
        ));
        open = open + 1;
    }
    assert(first_index(line@, '(') == open);
    let mut close: usize = n;
    while close > 0 && chars[close - 1] != ')'
        invariant
            n == chars.len(),
            chars@ == line@,
            close <= n,
            last_index(line@, ')') == last_index(line@.subrange(0, close as int), ')'),
        decreases close,
    {
        assert(line@.subrange(0, close as int).drop_last() =~= line@.subrange(0, close - 1));
        close = close - 1;
    }
    // `close` is one past the last closing parenthesis, or zero
    assert(last_index(line@, ')') == close - 1);
    if close == 0 || open >= close - 1 {
        return None;
    }
    let ghost inner = line@.subrange(open + 1, close - 1);
    let mut start: usize = open + 1;
    assert(inner.subrange(0, inner.len() as int) =~= inner);
    while start < close - 1 && is_space_char(chars[start])
        invariant
            n == chars.len(),
            chars@ == line@,
            open + 1 <= start <= close - 1,
            close <= n,
            inner == line@.subrange(open + 1, close - 1),
            skip_leading(inner) == skip_leading(line@.subrange(start as int, close - 1)),
        decreases close - start,
    {
        assert(line@.subrange(start as int, close - 1).drop_first() =~= line@.subrange(
            start + 1,
            close - 1,
        ));
        start = start + 1;
    }
    let ghost rest = line@.subrange(start as int, close - 1);
    assert(skip_leading(inner) == rest);
    let mut end: usize = start;
    assert(rest.subrange(0, rest.len() as int) =~= rest);
    while end < close - 1 && !is_space_char(chars[end])
        invariant
            n == chars.len(),
            chars@ == line@,
            start <= end <= close - 1,
            close <= n,
            rest == line@.subrange(start as int, close - 1),
            word_len(rest) == (end - start) + word_len(line@.subrange(end as int, close - 1)),
        decreases close - end,
    {
        assert(line@.subrange(end as int, close - 1).drop_first() =~= line@.subrange(
            end + 1,
            close - 1,
        ));
        end = end + 1;
    }
    assert(word_len(rest) == end - start);
    assert(rest.take(end - start) =~= line@.subrange(start as int, end as int));
    Some(line.substring_char(start, end).to_owned())
}

/// Why no project name was found.
#[derive(Clone, Copy, Debug, PartialEq, Eq, Structural)]
pub enum DetectError {
    /// The workspace has no build description.
    FileNotFound,
    /// The build description holds no project directive.
    NoDirective,
}

impl DetectError {
    /// The message shown to the user.
    pub fn message(&self) -> (r: String)
        ensures
            r@ == match *self {
                DetectError::FileNotFound => "CMakeLists.txt not found in app/app/ directory"@,
                DetectError::NoDirective => "No project() directive found in CMakeLists.txt"@,
            },
    {
        match self {
            DetectError::FileNotFound => String::from_str(
                "CMakeLists.txt not found in app/app/ directory",
            ),
            DetectError::NoDirective => String::from_str(
                "No project() directive found in CMakeLists.txt",
            ),
        }
    }
}

/// The name declared by the first of `lines` that declares one.
pub open spec fn first_declared(lines: Seq<Seq<char>>) -> Option<Seq<char>>
    decreases lines.len(),
{
    if lines.len() == 0 {
        None
    } else {
        match declared_name(lines.first(), lowercase(trimmed(lines.first()))) {
            Some(name) => Some(name),
            None => first_declared(lines.drop_first()),
        }
    }
}

/// What the search for a project name comes to, given the lines of the
/// build description, or `None` if there is no such file.
pub open spec fn detected(contents: Option<Seq<Seq<char>>>) -> Result<Seq<char>, DetectError> {
    match contents {
        None => Err(DetectError::FileNotFound),
        Some(lines) => match first_declared(lines) {
            Some(name) => Ok(name),
            None => Err(DetectError::NoDirective),
        },
    }
}

/// Finds the name of the project in its build description. `contents`
/// holds the lines of the file, or `None` if the file does not exist.
pub fn detect_project_name(contents: Option<&Vec<String>>) -> (r: Result<String, DetectError>)
    ensures
        match detected(
            match contents {
                Some(lines) => Some(lines.deep_view()),
                None => None,
            },
        ) {
            Ok(name) => r matches Ok(x) && x@ == name,
            Err(e) => r matches Err(x) && x == e,
        },
{
    let lines = match contents {
        Some(lines) => lines,
        None => {
            return Err(DetectError::FileNotFound);
        },
    };
    let ghost all = lines.deep_view();
    let mut i: usize = 0;
    assert(all.subrange(0, all.len() as int) =~= all);
    while i < lines.len()
        invariant
            i <= lines.len(),
            contents == Some(lines),
            all == lines.deep_view(),
            first_declared(all) == first_declared(all.subrange(i as int, all.len() as int)),
        decreases lines.len() - i,
    {
        let ghost rest = all.subrange(i as int, all.len() as int);
        assert(rest.first() == lines[i as int]@);
        let bare = trim(lines[i].as_str());
        let lowered = to_lowercase(bare.as_str());
        match name_in_line(lines[i].as_str(), lowered.as_str()) {
            Some(name) => {
                assert(declared_name(rest.first(), lowercase(trimmed(rest.first()))) == Some(
                    name@,
                ));
                assert(first_declared(rest) == Some(name@));
                return Ok(name);
            },
            None => {},
        }
        assert(rest.drop_first() =~= all.subrange(i + 1, all.len() as int));
        i = i + 1;
    }
    Err(DetectError::NoDirective)
}

} // verus!
