//! The operating-system families the library distinguishes, and the path
//! conventions that follow from them.
//!
//! The family is an ordinary value, so every rule can be exercised on any host.

use vstd::prelude::*;
use vstd::string::StringExecFns;
use vstd::string::StrSliceExecFns;
use crate::text::chars_of;

verus! {

/// Operating-system family a command line is prepared for.
#[derive(Clone, Copy, Debug, PartialEq, Eq, Structural)]
pub enum Platform {
    Windows,
    Linux,
    /// Any other Unix-like system: paths follow the Unix rules.
    Other,
}

impl Platform {
    /// Whether the Windows conventions apply.
    pub open spec fn windows(self) -> bool {
        self == Platform::Windows
    }

    /// Executable test for [`Platform::windows`].
    pub fn is_windows(self) -> (r: bool)
        ensures
            r == self.windows(),
    {
        match self {
            Platform::Windows => true,
            _ => false,
        }
    }
}

/// The text placed between two path components.
pub open spec fn separator(p: Platform) -> Seq<char> {
    if p.windows() {
        "\\"@
    } else {
        "/"@
    }
}

/// Whether `c` ends a path component on `p`.
pub open spec fn is_separator(c: char, p: Platform) -> bool {
    c == '/' || (p.windows() && c == '\\')
}

/// The text placed between two entries of a search path.
pub open spec fn list_separator(p: Platform) -> Seq<char> {
    if p.windows() {
        ";"@
    } else {
        ":"@
    }
}

/// Name of the directory, inside an isolated installation, that holds its executables.
pub open spec fn exec_dir(p: Platform) -> Seq<char> {
    if p.windows() {
        "Scripts"@
    } else {
        "bin"@
    }
}

/// Name of the interpreter that creates an isolated installation.
pub open spec fn system_python(p: Platform) -> Seq<char> {
    if p.windows() {
        "python"@
    } else {
        "python3"@
    }
}

/// File name of the interpreter inside an isolated installation.
pub open spec fn python_file(p: Platform) -> Seq<char> {
    if p.windows() {
        "python.exe"@
    } else {
        "python"@
    }
}

/// File name of the meta-tool inside an isolated installation.
pub open spec fn west_file(p: Platform) -> Seq<char> {
    if p.windows() {
        "west.exe"@
    } else {
        "west"@
    }
}

/// Whether `c` can name a drive.
pub open spec fn is_drive_letter(c: char) -> bool {
    ('a' <= c && c <= 'z') || ('A' <= c && c <= 'Z')
}

/// Length of the drive prefix of `path`: on Windows, two for a letter
/// followed by a colon; otherwise there is none.
pub open spec fn prefix_len(path: Seq<char>, p: Platform) -> int {
    if p.windows() && path.len() >= 2 && is_drive_letter(path[0]) && path[1] == ':' {
        2
    } else {
        0
    }
}

/// `base` extended by `name`, as the standard library joins paths. A name
/// with a drive stands for itself; a name that begins with a separator
/// replaces everything of `base` but its drive. Any other name is appended,
/// after a separator unless `base` is empty, is a drive alone, or already
/// ends in a separator.
pub open spec fn joined(base: Seq<char>, name: Seq<char>, p: Platform) -> Seq<char> {
    if prefix_len(name, p) > 0 {
        name
    } else if name.len() > 0 && is_separator(name.first(), p) {
        base.take(prefix_len(base, p)) + name
    } else if base.len() == prefix_len(base, p) || is_separator(base.last(), p) {
        base + name
    } else {
        base + separator(p) + name
    }
}

/// Directory of executables of the isolated installation rooted at `root`.
pub open spec fn exec_dir_of(root: Seq<char>, p: Platform) -> Seq<char> {
    joined(root, exec_dir(p), p)
}

/// Path of the interpreter of the isolated installation rooted at `root`.
pub open spec fn python_of(root: Seq<char>, p: Platform) -> Seq<char> {
    joined(exec_dir_of(root, p), python_file(p), p)
}

/// Path of the meta-tool of the isolated installation rooted at `root`.
pub open spec fn west_of(root: Seq<char>, p: Platform) -> Seq<char> {
    joined(exec_dir_of(root, p), west_file(p), p)
}

/// Executable test for [`is_separator`].
pub fn is_separator_char(c: char, p: Platform) -> (r: bool)
    ensures
        r == is_separator(c, p),
{
    c == '/' || (p.is_windows() && c == '\\')
}

/// Length of the drive prefix of `chars`.
fn drive_prefix_len(chars: &Vec<char>, p: Platform) -> (r: usize)
    ensures
        r == prefix_len(chars@, p),
        r <= chars.len(),
{
    if p.is_windows() && chars.len() >= 2 && chars[1] == ':' && (('a' <= chars[0] && chars[0]
        <= 'z') || ('A' <= chars[0] && chars[0] <= 'Z')) {
        2
    } else {
        0
    }
}

/// Extends `base` by `name`.
pub fn join_path(base: &str, name: &str, p: Platform) -> (r: String)
    ensures
        r@ == joined(base@, name@, p),
{
    let tail = chars_of(name);
    if drive_prefix_len(&tail, p) > 0 {
        return String::from_str(name);
    }
    let head = chars_of(base);
    let drive = drive_prefix_len(&head, p);
    if tail.len() > 0 && is_separator_char(tail[0], p) {
        let mut out = base.substring_char(0, drive).to_owned();
        assert(out@ =~= base@.take(drive as int));
        out.append(name);
        return out;
    }
    let n: usize = head.len();
    let mut out = String::from_str(base);
    if n != drive && !is_separator_char(head[n - 1], p) {
        if p.is_windows() {
            out.append("\\");
        } else {
            out.append("/");
        }
    }
    out.append(name);
    out
}

/// Directory of executables of the isolated installation rooted at `root`.
pub fn exec_dir_path(root: &str, p: Platform) -> (r: String)
    ensures
        r@ == exec_dir_of(root@, p),
{
    if p.is_windows() {
        join_path(root, "Scripts", p)
    } else {
        join_path(root, "bin", p)
    }
}

/// Path of the interpreter of the isolated installation rooted at `root`.
pub fn python_path(root: &str, p: Platform) -> (r: String)
    ensures
        r@ == python_of(root@, p),
{
    let dir = exec_dir_path(root, p);
    if p.is_windows() {
        join_path(dir.as_str(), "python.exe", p)
    } else {
        join_path(dir.as_str(), "python", p)
    }
}

/// Path of the meta-tool of the isolated installation rooted at `root`.
pub fn west_path(root: &str, p: Platform) -> (r: String)
    ensures
        r@ == west_of(root@, p),
{
    let dir = exec_dir_path(root, p);
    if p.is_windows() {
        join_path(dir.as_str(), "west.exe", p)
    } else {
        join_path(dir.as_str(), "west", p)
    }
}

/// `path` without what follows its last component: the separators at its
/// end and the components `.` there, which stand for no step. Nothing is
/// taken from the first `floor` characters.
pub open spec fn strip_noise(path: Seq<char>, floor: int, p: Platform) -> Seq<char>
    decreases path.len(),
{
    if path.len() > floor && floor >= 0 && is_separator(path.last(), p) {
        strip_noise(path.drop_last(), floor, p)
    } else if path.len() > floor + 1 && floor >= 0 && path.last() == '.' && is_separator(
        path[path.len() - 2],
        p,
    ) {
        strip_noise(path.drop_last(), floor, p)
    } else {
        path
    }
}

/// Where the last component of `path` begins: after its last separator, or
/// after the first `floor` characters if there is none beyond them.
pub open spec fn name_start(path: Seq<char>, floor: int, p: Platform) -> int
    decreases path.len(),
{
    if path.len() <= floor || path.len() == 0 || is_separator(path.last(), p) {
        path.len() as int
    } else {
        name_start(path.drop_last(), floor, p)
    }
}

/// Whether `name` is one of the two names that stand for a directory itself
/// and for the one above it.
pub open spec fn is_dot_name(name: Seq<char>) -> bool {
    name == seq!['.'] || name == seq!['.', '.']
}

/// The directory part of `head`, which ends where a last component began:
/// `head` without what follows its own last component, except that the
/// separator of a root is kept.
pub open spec fn directory_part(head: Seq<char>, floor: int, p: Platform) -> Seq<char> {
    let bare = strip_noise(head, floor, p);
    if bare.len() == floor && head.len() > floor {
        head.take(floor + 1)
    } else {
        bare
    }
}

/// `path` split into the directory that contains it and its last component,
/// as the standard library takes a path apart. There is no split when `path`
/// has no component, names a root or a drive, or ends in `..`; a single `.`
/// has none either. Separators and components `.` after the last component
/// do not count.
pub open spec fn split_of(path: Seq<char>, p: Platform) -> Option<(Seq<char>, Seq<char>)> {
    let floor = prefix_len(path, p);
    let bare = strip_noise(path, floor, p);
    let start = name_start(bare, floor, p);
    let name = bare.subrange(start, bare.len() as int);
    if name.len() == 0 || is_dot_name(name) {
        None
    } else {
        Some((directory_part(bare.take(start), floor, p), name))
    }
}

/// The last component of `path`, if it has one.
pub open spec fn file_name_of(path: Seq<char>, p: Platform) -> Option<Seq<char>> {
    match split_of(path, p) {
        Some(parts) => Some(parts.1),
        None => None,
    }
}

proof fn lemma_name_start(path: Seq<char>, floor: int, p: Platform)
    requires
        0 <= floor <= path.len(),
    ensures
        floor <= name_start(path, floor, p) <= path.len(),
        forall|i: int| name_start(path, floor, p) <= i < path.len() ==> !is_separator(path[i], p),
        name_start(path, floor, p) > floor ==> is_separator(
            path[name_start(path, floor, p) - 1],
            p,
        ),
    decreases path.len(),
{
    if !(path.len() <= floor || path.len() == 0 || is_separator(path.last(), p)) {
        lemma_name_start(path.drop_last(), floor, p);
        let at = name_start(path, floor, p);
        assert forall|i: int| at <= i < path.len() implies !is_separator(path[i], p) by {
            if i < path.len() - 1 {
                assert(path.drop_last()[i] == path[i]);
            }
        }
        if at > floor {
            assert(path.drop_last()[at - 1] == path[at - 1]);
        }
    }
}

proof fn lemma_strip_noise(path: Seq<char>, floor: int, p: Platform)
    requires
        0 <= floor <= path.len(),
    ensures
        floor <= strip_noise(path, floor, p).len() <= path.len(),
        strip_noise(path, floor, p) == path.take(strip_noise(path, floor, p).len() as int),
        forall|i: int|
            strip_noise(path, floor, p).len() <= i < path.len() ==> is_separator(path[i], p)
                || path[i] == '.',
        strip_noise(path, floor, p).len() > floor ==> !is_separator(
            strip_noise(path, floor, p).last(),
            p,
        ),
    decreases path.len(),
{
    let stops = !(path.len() > floor && is_separator(path.last(), p)) && !(path.len() > floor + 1
        && path.last() == '.' && is_separator(path[path.len() - 2], p));
    if stops {
        assert(path.take(path.len() as int) =~= path);
    } else {
        let rest = path.drop_last();
        lemma_strip_noise(rest, floor, p);
        let kept = strip_noise(rest, floor, p);
        assert(rest.take(kept.len() as int) =~= path.take(kept.len() as int));
        assert forall|i: int| kept.len() <= i < path.len() implies is_separator(path[i], p)
            || path[i] == '.' by {
            if i < path.len() - 1 {
                assert(rest[i] == path[i]);
            }
        }
    }
}

/// What splitting comes to: the name is a stretch of the path that holds no
/// separator, with nothing but separators and dots after it; it is not
/// empty and not one of the dot names. The directory is a prefix of the
/// path that ends before the name.
pub proof fn lemma_split(path: Seq<char>, p: Platform) -> (at: int)
    requires
        split_of(path, p) is Some,
    ensures
        ({
            let parts = split_of(path, p)->0;
            &&& 0 <= at && at + parts.1.len() <= path.len()
            &&& parts.1 == path.subrange(at, at + parts.1.len())
            &&& parts.1.len() > 0
            &&& !is_dot_name(parts.1)
            &&& forall|i: int| 0 <= i < parts.1.len() ==> !is_separator(parts.1[i], p)
            &&& forall|i: int|
                at + parts.1.len() <= i < path.len() ==> is_separator(path[i], p) || path[i]
                    == '.'
            &&& parts.0.len() <= at
            &&& parts.0 == path.take(parts.0.len() as int)
        }),
{
    let floor = prefix_len(path, p);
    lemma_strip_noise(path, floor, p);
    let bare = strip_noise(path, floor, p);
    lemma_name_start(bare, floor, p);
    let at = name_start(bare, floor, p);
    let name = bare.subrange(at, bare.len() as int);
    assert(name =~= path.subrange(at, at + name.len()));
    assert forall|i: int| 0 <= i < name.len() implies !is_separator(name[i], p) by {
        assert(name[i] == bare[at + i]);
    }
    let head = bare.take(at);
    lemma_strip_noise(head, floor, p);
    let stripped = strip_noise(head, floor, p);
    assert(head.take(stripped.len() as int) =~= path.take(stripped.len() as int));
    if head.len() > floor {
        assert(head.take(floor + 1) =~= path.take(floor + 1));
    }
    at
}

/// Length of `chars[..end]` without what follows its last component.
fn stripped_len(chars: &Vec<char>, end: usize, floor: usize, p: Platform) -> (r: usize)
    requires
        floor <= end <= chars.len(),
    ensures
        floor <= r <= end,
        strip_noise(chars@.take(end as int), floor as int, p) == chars@.take(r as int),
{
    let mut n: usize = end;
    while n > floor && (is_separator_char(chars[n - 1], p) || (n > floor + 1 && chars[n - 1] == '.'
        && is_separator_char(chars[n - 2], p)))
        invariant
            floor <= n <= end <= chars.len(),
            strip_noise(chars@.take(end as int), floor as int, p) == strip_noise(
                chars@.take(n as int),
                floor as int,
                p,
            ),
        decreases n,
    {
        assert(chars@.take(n as int).drop_last() =~= chars@.take(n - 1));
        n = n - 1;
    }
    n
}

/// Splits `path` into the directory that contains it and its last component.
pub fn split_path(path: &str, p: Platform) -> (r: Option<(String, String)>)
    ensures
        r.deep_view() == split_of(path@, p),
{
    let chars = chars_of(path);
    let total: usize = chars.len();
    assert(chars@.take(total as int) =~= path@);
    let floor = drive_prefix_len(&chars, p);
    let end = stripped_len(&chars, total, floor, p);
    let ghost bare = chars@.take(end as int);
    let mut start: usize = end;
    while start > floor && !is_separator_char(chars[start - 1], p)
        invariant
            floor <= start <= end <= chars.len(),
            bare == chars@.take(end as int),
            name_start(bare, floor as int, p) == name_start(
                chars@.take(start as int),
                floor as int,
                p,
            ),
        decreases start,
    {
        assert(chars@.take(start as int).drop_last() =~= chars@.take(start - 1));
        start = start - 1;
    }
    assert(name_start(bare, floor as int, p) == start);
    let ghost name = bare.subrange(start as int, end as int);
    assert(name =~= path@.subrange(start as int, end as int));
    let dots = (end - start == 1 && chars[start] == '.') || (end - start == 2 && chars[start] == '.'
        && chars[start + 1] == '.');
    assert(dots == is_dot_name(name)) by {
        if is_dot_name(name) {
            assert(name[0] == '.');
        }
        if dots {
            if end - start == 1 {
                assert(name =~= seq!['.']);
            } else {
                assert(name =~= seq!['.', '.']);
            }
        }
    }
    if end == start || dots {
        return None;
    }
    let ghost head = bare.take(start as int);
    assert(head =~= chars@.take(start as int));
    let kept = stripped_len(&chars, start, floor, p);
    let parent_end: usize = if kept == floor && start > floor {
        floor + 1
    } else {
        kept
    };
    proof {
        assert(strip_noise(head, floor as int, p) == chars@.take(kept as int));
        if kept == floor && start > floor {
            assert(head.take(floor + 1) =~= path@.subrange(0, parent_end as int));
        } else {
            assert(chars@.take(kept as int) =~= path@.subrange(0, parent_end as int));
        }
    }
    let parent = path.substring_char(0, parent_end).to_owned();
    let name_text = path.substring_char(start, end).to_owned();
    Some((parent, name_text))
}

} // verus!
