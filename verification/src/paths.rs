//! File paths as text: joining, home expansion, and the parts of a path
//! (file name, parent, extension) as `std::path::Path` reads them.

use vstd::prelude::*;
use crate::text::{push_char, chars_of, starts_with, str_starts_with};

verus! {

/// What `Path::file_name` gives for a path.
pub uninterp spec fn path_file_name(p: Seq<char>) -> Option<Seq<char>>;

/// What `Path::parent` gives for a path.
pub uninterp spec fn path_parent(p: Seq<char>) -> Option<Seq<char>>;

/// Position of the last `.` in a name at or before position `i`.
pub open spec fn last_dot_at(name: Seq<char>, i: int) -> Option<int>
    decreases i + 1,
{
    if i < 0 || i >= name.len() {
        None
    } else if name[i] == '.' {
        Some(i)
    } else {
        last_dot_at(name, i - 1)
    }
}

/// How `Path::file_stem` and `Path::extension` split a file name: at its
/// last `.` into stem and extension, except that `..`, a name without a `.`
/// and a name whose only `.` leads it are all stem, with no extension.
pub open spec fn split_file_name(name: Seq<char>) -> (Seq<char>, Option<Seq<char>>) {
    if name == ".."@ {
        (name, None)
    } else {
        match last_dot_at(name, name.len() - 1) {
            Some(i) => if i > 0 {
                (name.subrange(0, i), Some(name.subrange(i + 1, name.len() as int)))
            } else {
                (name, None)
            },
            None => (name, None),
        }
    }
}

/// What `Path::extension` gives for a path.
pub open spec fn path_extension(p: Seq<char>) -> Option<Seq<char>> {
    match path_file_name(p) {
        Some(n) => split_file_name(n).1,
        None => None,
    }
}

/// What `Path::file_stem` gives for a path.
pub open spec fn path_file_stem(p: Seq<char>) -> Option<Seq<char>> {
    match path_file_name(p) {
        Some(n) => Some(split_file_name(n).0),
        None => None,
    }
}

/// What `Path::components().count()` gives for a path.
pub uninterp spec fn path_depth(p: Seq<char>) -> nat;

/// `Path::components().count()`.
#[verifier::external_body]
pub(crate) fn component_count(p: &str) -> (r: usize)
    ensures
        r == path_depth(p@),
{
    std::path::Path::new(p).components().count()
}

/// What `str::to_lowercase` gives.
pub uninterp spec fn lowercase(s: Seq<char>) -> Seq<char>;

/// What `char::is_alphanumeric` says of a character.
pub uninterp spec fn alphanumeric(c: char) -> bool;

/// `Path::file_name`, as text; the path is valid UTF-8, so nothing is lost.
#[verifier::external_body]
pub(crate) fn file_name_of(p: &str) -> (r: Option<String>)
    ensures
        match r {
            Some(s) => path_file_name(p@) == Some(s@),
            None => path_file_name(p@) is None,
        },
{
    std::path::Path::new(p).file_name().map(|n| n.to_string_lossy().to_string())
}

/// `Path::parent`, as text.
#[verifier::external_body]
pub(crate) fn parent_of(p: &str) -> (r: Option<String>)
    ensures
        match r {
            Some(s) => path_parent(p@) == Some(s@),
            None => path_parent(p@) is None,
        },
{
    std::path::Path::new(p).parent().map(|n| n.to_string_lossy().to_string())
}

/// A file name split into stem and extension, as `split_file_name` says.
fn split_name(name: &str) -> (r: (String, Option<String>))
    ensures
        r.0@ == split_file_name(name@).0,
        match r.1 {
            Some(e) => split_file_name(name@).1 == Some(e@),
            None => split_file_name(name@).1 is None,
        },
{
    if crate::text::str_eq(name, "..") {
        return (name.to_string(), None);
    }
    let cs = chars_of(name);
    let n = cs.len();
    let mut i: usize = n;
    loop
        invariant
            i <= n,
            n == cs@.len(),
            cs@ == name@,
            name@ != ".."@,
            last_dot_at(cs@, n - 1) == last_dot_at(cs@, i - 1),
        decreases i,
    {
        if i == 0 {
            assert(last_dot_at(cs@, -1) is None);
            return (name.to_string(), None);
        }
        if cs[i - 1] == '.' {
            if i - 1 == 0 {
                return (name.to_string(), None);
            }
            let stem = crate::text::substring(cs.as_slice(), 0, i - 1);
            let ext = crate::text::substring(cs.as_slice(), i, n);
            return (stem, Some(ext));
        }
        i = i - 1;
    }
}

/// `Path::extension`, as text.
pub(crate) fn extension_of(p: &str) -> (r: Option<String>)
    ensures
        match r {
            Some(s) => path_extension(p@) == Some(s@),
            None => path_extension(p@) is None,
        },
{
    match file_name_of(p) {
        Some(n) => split_name(n.as_str()).1,
        None => None,
    }
}

/// `Path::file_stem`, as text.
pub(crate) fn file_stem_of(p: &str) -> (r: Option<String>)
    ensures
        match r {
            Some(s) => path_file_stem(p@) == Some(s@),
            None => path_file_stem(p@) is None,
        },
{
    match file_name_of(p) {
        Some(n) => Some(split_name(n.as_str()).0),
        None => None,
    }
}

/// `str::to_lowercase`.
#[verifier::external_body]
pub(crate) fn to_lowercase(s: &str) -> (r: String)
    ensures
        r@ == lowercase(s@),
{
    s.to_lowercase()
}

/// `char::is_alphanumeric`.
#[verifier::external_body]
pub(crate) fn is_alphanumeric(c: char) -> (b: bool)
    ensures
        b == alphanumeric(c),
{
    c.is_alphanumeric()
}

/// The path has the given extension.
pub open spec fn has_extension(p: Seq<char>, ext: Seq<char>) -> bool {
    path_extension(p) == Some(ext)
}

/// Whether a path has the given extension.
pub fn extension_is(p: &str, ext: &str) -> (b: bool)
    ensures
        b == has_extension(p@, ext@),
{
    match extension_of(p) {
        Some(e) => crate::text::str_eq(e.as_str(), ext),
        None => false,
    }
}

/// `name` appended to `base` as `PathBuf::push` does on Unix: an absolute
/// `name` replaces `base`; a separator is added when `base` is non-empty and
/// does not end with one.
pub open spec fn joined(base: Seq<char>, name: Seq<char>) -> Seq<char> {
    if name.len() > 0 && name[0] == '/' {
        name
    } else if base.len() == 0 || base[base.len() - 1] == '/' {
        base + name
    } else {
        base + seq!['/'] + name
    }
}

/// Joins a path and a name (`Path::join`).
pub fn path_join(base: &str, name: &str) -> (r: String)
    ensures
        r@ == joined(base@, name@),
{
    let n = chars_of(name);
    if n.len() > 0 && n[0] == '/' {
        return name.to_string();
    }
    let b = chars_of(base);
    let mut r = base.to_string();
    if b.len() > 0 && b[b.len() - 1] != '/' {
        push_char(&mut r, '/');
    }
    r.append(name);
    r
}

/// A path given on the command line, with a leading `~/` replaced by the
/// home directory when it is known.
pub open spec fn expanded(path: Seq<char>, home: Option<Seq<char>>) -> Seq<char> {
    match home {
        Some(h) if starts_with(path, "~/"@) => joined(h, path.subrange(2, path.len() as int)),
        _ => path,
    }
}

/// Expands a leading `~/` to the home directory.
pub fn expand_home(path: &str, home: Option<&str>) -> (r: String)
    ensures
        r@ == expanded(path@, match home { Some(h) => Some(h@), None => None }),
{
    match home {
        Some(h) => {
            if str_starts_with(path, "~/") {
                proof {
                    reveal_strlit("~/");
                }
                let p = chars_of(path);
                let rest = crate::text::substring(p.as_slice(), 2, p.len());
                path_join(h, rest.as_str())
            } else {
                path.to_string()
            }
        },
        None => path.to_string(),
    }
}

/// Characters kept in a project name.
pub open spec fn name_char(c: char) -> bool {
    alphanumeric(c) || c == '-' || c == '_'
}

/// The characters of `s` that may appear in a project name.
pub open spec fn name_chars(s: Seq<char>) -> Seq<char>
    decreases s.len(),
{
    if s.len() == 0 {
        s
    } else if name_char(s.last()) {
        name_chars(s.drop_last()).push(s.last())
    } else {
        name_chars(s.drop_last())
    }
}

/// A project name derived from free text: lower-cased, keeping letters,
/// digits, `-` and `_`.
pub open spec fn sanitized(s: Seq<char>) -> Seq<char> {
    name_chars(lowercase(s))
}

/// Derives a project name from free text.
pub fn sanitize_name(s: &str) -> (r: String)
    ensures
        r@ == sanitized(s@),
{
    let lower = to_lowercase(s);
    let cs = chars_of(lower.as_str());
    let mut r = String::new();
    let mut i: usize = 0;
    while i < cs.len()
        invariant
            i <= cs@.len(),
            r@ == name_chars(cs@.subrange(0, i as int)),
        decreases cs@.len() - i,
    {
        let c = cs[i];
        assert(cs@.subrange(0, i + 1).drop_last() =~= cs@.subrange(0, i as int));
        if is_alphanumeric(c) || c == '-' || c == '_' {
            push_char(&mut r, c);
        }
        i = i + 1;
    }
    assert(cs@.subrange(0, cs@.len() as int) =~= cs@);
    r
}

/// The name derived from a file name: its stem (the whole name when it has
/// none), sanitized.
pub open spec fn name_from_file(name: Seq<char>) -> Seq<char> {
    match path_file_stem(name) {
        Some(stem) => sanitized(stem),
        None => sanitized(name),
    }
}

/// Derives a project name from a file name.
pub fn sanitize_alias_from_name(name: &str) -> (r: String)
    ensures
        r@ == name_from_file(name@),
{
    match file_stem_of(name) {
        Some(stem) => sanitize_name(stem.as_str()),
        None => sanitize_name(name),
    }
}

} // verus!
