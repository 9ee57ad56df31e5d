//! File paths as text, with the `std::path` operations the downloads
//! detector relies on. Path syntax (which characters separate components)
//! is that of the platform the library is built for, so each named result
//! below is fixed once the library is compiled.

use vstd::prelude::*;

verus! {

/// What `Path::extension` returns for `path`: the text after the last `.` of
/// the final component, if that component has one that is not leading.
pub uninterp spec fn extension_of(path: Seq<char>) -> Option<Seq<char>>;

/// What `Path::file_stem` returns for `path`: the final component without
/// its extension.
pub uninterp spec fn file_stem_of(path: Seq<char>) -> Option<Seq<char>>;

/// What `Path::with_file_name` returns: `path` with its final component
/// replaced by `name`.
pub uninterp spec fn with_file_name_of(path: Seq<char>, name: Seq<char>) -> Seq<char>;

/// What `==` on `Path` returns: the two paths have equal components.
pub uninterp spec fn same_path(a: Seq<char>, b: Seq<char>) -> bool;

/// The extension of `path` (`Path::extension`, then `OsStr::to_str`).
#[verifier::external_body]
pub fn path_extension(path: &str) -> (ext: Option<String>)
    ensures
        ext is Some <==> extension_of(path@) is Some,
        ext is Some ==> ext->Some_0@ == extension_of(path@)->Some_0,
{
    match std::path::Path::new(path).extension() {
        Some(extension) => match extension.to_str() {
            Some(text) => Some(text.to_owned()),
            None => None,
        },
        None => None,
    }
}

/// The file stem of `path` (`Path::file_stem`, then `OsStr::to_str`).
#[verifier::external_body]
pub fn path_file_stem(path: &str) -> (stem: Option<String>)
    ensures
        stem is Some <==> file_stem_of(path@) is Some,
        stem is Some ==> stem->Some_0@ == file_stem_of(path@)->Some_0,
{
    match std::path::Path::new(path).file_stem() {
        Some(stem) => match stem.to_str() {
            Some(text) => Some(text.to_owned()),
            None => None,
        },
        None => None,
    }
}

/// `path` with its final component replaced (`Path::with_file_name`); both
/// inputs are text, so the result is too.
#[verifier::external_body]
pub fn path_with_file_name(path: &str, name: &str) -> (p: String)
    ensures
        p@ == with_file_name_of(path@, name@),
{
    std::path::Path::new(path).with_file_name(name).to_string_lossy().into_owned()
}

/// Two path texts name the same path: they are equal, or `Path`'s `==`
/// holds of them.
pub open spec fn path_matches(a: Seq<char>, b: Seq<char>) -> bool {
    a == b || same_path(a, b)
}

/// Whether two paths are equal (`PartialEq` for `Path`, which compares the
/// two component sequences element by element, so the order of the
/// arguments does not matter); equal text is always the same path.
#[verifier::external_body]
pub fn paths_equal(a: &str, b: &str) -> (eq: bool)
    ensures
        eq == same_path(a@, b@),
        eq == same_path(b@, a@),
        a@ == b@ ==> eq,
{
    std::path::Path::new(a) == std::path::Path::new(b)
}

/// The code of `c` with ASCII upper-case letters lowered
/// (`char::to_ascii_lowercase`).
pub open spec fn ascii_lower(c: char) -> u32 {
    if 'A' <= c && c <= 'Z' { (c as u32 + 32) as u32 } else { c as u32 }
}

/// `a` and `b` are equal up to ASCII case (`str::eq_ignore_ascii_case`).
pub open spec fn equal_ignoring_ascii_case(a: Seq<char>, b: Seq<char>) -> bool {
    a.len() == b.len() && forall|i: int| 0 <= i < a.len() ==> ascii_lower(#[trigger] a[i]) == ascii_lower(b[i])
}

/// Compares two strings, ignoring ASCII case.
pub fn eq_ignore_ascii_case(a: &str, b: &str) -> (eq: bool)
    ensures
        eq == equal_ignoring_ascii_case(a@, b@),
{
    let n = a.unicode_len();
    if n != b.unicode_len() {
        return false;
    }
    let mut i: usize = 0;
    while i < n
        invariant
            n == a@.len(),
            n == b@.len(),
            i <= n,
            forall|k: int| 0 <= k < i ==> ascii_lower(#[trigger] a@[k]) == ascii_lower(b@[k]),
        decreases n - i,
    {
        let x = a.get_char(i);
        let y = b.get_char(i);
        let lx: u32 = if 'A' <= x && x <= 'Z' { x as u32 + 32 } else { x as u32 };
        let ly: u32 = if 'A' <= y && y <= 'Z' { y as u32 + 32 } else { y as u32 };
        if lx != ly {
            assert(ascii_lower(a@[i as int]) != ascii_lower(b@[i as int]));
            return false;
        }
        i = i + 1;
    }
    true
}

} // verus!
