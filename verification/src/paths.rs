//! Paths are carried as text. What a path means (its final component, its
//! parent, joining) is what `std::path` says; the trusted items below make
//! those calls, and the rest is derived here as the std documentation
//! describes it.

use vstd::prelude::*;
use std::path::Path;
use crate::text::{chars_of, last_index, lemma_last_index, find_last, slice_string};

verus! {

/// The optional text seen through its view.
pub open spec fn opt_text(o: Option<String>) -> Option<Seq<char>> {
    match o {
        Some(s) => Some(s@),
        None => None,
    }
}

/// What `Path::file_name` gives for the path `p`.
pub uninterp spec fn file_name_of(p: Seq<char>) -> Option<Seq<char>>;

/// What `Path::parent` gives for the path `p`.
pub uninterp spec fn parent_of(p: Seq<char>) -> Option<Seq<char>>;

/// What `Path::join` gives for `base` joined with `rest`.
pub uninterp spec fn joined(base: Seq<char>, rest: Seq<char>) -> Seq<char>;

/// What `Path::starts_with` answers: `base` is a prefix of `p`, component by component.
pub uninterp spec fn path_starts_with(p: Seq<char>, base: Seq<char>) -> bool;

/// What `==` on two `Path`s answers (they have the same components).
pub uninterp spec fn same_path(a: Seq<char>, b: Seq<char>) -> bool;

/// What `str::to_lowercase` gives (Unicode lowercase mapping).
pub uninterp spec fn lowercase_of(s: Seq<char>) -> Seq<char>;

/// The Unicode `White_Space` property, which `char::is_whitespace`
/// answers: tab to carriage return, space, next line, no-break space,
/// ogham space mark, the spaces from en quad to hair space, line and
/// paragraph separators, narrow no-break space, medium mathematical space
/// and ideographic space.
pub open spec fn white_space(c: char) -> bool {
    let n = c as u32;
    (0x09 <= n <= 0x0D) || n == 0x20 || n == 0x85 || n == 0xA0 || n == 0x1680
        || (0x2000 <= n <= 0x200A) || n == 0x2028 || n == 0x2029 || n == 0x202F
        || n == 0x205F || n == 0x3000
}

/// `Path::file_name`: the final component of `p`, unless `p` ends in `..`
/// or is a root. The contract names the result and claims no more.
#[verifier::external_body]
pub(crate) fn file_name(p: &str) -> (r: Option<String>)
    ensures
        opt_text(r) == file_name_of(p@),
{
    Path::new(p).file_name().map(|n| n.to_string_lossy().into_owned())
}

/// `Path::parent`: `p` without its final component, if it has one. The
/// contract names the result and claims no more.
#[verifier::external_body]
pub(crate) fn parent(p: &str) -> (r: Option<String>)
    ensures
        opt_text(r) == parent_of(p@),
{
    Path::new(p).parent().map(|q| q.to_string_lossy().into_owned())
}

/// `Path::join`: `rest` appended to `base` with a separator (or replacing
/// it when `rest` is absolute). The contract names the result.
#[verifier::external_body]
pub(crate) fn join(base: &str, rest: &str) -> (r: String)
    ensures
        r@ == joined(base@, rest@),
{
    Path::new(base).join(rest).to_string_lossy().into_owned()
}

/// `Path::starts_with`, whole components only. The contract names the answer.
#[verifier::external_body]
pub(crate) fn starts_with(p: &str, base: &str) -> (r: bool)
    ensures
        r == path_starts_with(p@, base@),
{
    Path::new(p).starts_with(base)
}

/// `==` on `Path`, which compares components. The contract names the answer.
#[verifier::external_body]
pub(crate) fn same(a: &str, b: &str) -> (r: bool)
    ensures
        r == same_path(a@, b@),
{
    Path::new(a) == Path::new(b)
}

/// `str::to_lowercase`. The contract names the result.
#[verifier::external_body]
pub(crate) fn to_lowercase(s: &str) -> (r: String)
    ensures
        r@ == lowercase_of(s@),
{
    s.to_lowercase()
}

/// Whether `c` has the Unicode `White_Space` property (what
/// `char::is_whitespace` answers), spelled out in `white_space`.
pub fn is_whitespace(c: char) -> (r: bool)
    ensures
        r == white_space(c),
{
    let n = c as u32;
    (0x09 <= n && n <= 0x0D) || n == 0x20 || n == 0x85 || n == 0xA0 || n == 0x1680
        || (0x2000 <= n && n <= 0x200A) || n == 0x2028 || n == 0x2029 || n == 0x202F
        || n == 0x205F || n == 0x3000
}

/// Index of the last `'.'` in `f`, or -1.
pub open spec fn last_dot(f: Seq<char>) -> int {
    last_index(f, '.')
}

/// `Path::extension` as its documentation defines it from the file name:
/// none without a file name, without an embedded `.`, or when the only `.`
/// starts the name; otherwise what follows the final `.`.
pub open spec fn extension_of(p: Seq<char>) -> Option<Seq<char>> {
    match file_name_of(p) {
        None => None,
        Some(f) => if last_dot(f) <= 0 {
            None
        } else {
            Some(f.subrange(last_dot(f) + 1, f.len() as int))
        },
    }
}

/// `Path::file_stem` as its documentation defines it: the whole file name
/// when it has no embedded `.` (or only a leading one), otherwise what
/// precedes the final `.`.
pub open spec fn stem_of(p: Seq<char>) -> Option<Seq<char>> {
    match file_name_of(p) {
        None => None,
        Some(f) => if last_dot(f) <= 0 {
            Some(f)
        } else {
            Some(f.subrange(0, last_dot(f)))
        },
    }
}

/// The extension of the path `p` (see `extension_of`).
pub fn extension(p: &str) -> (r: Option<String>)
    ensures
        opt_text(r) == extension_of(p@),
{
    match file_name(p) {
        None => None,
        Some(f) => {
            let v = chars_of(f.as_str());
            proof { lemma_last_index(v@, '.'); }
            match find_last(v.as_slice(), '.') {
                Some(i) => {
                    assert(i < v@.len());
                    if i > 0 {
                        Some(slice_string(v.as_slice(), i + 1, v.len()))
                    } else {
                        None
                    }
                },
                None => None,
            }
        },
    }
}

/// The file stem of the path `p` (see `stem_of`).
pub fn file_stem(p: &str) -> (r: Option<String>)
    ensures
        opt_text(r) == stem_of(p@),
{
    match file_name(p) {
        None => None,
        Some(f) => {
            let v = chars_of(f.as_str());
            proof { lemma_last_index(v@, '.'); }
            match find_last(v.as_slice(), '.') {
                Some(i) => {
                    assert(i < v@.len());
                    if i > 0 {
                        Some(slice_string(v.as_slice(), 0, i))
                    } else {
                        Some(f)
                    }
                },
                None => Some(f),
            }
        },
    }
}

} // verus!
