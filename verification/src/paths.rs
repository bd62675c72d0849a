//! Path and text operations of the standard library that the library's logic calls.
use vstd::prelude::*;
use crate::text::{chars_of, push_char};

verus! {

/// Whether two path texts name the same path (they have the same components).
pub uninterp spec fn path_equal(a: Seq<char>, b: Seq<char>) -> bool;

/// Compares two paths as `std::path::Path` does: component by component.
/// Claimed: the result is `path_equal` of the two texts, and equal texts compare equal.
#[verifier::external_body]
pub(crate) fn paths_equal(a: &str, b: &str) -> (r: bool)
    ensures
        r == path_equal(a@, b@),
        a@ == b@ ==> r,
{
    std::path::Path::new(a) == std::path::Path::new(b)
}

/// The last component of a path text, when there is one.
pub uninterp spec fn path_file_name(p: Seq<char>) -> Option<Seq<char>>;

/// `Path::file_name` of the path, as text.
/// Claimed: the result is `path_file_name` of the path text.
#[verifier::external_body]
pub(crate) fn file_name_of(path: &str) -> (r: Option<String>)
    ensures
        match r {
            Some(n) => path_file_name(path@) == Some(n@),
            None => path_file_name(path@) is None,
        },
{
    std::path::Path::new(path).file_name().and_then(|v| v.to_str()).map(|s| s.to_string())
}

/// The extension of the last component of a path text, when it has one.
pub uninterp spec fn path_extension(p: Seq<char>) -> Option<Seq<char>>;

/// `Path::extension` of the path, as text.
/// Claimed: the result is `path_extension` of the path text.
#[verifier::external_body]
pub(crate) fn extension_of(path: &str) -> (r: Option<String>)
    ensures
        match r {
            Some(e) => path_extension(path@) == Some(e@),
            None => path_extension(path@) is None,
        },
{
    std::path::Path::new(path).extension().and_then(|v| v.to_str()).map(|s| s.to_string())
}

/// The path without its last component, when it has a parent.
pub uninterp spec fn path_parent(p: Seq<char>) -> Option<Seq<char>>;

/// `Path::parent` of the path, as text.
/// Claimed: the result is `path_parent` of the path text.
#[verifier::external_body]
pub(crate) fn parent_of(path: &str) -> (r: Option<String>)
    ensures
        match r {
            Some(q) => path_parent(path@) == Some(q@),
            None => path_parent(path@) is None,
        },
{
    std::path::Path::new(path).parent().and_then(|v| v.to_str()).map(|s| s.to_string())
}

/// The text with ASCII letters `a` to `z` mapped to `A` to `Z`; every other character kept.
pub open spec fn ascii_upper(s: Seq<char>) -> Seq<char> {
    s.map_values(|c: char| if 'a' <= c && c <= 'z' { ((c as u32) - 32) as char } else { c })
}

/// The text with ASCII letters `a` to `z` mapped to upper case (as `str::to_ascii_uppercase`).
pub fn to_ascii_uppercase(s: &str) -> (r: String)
    ensures
        r@ == ascii_upper(s@),
{
    let chars = chars_of(s);
    let mut out = String::new();
    let mut i: usize = 0;
    while i < chars.len()
        invariant
            chars@ == s@,
            i <= chars@.len(),
            out@ == ascii_upper(s@).take(i as int),
        decreases chars@.len() - i,
    {
        let c = chars[i];
        let u = if 'a' <= c && c <= 'z' {
            let b: u8 = c as u8;
            (b - 32) as char
        } else {
            c
        };
        assert(u == ascii_upper(s@)[i as int]);
        push_char(&mut out, u);
        assert(out@ =~= ascii_upper(s@).take(i + 1));
        i = i + 1;
    }
    assert(ascii_upper(s@).take(chars@.len() as int) =~= ascii_upper(s@));
    out
}

/// The path `base` extended by `rest` (`rest` itself where it is absolute).
pub uninterp spec fn path_join(base: Seq<char>, rest: Seq<char>) -> Seq<char>;

/// `Path::join` of two path texts, as text.
/// Claimed: the result is `path_join` of the two texts.
#[verifier::external_body]
pub(crate) fn join_paths(base: &str, rest: &str) -> (r: String)
    ensures
        r@ == path_join(base@, rest@),
{
    std::path::Path::new(base).join(rest).to_string_lossy().to_string()
}

/// The text with every character mapped to lower case (Unicode rules).
pub uninterp spec fn lowercase(s: Seq<char>) -> Seq<char>;

/// `str::to_lowercase`.
/// Claimed: the result is `lowercase` of the text.
#[verifier::external_body]
pub(crate) fn to_lowercase(s: &str) -> (r: String)
    ensures
        r@ == lowercase(s@),
{
    s.to_lowercase()
}

} // verus!
