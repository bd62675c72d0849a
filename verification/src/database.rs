//! How bookmarks and reading positions are written to and read from the database rows.
use crate::bookmark::model::{BookmarkEntry, BookmarkSource};
use crate::hashing::{hash_text, text_digest};
use crate::text::push_char;
use vstd::prelude::*;

verus! {

broadcast use vstd::string::group_string_axioms;

/// The text stored for how a bookmark was made.
pub open spec fn source_label(s: BookmarkSource) -> Seq<char> {
    match s {
        BookmarkSource::AutoRecent => "AutoRecent"@,
        BookmarkSource::Manual => "Manual"@,
    }
}

/// The text stored in the `source` column for a bookmark.
pub fn source_text(s: BookmarkSource) -> (r: String)
    ensures
        r@ == source_label(s),
{
    match s {
        BookmarkSource::AutoRecent => "AutoRecent".to_string(),
        BookmarkSource::Manual => "Manual".to_string(),
    }
}

/// How a bookmark was made, from the `source` column: "Manual" is manual, anything
/// else automatic.
pub fn source_from_text(t: &str) -> (r: BookmarkSource)
    ensures
        r == (if t@ == "Manual"@ {
            BookmarkSource::Manual
        } else {
            BookmarkSource::AutoRecent
        }),
{
    if crate::text::str_equals(t, "Manual") {
        BookmarkSource::Manual
    } else {
        BookmarkSource::AutoRecent
    }
}

/// A bookmark's kind survives the round trip through the `source` column: the text
/// written for a kind is read back as that kind.
pub proof fn law_source_round_trip(s: BookmarkSource)
    ensures
        (if source_label(s) == "Manual"@ {
            BookmarkSource::Manual
        } else {
            BookmarkSource::AutoRecent
        }) == s,
{
    reveal_strlit("Manual");
    reveal_strlit("AutoRecent");
    if s == BookmarkSource::AutoRecent {
        assert("AutoRecent"@.len() != "Manual"@.len());
    }
}

/// The lower-case hexadecimal digit of `d`.
pub open spec fn hex_digit(d: nat) -> char {
    if d < 10 {
        (d + 48) as char
    } else {
        (d + 87) as char
    }
}

/// The lower-case hexadecimal text of `n`, without leading zeros.
pub open spec fn hex(n: nat) -> Seq<char>
    decreases n,
{
    if n < 16 {
        seq![hex_digit(n)]
    } else {
        hex(n / 16) + seq![hex_digit(n % 16)]
    }
}

fn push_hex(out: &mut String, n: u64)
    ensures
        final(out)@ == old(out)@ + hex(n as nat),
    decreases n,
{
    if n >= 16 {
        push_hex(out, n / 16);
    }
    let d: u8 = (n % 16) as u8;
    let c = if d < 10 {
        (d + 48u8) as char
    } else {
        (d + 87u8) as char
    };
    push_char(out, c);
    assert(final(out)@ =~= old(out)@ + hex(n as nat));
}

/// The key under which the reading position of `path` is stored: the digest of the path
/// in lower-case hexadecimal.
pub fn path_key(path: &str) -> (r: String)
    ensures
        r@ == hex(text_digest(path@) as nat),
{
    let h = hash_text(path);
    let mut out = String::new();
    push_hex(&mut out, h);
    assert(out@ =~= hex(h as nat));
    out
}

/// The bookmark read from a row: the columns in the order of the query, the integer
/// columns taken as two's complement.
pub fn bookmark_from_row(
    id: i64,
    source: &str,
    archive_name: String,
    file_name: String,
    path: String,
    page_index: i64,
    page_name: String,
    saved_at_ms: i64,
) -> (r: BookmarkEntry)
    ensures
        r.id == id as u64,
        r.source == (if source@ == "Manual"@ {
            BookmarkSource::Manual
        } else {
            BookmarkSource::AutoRecent
        }),
        r.archive_name == archive_name,
        r.file_name == file_name,
        r.path == path,
        r.page_index == page_index as usize,
        r.page_name == page_name,
        r.saved_at_ms == saved_at_ms as u64,
{
    BookmarkEntry {
        id: id as u64,
        source: source_from_text(source),
        archive_name,
        file_name,
        path,
        page_index: page_index as usize,
        page_name,
        saved_at_ms: saved_at_ms as u64,
    }
}

/// The integer columns of a bookmark as they are written: page index and save time,
/// as two's complement.
pub fn bookmark_row_numbers(e: &BookmarkEntry) -> (r: (i64, i64))
    ensures
        r == (e.page_index as i64, e.saved_at_ms as i64),
{
    (e.page_index as i64, e.saved_at_ms as i64)
}

/// The page read from the `page_index` column of the reading history.
pub fn resume_page_from_row(page_index: i64) -> (r: usize)
    ensures
        r == page_index as usize,
{
    page_index as usize
}

} // verus!
