//! Text previews: how much of a file is read, and how its bytes become text.

use vstd::prelude::*;
use vstd::utf8::{decode_utf8, valid_utf8};

verus! {

/// What `String::from_utf8_lossy` makes of `b`: its text, with each invalid
/// sequence replaced by U+FFFD.
pub uninterp spec fn lossy_text_of(b: Seq<u8>) -> Seq<char>;

/// Relies on `String::from_utf8_lossy`: the result depends on the bytes
/// alone, and valid UTF-8 is decoded as it is.
#[verifier::external_body]
fn utf8_lossy(b: &[u8]) -> (r: String)
    ensures
        r@ == lossy_text_of(b@),
        valid_utf8(b@) ==> r@ == decode_utf8(b@),
{
    String::from_utf8_lossy(b).into_owned()
}

/// The number of bytes to read for a preview of a file of `file_len` bytes:
/// all of it, but at most `max_bytes`.
pub fn preview_read_len(file_len: u64, max_bytes: usize) -> (r: usize)
    ensures
        r as int == if file_len < max_bytes {
            file_len as int
        } else {
            max_bytes as int
        },
{
    if file_len < max_bytes as u64 {
        file_len as usize
    } else {
        max_bytes
    }
}

/// The text of the bytes read for a preview; invalid UTF-8 sequences are
/// replaced by the substitution character.
pub fn decode_text_preview(bytes: &[u8]) -> (r: String)
    ensures
        r@ == lossy_text_of(bytes@),
        valid_utf8(bytes@) ==> r@ == decode_utf8(bytes@),
{
    utf8_lossy(bytes)
}

} // verus!
