//! Base64 text of preview bytes, as the presentation layer receives them.

use vstd::prelude::*;
use base64::Engine;

verus! {

/// What the standard base64 alphabet, with padding, makes of `b`.
pub uninterp spec fn base64_of(b: Seq<u8>) -> Seq<char>;

/// Whether the base64 text of `n` bytes has a length that fits in `usize`.
pub open spec fn base64_fits(n: nat) -> bool {
    4 * ((n + 2) / 3) <= usize::MAX
}

/// Relies on `base64::engine::general_purpose::STANDARD.encode`: padded
/// output of four characters per started group of three bytes. It panics
/// when that length overflows `usize`, which `requires` leaves out.
#[verifier::external_body]
pub(crate) fn encode_base64(b: &[u8]) -> (r: String)
    requires
        base64_fits(b@.len()),
    ensures
        r@ == base64_of(b@),
        r@.len() == 4 * ((b@.len() + 2) / 3),
{
    base64::engine::general_purpose::STANDARD.encode(b)
}

} // verus!
