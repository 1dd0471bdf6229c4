//! Identicon pattern generation for avatars.

use vstd::prelude::*;
use vstd::utf8::encode_utf8;
use crate::ui::theme::{fnv1a, fnv1a_hash};

verus! {

/// The 15-bit identicon pattern for a nick: the low 15 bits of its FNV-1a
/// hash, with the center-column bits `0x0084` always set.
pub open spec fn identicon_pattern(nick: Seq<char>) -> u16 {
    ((fnv1a(encode_utf8(nick)) as u16) & 0x7FFF) | 0x0084
}

/// Generate a 15-bit pattern for a 5x5 symmetric identicon (3 columns x 5 rows,
/// mirrored) from the nickname.
pub fn generate_identicon_pattern(nick: &str) -> (p: u16)
    ensures
        p == identicon_pattern(nick@),
        p & 0x0084 == 0x0084,
        p <= 0x7FFF,
        p != 0,
{
    let hash = fnv1a_hash(nick.as_bytes());
    let low = hash as u16;
    let p = (low & 0x7FFF) | 0x0084;
    assert(p & 0x0084 == 0x0084 && p <= 0x7FFF && p != 0) by (bit_vector)
        requires
            p == (low & 0x7FFF) | 0x0084,
    ;
    p
}

} // verus!
