//! Token-id conventions shared with the tokenizer.
//!
//! A vocabulary piece of the form `<0xHH>` stands for the single raw byte
//! `0xHH`; a byte that has no vocabulary entry is encoded as the token id
//! `byte + 3`.

use vstd::prelude::*;

verus! {

/// Offset of the byte-fallback token ids.
pub const BYTE_TOKEN_OFFSET: i32 = 3;

/// `c` is an ASCII hexadecimal digit.
pub open spec fn is_hex_digit(c: u8) -> bool {
    (0x30 <= c <= 0x39) || (0x41 <= c <= 0x46) || (0x61 <= c <= 0x66)
}

/// The value of an ASCII hexadecimal digit.
pub open spec fn hex_value(c: u8) -> int {
    if 0x30 <= c <= 0x39 {
        c - 0x30
    } else if 0x41 <= c <= 0x46 {
        c - 0x41 + 10
    } else {
        c - 0x61 + 10
    }
}

/// `p` spells `<0xHH>` with two hexadecimal digits.
pub open spec fn is_byte_piece(p: Seq<u8>) -> bool {
    &&& p.len() == 6
    &&& p[0] == 0x3C && p[1] == 0x30 && p[2] == 0x78
    &&& is_hex_digit(p[3]) && is_hex_digit(p[4])
    &&& p[5] == 0x3E
}

/// Returns the value of a hexadecimal digit.
fn hex_digit(c: u8) -> (r: Option<u8>)
    ensures
        r is Some <==> is_hex_digit(c),
        r is Some ==> r->Some_0 == hex_value(c),
{
    if 0x30 <= c && c <= 0x39 {
        Some(c - 0x30)
    } else if 0x41 <= c && c <= 0x46 {
        Some(c - 0x41 + 10)
    } else if 0x61 <= c && c <= 0x66 {
        Some(c - 0x61 + 10)
    } else {
        None
    }
}

/// Returns the raw byte that a piece of the form `<0xHH>` stands for, or
/// `None` for any other piece.
pub fn byte_piece(piece: &[u8]) -> (r: Option<u8>)
    ensures
        r is Some <==> is_byte_piece(piece@),
        r is Some ==> r->Some_0 == 16 * hex_value(piece@[3]) + hex_value(piece@[4]),
{
    if piece.len() != 6 || piece[0] != 0x3C || piece[1] != 0x30 || piece[2] != 0x78 || piece[5] != 0x3E {
        return None;
    }
    match (hex_digit(piece[3]), hex_digit(piece[4])) {
        (Some(hi), Some(lo)) => Some(16 * hi + lo),
        _ => None,
    }
}

/// Returns the token id that encodes a raw byte with no vocabulary entry.
pub fn byte_fallback_token(b: u8) -> (r: i32)
    ensures
        r == b + BYTE_TOKEN_OFFSET,
{
    b as i32 + BYTE_TOKEN_OFFSET
}

} // verus!
