//! Alphabet classification: the 6-bit value of each Base64 symbol.

use vstd::prelude::*;

verus! {

/// The padding character `=`.
pub const PAD: u8 = 61;

/// The 6-bit value of a Base64 symbol: `A`-`Z` map to 0-25, `a`-`z` to
/// 26-51, `0`-`9` to 52-61, `+` and its URL-safe variant `-` to 62, `/`
/// and its URL-safe variant `_` to 63. The padding character `=` and
/// every byte outside the alphabet map to 0.
pub open spec fn sym_val(b: u8) -> u8 {
    if 65 <= b && b <= 90 {
        (b - 65) as u8
    } else if 97 <= b && b <= 122 {
        (b - 97 + 26) as u8
    } else if 48 <= b && b <= 57 {
        (b - 48 + 52) as u8
    } else if b == 43 || b == 45 {
        62
    } else if b == 47 || b == 95 {
        63
    } else {
        0
    }
}

/// A byte of the standard 64-symbol alphabet (`A`-`Z`, `a`-`z`, `0`-`9`,
/// `+`, `/`).
pub open spec fn is_standard_symbol(b: u8) -> bool {
    (65 <= b && b <= 90) || (97 <= b && b <= 122) || (48 <= b && b <= 57) || b == 43 || b == 47
}

/// The candidate value of byte `b` for one alphabet range: the offset
/// from `base` plus `correction` when the offset lies in `[0, magnitude)`,
/// and 0 otherwise. The offset is taken wrapping, so bytes below `base`
/// wrap around to large offsets and fail the `< magnitude` test.
pub fn range_candidate(b: u8, base: u8, magnitude: u8, correction: u8) -> (v: u8)
    requires
        base + magnitude <= 256,
        correction + magnitude <= 64,
    ensures
        base <= b && b < base + magnitude ==> v == b - base + correction,
        !(base <= b && b < base + magnitude) ==> v == 0,
        v < 64,
{
    let off = b.wrapping_sub(base);
    if off < magnitude {
        off + correction
    } else {
        0
    }
}

/// The 6-bit value of one input byte: classify it against all seven
/// non-padding alphabet ranges at once and merge the candidates with
/// bitwise OR. The ranges are mutually exclusive, so at most one
/// candidate is non-zero and the OR selects it. The padding range
/// (`=`, magnitude 1, correction 0) always yields candidate 0 and is
/// omitted from the merge.
pub fn decode_symbol(b: u8) -> (v: u8)
    ensures
        v == sym_val(b),
        v < 64,
{
    let c0 = range_candidate(b, 65, 26, 0);
    let c1 = range_candidate(b, 97, 26, 26);
    let c2 = range_candidate(b, 48, 10, 52);
    let c3 = range_candidate(b, 43, 1, 62);
    let c4 = range_candidate(b, 47, 1, 63);
    let c5 = range_candidate(b, 45, 1, 62);
    let c6 = range_candidate(b, 95, 1, 63);
    let v = c0 | c1 | c2 | c3 | c4 | c5 | c6;
    proof {
        lemma_or_selects(c0, c1, c2, c3, c4, c5, c6);
    }
    v
}

/// Bitwise OR over seven bytes selects the one non-zero operand: when
/// all operands but one are zero, the OR equals that operand.
proof fn lemma_or_selects(c0: u8, c1: u8, c2: u8, c3: u8, c4: u8, c5: u8, c6: u8)
    by (bit_vector)
    ensures
        c1 == 0 && c2 == 0 && c3 == 0 && c4 == 0 && c5 == 0 && c6 == 0 ==> c0 | c1 | c2 | c3 | c4
            | c5 | c6 == c0,
        c0 == 0 && c2 == 0 && c3 == 0 && c4 == 0 && c5 == 0 && c6 == 0 ==> c0 | c1 | c2 | c3 | c4
            | c5 | c6 == c1,
        c0 == 0 && c1 == 0 && c3 == 0 && c4 == 0 && c5 == 0 && c6 == 0 ==> c0 | c1 | c2 | c3 | c4
            | c5 | c6 == c2,
        c0 == 0 && c1 == 0 && c2 == 0 && c4 == 0 && c5 == 0 && c6 == 0 ==> c0 | c1 | c2 | c3 | c4
            | c5 | c6 == c3,
        c0 == 0 && c1 == 0 && c2 == 0 && c3 == 0 && c5 == 0 && c6 == 0 ==> c0 | c1 | c2 | c3 | c4
            | c5 | c6 == c4,
        c0 == 0 && c1 == 0 && c2 == 0 && c3 == 0 && c4 == 0 && c6 == 0 ==> c0 | c1 | c2 | c3 | c4
            | c5 | c6 == c5,
        c0 == 0 && c1 == 0 && c2 == 0 && c3 == 0 && c4 == 0 && c5 == 0 ==> c0 | c1 | c2 | c3 | c4
            | c5 | c6 == c6,
{
}

/// Classification is injective on the standard alphabet: no two of its
/// 64 symbols share a 6-bit value. (The padding character `=` is forced
/// to value 0 and so collides with `A`, and each URL-safe symbol shares
/// its value with its standard counterpart by design; injectivity holds
/// within one alphabet.)
pub proof fn lemma_classification_injective(b1: u8, b2: u8)
    requires
        is_standard_symbol(b1),
        is_standard_symbol(b2),
        sym_val(b1) == sym_val(b2),
    ensures
        b1 == b2,
{
}

/// The URL-safe transliteration of a symbol: `+` becomes `-` and `/`
/// becomes `_`; every other byte is unchanged.
pub open spec fn url_safe_of(b: u8) -> u8 {
    if b == 43 {
        45
    } else if b == 47 {
        95
    } else {
        b
    }
}

/// A symbol and its URL-safe transliteration classify to the same
/// 6-bit value.
pub proof fn lemma_url_safe_same_val(b: u8)
    ensures
        sym_val(url_safe_of(b)) == sym_val(b),
{
}

} // verus!
