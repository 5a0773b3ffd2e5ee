//! The standard Base64 encoding, as a specification only, and the
//! round-trip law: decoding the encoding of any payload gives the
//! payload back.

use vstd::prelude::*;

use crate::alphabet::sym_val;
use crate::alphabet::PAD;
use crate::decode::decoded_at;
use crate::decode::spec_decode;
use crate::decode::spec_pad;
use crate::pack::pack0;
use crate::pack::pack1;
use crate::pack::pack2;

verus! {

/// The standard-alphabet symbol of a 6-bit value.
pub open spec fn sym_char(v: u8) -> u8 {
    if v < 26 {
        (65 + v) as u8
    } else if v < 52 {
        (97 + v - 26) as u8
    } else if v < 62 {
        (48 + v - 52) as u8
    } else if v == 62 {
        43
    } else {
        47
    }
}

/// Symbol `i` of the standard Base64 encoding of payload `b`: the four
/// symbols of group `i / 4` encode payload bytes `3 * (i / 4)` onward,
/// with `=` in the positions a final partial group leaves empty.
pub open spec fn encoded_at(b: Seq<u8>, i: int) -> u8 {
    let g = i / 4;
    let x = b[3 * g];
    let y = if 3 * g + 1 < b.len() {
        b[3 * g + 1]
    } else {
        0
    };
    let z = if 3 * g + 2 < b.len() {
        b[3 * g + 2]
    } else {
        0
    };
    if i % 4 == 0 {
        sym_char(x >> 2)
    } else if i % 4 == 1 {
        sym_char(((x << 4) | (y >> 4)) & 0x3f)
    } else if i % 4 == 2 {
        if 3 * g + 1 < b.len() {
            sym_char(((y << 2) | (z >> 6)) & 0x3f)
        } else {
            PAD
        }
    } else {
        if 3 * g + 2 < b.len() {
            sym_char(z & 0x3f)
        } else {
            PAD
        }
    }
}

/// The standard Base64 encoding of `b`: one 4-symbol group per 3 payload
/// bytes, the final group filled with `=` when the payload length is not
/// a multiple of 3.
pub open spec fn spec_encode(b: Seq<u8>) -> Seq<u8> {
    Seq::new(((b.len() + 2) / 3 * 4) as nat, |i: int| encoded_at(b, i))
}

/// Each 6-bit value's standard symbol classifies back to that value.
pub proof fn lemma_sym_char_val(v: u8)
    requires
        v < 64,
    ensures
        sym_val(sym_char(v)) == v,
{
}

/// No standard symbol is the padding character.
proof fn lemma_sym_char_not_pad(v: u8)
    ensures
        sym_char(v) != PAD,
{
}

/// The four 6-bit values that encode payload bytes `x`, `y`, `z` lie
/// below 64, and packing them gives the three bytes back.
proof fn lemma_group_round_trip(x: u8, y: u8, z: u8)
    by (bit_vector)
    ensures
        x >> 2 < 64,
        ((x << 4) | (y >> 4)) & 0x3f < 64,
        ((y << 2) | (z >> 6)) & 0x3f < 64,
        z & 0x3f < 64,
        pack0(x >> 2, ((x << 4) | (y >> 4)) & 0x3f) == x,
        pack1(((x << 4) | (y >> 4)) & 0x3f, ((y << 2) | (z >> 6)) & 0x3f) == y,
        pack2(((y << 2) | (z >> 6)) & 0x3f, z & 0x3f) == z,
{
}

/// Decoded byte `i` of the encoding of `b` is payload byte `i`.
proof fn lemma_decoded_at_of_encoding(b: Seq<u8>, i: int)
    requires
        0 <= i < b.len(),
    ensures
        decoded_at(spec_encode(b), i) == b[i],
{
    let e = spec_encode(b);
    let len = b.len() as int;
    let k = (len + 2) / 3;
    let g = i / 3;
    let j = i % 3;
    assert(3 * g + j == i && 0 <= j < 3 && 0 <= g) by (nonlinear_arith)
        requires
            g == i / 3,
            j == i % 3,
            0 <= i,
    ;
    assert(3 * k >= len && g < k) by (nonlinear_arith)
        requires
            k == (len + 2) / 3,
            3 * g < len,
    ;
    assert(e.len() == 4 * k) by (nonlinear_arith)
        requires
            e.len() == (len + 2) / 3 * 4,
            k == (len + 2) / 3,
    ;
    assert((4 * g) / 4 == g && (4 * g) % 4 == 0 && (4 * g + 1) / 4 == g && (4 * g + 1) % 4 == 1 && (
    4 * g + 2) / 4 == g && (4 * g + 2) % 4 == 2 && (4 * g + 3) / 4 == g && (4 * g + 3) % 4
        == 3) by (nonlinear_arith);
    let x = b[3 * g];
    let y = if 3 * g + 1 < len {
        b[3 * g + 1]
    } else {
        0
    };
    let z = if 3 * g + 2 < len {
        b[3 * g + 2]
    } else {
        0
    };
    lemma_group_round_trip(x, y, z);
    lemma_sym_char_val((x >> 2) as u8);
    lemma_sym_char_val((((x << 4) | (y >> 4)) & 0x3f) as u8);
    lemma_sym_char_val((((y << 2) | (z >> 6)) & 0x3f) as u8);
    lemma_sym_char_val((z & 0x3f) as u8);
    assert(decoded_at(e, i) == b[i]);
}

/// Round trip: the standard encoding of any payload has length a
/// multiple of 4, decodes back to the payload, and its padding-trimmed
/// byte count is exactly the payload length.
pub proof fn lemma_round_trip(b: Seq<u8>)
    ensures
        spec_encode(b).len() % 4 == 0,
        b.len() <= spec_decode(spec_encode(b)).len(),
        spec_decode(spec_encode(b)).subrange(0, b.len() as int) == b,
        spec_encode(b).len() / 4 * 3 - spec_pad(spec_encode(b)) == b.len(),
{
    let e = spec_encode(b);
    let len = b.len() as int;
    let k = (len + 2) / 3;
    assert(e.len() == 4 * k && 3 * k >= len && 3 * k <= len + 2) by (nonlinear_arith)
        requires
            e.len() == (len + 2) / 3 * 4,
            k == (len + 2) / 3,
            len >= 0,
    ;
    assert((4 * k) % 4 == 0 && (4 * k) / 4 * 3 == 3 * k) by (nonlinear_arith);
    assert(spec_decode(e).len() == 3 * k);
    assert forall|i: int| 0 <= i < len implies spec_decode(e)[i] == b[i] by {
        lemma_decoded_at_of_encoding(b, i);
    }
    assert(spec_decode(e).subrange(0, len) =~= b);
    if len == 0 {
        assert(k == 0);
    } else {
        let g = k - 1;
        assert((4 * g + 2) / 4 == g && (4 * g + 2) % 4 == 2 && (4 * g + 3) / 4 == g && (4 * g + 3)
            % 4 == 3) by (nonlinear_arith);
        assert(3 * g < len) by (nonlinear_arith)
            requires
                k == (len + 2) / 3,
                g == k - 1,
                len > 0,
        ;
        assert(e[4 * k - 2] == encoded_at(b, 4 * g + 2) && e[4 * k - 1] == encoded_at(b, 4 * g
            + 3));
        let y = if 3 * g + 1 < len {
            b[3 * g + 1]
        } else {
            0
        };
        let z = if 3 * g + 2 < len {
            b[3 * g + 2]
        } else {
            0
        };
        lemma_sym_char_not_pad((((y << 2) | (z >> 6)) & 0x3f) as u8);
        lemma_sym_char_not_pad((z & 0x3f) as u8);
        if 3 * g + 2 < len {
            // final group is full: no padding symbol, and 3 * k == len
            assert(spec_pad(e) == 0);
            assert(3 * k == len) by (nonlinear_arith)
                requires
                    k == (len + 2) / 3,
                    3 * (k - 1) + 2 < len,
                    3 * k >= len,
            ;
        } else if 3 * g + 1 < len {
            // one payload byte missing: one `=`, and 3 * k == len + 1
            assert(spec_pad(e) == 1);
            assert(3 * k == len + 1) by (nonlinear_arith)
                requires
                    k == (len + 2) / 3,
                    3 * (k - 1) + 1 < len,
                    3 * (k - 1) + 2 >= len,
            ;
        } else {
            // two payload bytes missing: two `=`, and 3 * k == len + 2
            assert(spec_pad(e) == 2);
            assert(3 * k == len + 2) by (nonlinear_arith)
                requires
                    k == (len + 2) / 3,
                    3 * (k - 1) < len,
                    3 * (k - 1) + 1 >= len,
            ;
        }
    }
}

} // verus!
