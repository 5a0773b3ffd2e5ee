//! The chunk driver and padding policy: decode a whole input, group by
//! group, into a caller-supplied output buffer.

use vstd::prelude::*;

use crate::alphabet::decode_symbol;
use crate::alphabet::lemma_url_safe_same_val;
use crate::alphabet::sym_val;
use crate::alphabet::url_safe_of;
use crate::alphabet::PAD;
use crate::pack::pack0;
use crate::pack::pack1;
use crate::pack::pack2;
use crate::pack::pack_group;

verus! {

/// The three decoded bytes of one 4-symbol group.
pub open spec fn group_bytes(a: u8, b: u8, c: u8, d: u8) -> Seq<u8> {
    seq![
        pack0(sym_val(a), sym_val(b)),
        pack1(sym_val(b), sym_val(c)),
        pack2(sym_val(c), sym_val(d)),
    ]
}

/// Decoded byte `i` of input `s`: byte `i % 3` of the decode of symbol
/// group `i / 3`.
pub open spec fn decoded_at(s: Seq<u8>, i: int) -> u8 {
    group_bytes(s[4 * (i / 3)], s[4 * (i / 3) + 1], s[4 * (i / 3) + 2], s[4 * (i / 3) + 3])[i % 3]
}

/// The decode of every complete 4-symbol group of `s`: 3 bytes per group.
pub open spec fn spec_decode(s: Seq<u8>) -> Seq<u8> {
    Seq::new((s.len() / 4 * 3) as nat, |i: int| decoded_at(s, i))
}

/// The number of trailing padding characters of `s`: 2 if the
/// second-to-last byte is `=`, else 1 if the last byte is `=`, else 0;
/// inputs shorter than 2 bytes have none.
pub open spec fn spec_pad(s: Seq<u8>) -> nat {
    if s.len() < 2 {
        0
    } else if s[s.len() - 2] == PAD {
        2
    } else if s[s.len() - 1] == PAD {
        1
    } else {
        0
    }
}

/// Alphabet equivalence: an input and its URL-safe transliteration
/// (`+` to `-`, `/` to `_`, symbol by symbol) decode to the same bytes.
pub proof fn lemma_alphabet_equivalence(s: Seq<u8>)
    ensures
        spec_decode(s.map_values(|b: u8| url_safe_of(b))) == spec_decode(s),
{
    let t = s.map_values(|b: u8| url_safe_of(b));
    let len = s.len() as int;
    assert forall|i: int| 0 <= i < len / 4 * 3 implies decoded_at(t, i) == decoded_at(s, i) by {
        let g = i / 3;
        assert(0 <= g && 3 * g <= i) by (nonlinear_arith)
            requires
                g == i / 3,
                0 <= i,
        ;
        assert(g < len / 4) by (nonlinear_arith)
            requires
                g == i / 3,
                i < len / 4 * 3,
        ;
        assert(4 * g + 3 < len) by (nonlinear_arith)
            requires
                g < len / 4,
        ;
        lemma_url_safe_same_val(s[4 * g]);
        lemma_url_safe_same_val(s[4 * g + 1]);
        lemma_url_safe_same_val(s[4 * g + 2]);
        lemma_url_safe_same_val(s[4 * g + 3]);
    }
    assert(spec_decode(t) =~= spec_decode(s));
}

/// Decode `input` into the front of `out`, 4 symbols to 3 bytes per
/// step: classify each symbol, merge the candidates, repack the four
/// 6-bit values, write 3 bytes, and advance the input cursor by 4 and
/// the output cursor by 3. Bytes of `out` past the decoded prefix keep
/// their old values.
fn b64_decode_impl(input: &[u8], out: &mut Vec<u8>)
    requires
        input@.len() % 4 == 0,
        old(out)@.len() >= input@.len() / 4 * 3,
    ensures
        final(out)@.len() == old(out)@.len(),
        final(out)@.subrange(0, (input@.len() / 4 * 3) as int) == spec_decode(input@),
        forall|i: int|
            input@.len() / 4 * 3 <= i < final(out)@.len() ==> final(out)@[i] == old(out)@[i],
{
    let n = input.len();
    let mut f: usize = 0;
    let mut d: usize = 0;
    while f < n
        invariant
            input@.len() == n,
            n % 4 == 0,
            f % 4 == 0,
            f <= n,
            d == f / 4 * 3,
            out@.len() == old(out)@.len(),
            out@.len() >= n / 4 * 3,
            forall|i: int| 0 <= i < d ==> out@[i] == decoded_at(input@, i),
            forall|i: int| d <= i < out@.len() ==> out@[i] == old(out)@[i],
        decreases n - f,
    {
        proof {
            assert(f + 4 <= n && f / 4 + 1 <= n / 4) by (nonlinear_arith)
                requires
                    f % 4 == 0,
                    n % 4 == 0,
                    f < n,
            ;
            assert(d + 3 <= n / 4 * 3) by (nonlinear_arith)
                requires
                    d == f / 4 * 3,
                    f / 4 + 1 <= n / 4,
            ;
        }
        let v0 = decode_symbol(input[f]);
        let v1 = decode_symbol(input[f + 1]);
        let v2 = decode_symbol(input[f + 2]);
        let v3 = decode_symbol(input[f + 3]);
        let (b0, b1, b2) = pack_group(v0, v1, v2, v3);
        out.set(d, b0);
        out.set(d + 1, b1);
        out.set(d + 2, b2);
        proof {
            let g = f as int / 4;
            assert(4 * g == f) by (nonlinear_arith)
                requires
                    g == f as int / 4,
                    f % 4 == 0,
            ;
            assert((3 * g) / 3 == g && (3 * g) % 3 == 0 && (3 * g + 1) / 3 == g && (3 * g + 1) % 3
                == 1 && (3 * g + 2) / 3 == g && (3 * g + 2) % 3 == 2) by (nonlinear_arith);
            assert(d == 3 * g) by (nonlinear_arith)
                requires
                    d == f / 4 * 3,
                    g == f as int / 4,
            ;
            assert(decoded_at(input@, d as int) == b0);
            assert(decoded_at(input@, d + 1) == b1);
            assert(decoded_at(input@, d + 2) == b2);
        }
        f = f + 4;
        d = d + 3;
    }
    proof {
        assert(out@.subrange(0, (input@.len() / 4 * 3) as int) =~= spec_decode(input@));
    }
}

/// Decode a Base64 text whose length is a multiple of 4 into the front
/// of `out` and return the raw decoded byte count, `input.len() / 4 * 3`,
/// before any padding adjustment. `out` must offer the documented
/// minimum capacity: 6 bytes per 8-symbol unit, rounded up, plus 2 of
/// slack. Bytes of `out` past the decoded prefix keep their old values.
pub fn b64_decode(input: &[u8], out: &mut Vec<u8>) -> (n: usize)
    requires
        input@.len() % 4 == 0,
        old(out)@.len() >= (input@.len() + 7) / 8 * 6 + 2,
    ensures
        n == input@.len() / 4 * 3,
        final(out)@.len() == old(out)@.len(),
        final(out)@.subrange(0, n as int) == spec_decode(input@),
        forall|i: int| n <= i < final(out)@.len() ==> final(out)@[i] == old(out)@[i],
{
    proof {
        assert(input@.len() / 4 * 3 <= (input@.len() + 7) / 8 * 6 + 2) by (nonlinear_arith)
            requires
                input@.len() % 4 == 0,
        ;
        assert(input@.len() / 4 * 3 <= input@.len()) by (nonlinear_arith);
    }
    b64_decode_impl(input, out);
    input.len() / 4 * 3
}

/// Decode as `b64_decode` does, then trim the trailing padding from the
/// returned count: the result is `input.len() / 4 * 3` less the number
/// of trailing `=` characters of `input`.
pub fn b64_decode_prune(input: &[u8], out: &mut Vec<u8>) -> (n: usize)
    requires
        input@.len() % 4 == 0,
        old(out)@.len() >= (input@.len() + 7) / 8 * 6 + 2,
    ensures
        n == input@.len() / 4 * 3 - spec_pad(input@),
        final(out)@.len() == old(out)@.len(),
        final(out)@.subrange(0, (input@.len() / 4 * 3) as int) == spec_decode(input@),
        forall|i: int|
            input@.len() / 4 * 3 <= i < final(out)@.len() ==> final(out)@[i] == old(out)@[i],
{
    let total = b64_decode(input, out);
    let nin = input.len();
    proof {
        assert(nin > 0 ==> nin >= 4 && nin / 4 >= 1 && nin / 4 * 3 >= 3) by (nonlinear_arith)
            requires
                nin % 4 == 0,
        ;
    }
    let pad: usize = if nin == 0 {
        0
    } else if input[nin - 2] == PAD {
        2
    } else if input[nin - 1] == PAD {
        1
    } else {
        0
    };
    total - pad
}

} // verus!
