//! The rate-1/2, constraint-length-32 convolutional code.

use crate::Wspr;
use vstd::prelude::*;

verus! {

/// Generator polynomial of the first parity stream.
pub const POLY_0: u32 = 0xF2D0_5351;

/// Generator polynomial of the second parity stream.
pub const POLY_1: u32 = 0xE461_3C47;

/// Bit `t` of `v`, bit 0 being the least significant.
pub open spec fn bit32(v: u32, t: u32) -> u32 {
    (v >> t) & 1
}

/// Bit `k` of the message in the order of transmission: the most significant
/// bit of the first byte is bit 0. Before the message and after it (the flush
/// tail) every bit is zero.
pub open spec fn input_bit(msg: Seq<u8>, k: int) -> int {
    if 0 <= k < 8 * msg.len() {
        ((msg[k / 8] >> ((7 - k % 8) as u8)) & 1) as int
    } else {
        0
    }
}

/// How many of the taps `0..n` of `poly` meet a one among the input bits
/// that end at bit `k`: tap `t` looks at input bit `k - t`.
pub open spec fn tap_sum(msg: Seq<u8>, poly: u32, k: int, n: nat) -> int
    decreases n,
{
    if n == 0 {
        0
    } else {
        let t = (n - 1) as nat;
        tap_sum(msg, poly, k, t) + if bit32(poly, t as u32) == 1 && input_bit(msg, k - t) == 1 {
            1int
        } else {
            0int
        }
    }
}

/// Coded bit `i`: input bit `i / 2` yields two parity bits, the first under
/// `POLY_0`, the second under `POLY_1`.
pub open spec fn coded_bit(msg: Seq<u8>, i: int) -> int {
    tap_sum(msg, if i % 2 == 0 { POLY_0 } else { POLY_1 }, i / 2, 32) % 2
}

/// The coded bit stream of a message: the first 162 parity bits.
pub open spec fn convolved(msg: Seq<u8>) -> Seq<u8> {
    Seq::new(162, |i: int| coded_bit(msg, i) as u8)
}

/// How many of the bits `0..n` of `v` are one.
spec fn ones_below(v: u32, n: nat) -> int
    decreases n,
{
    if n == 0 {
        0
    } else {
        ones_below(v, (n - 1) as nat) + bit32(v, (n - 1) as u32)
    }
}

/// Whether a shift register holds the 32 input bits that end at bit `k`,
/// the newest in bit 0.
spec fn holds_window(reg: u32, msg: Seq<u8>, k: int) -> bool {
    forall|t: u32| t < 32 ==> #[trigger] bit32(reg, t) as int == input_bit(msg, k - t)
}

/// Under a generator polynomial, the ones of a register that holds the
/// input bits up to bit `k` are the taps that meet a one.
proof fn lemma_masked_ones(reg: u32, poly: u32, msg: Seq<u8>, k: int, n: nat)
    requires
        holds_window(reg, msg, k),
        n <= 32,
    ensures
        ones_below(reg & poly, n) == tap_sum(msg, poly, k, n),
    decreases n,
{
    if n > 0 {
        let t = (n - 1) as u32;
        lemma_masked_ones(reg, poly, msg, k, (n - 1) as nat);
        assert(bit32(reg, t) as int == input_bit(msg, k - t));
        assert(((reg & poly) >> t) & 1 == ((reg >> t) & 1) & ((poly >> t) & 1)) by (bit_vector);
        let a = bit32(reg, t);
        let b = bit32(poly, t);
        assert(a <= 1 && b <= 1 && a & b <= 1 && (a & b == 1 <==> a == 1 && b == 1))
            by (bit_vector)
            requires
                a == (reg >> t) & 1,
                b == (poly >> t) & 1,
        ;
    }
}

/// Shifting input bit `k` into a register that holds the bits up to
/// `k - 1` gives one that holds the bits up to `k`.
proof fn lemma_shift_in(reg: u32, bit: u32, msg: Seq<u8>, k: int)
    requires
        holds_window(reg, msg, k - 1),
        bit <= 1,
        bit as int == input_bit(msg, k),
    ensures
        holds_window((reg << 1) | bit, msg, k),
{
    let next = (reg << 1) | bit;
    assert forall|t: u32| t < 32 implies #[trigger] bit32(next, t) as int == input_bit(
        msg,
        k - t,
    ) by {
        if t == 0 {
            assert((((reg << 1) | bit) >> 0) & 1 == bit) by (bit_vector)
                requires
                    bit <= 1,
            ;
        } else {
            let s = (t - 1) as u32;
            assert((((reg << 1) | bit) >> t) & 1 == (reg >> s) & 1) by (bit_vector)
                requires
                    bit <= 1,
                    1 <= t < 32,
                    s == t - 1,
            ;
            assert(bit32(reg, s) as int == input_bit(msg, k - 1 - s));
        }
    }
}

/// Parity of the 32 bits of `v`.
fn parity(v: u32) -> (p: u8)
    ensures
        p == ones_below(v, 32) % 2,
{
    let mut rest: u32 = v;
    let mut p: u8 = 0;
    let mut n: u32 = 0;
    assert(v == v >> 0) by (bit_vector);
    while n < 32
        invariant
            n <= 32,
            p <= 1,
            p == ones_below(v, n as nat) % 2,
            rest == v >> n,
        decreases 32 - n,
    {
        let low: u32 = rest & 0x01;
        assert(low == bit32(v, n));
        assert(low <= 1) by (bit_vector)
            requires
                low == rest & 1,
        ;
        let q: u32 = (p as u32) ^ low;
        assert(q == (p as u32 + low) % 2) by (bit_vector)
            requires
                q == (p as u32) ^ low,
                p <= 1,
                low <= 1,
        ;
        p = q as u8;
        let ghost m: u32 = (n + 1) as u32;
        assert((v >> n) >> 1 == v >> m) by (bit_vector)
            requires
                n < 32,
                m == n + 1,
        ;
        rest = rest >> 1;
        n = n + 1;
    }
    p
}

impl Wspr {
    /// Runs the packed message, followed by a tail of zero bits, through the
    /// convolutional code and keeps the first 162 coded bits.
    pub fn convolve(data: [u8; 7]) -> (out: [u8; 162])
        ensures
            out@ == convolved(data@),
            forall|i: int| 0 <= i < 162 ==> #[trigger] out[i] <= 1,
    {
        let mut padded: [u8; 11] = [0; 11];
        let mut n: usize = 0;
        while n < 7
            invariant
                n <= 7,
                forall|t: int| 0 <= t < n ==> padded[t] == data[t],
                forall|t: int| n <= t < 11 ==> padded[t] == 0,
            decreases 7 - n,
        {
            padded[n] = data[n];
            n = n + 1;
        }
        let mut output: [u8; 162] = [0; 162];
        let mut reg0: u32 = 0;
        let mut reg1: u32 = 0;
        let mut bit_index: usize = 0;
        proof {
            assert forall|t: u32| t < 32 implies #[trigger] bit32(0, t) as int == input_bit(
                data@,
                -1 - t,
            ) by {
                assert((0u32 >> t) & 1 == 0) by (bit_vector);
            }
        }
        let mut i: usize = 0;
        while i < 11
            invariant
                i <= 11,
                bit_index == 16 * i,
                bit_index < 162,
                reg0 == reg1,
                holds_window(reg0, data@, 8 * i - 1),
                forall|t: int| 0 <= t < 7 ==> padded[t] == data[t],
                forall|t: int| 7 <= t < 11 ==> padded[t] == 0,
                forall|p: int| 0 <= p < bit_index ==> output[p] == coded_bit(data@, p),
            decreases 11 - i,
        {
            let mut j: u8 = 0;
            while j < 8
                invariant
                    i < 11,
                    j <= 8,
                    bit_index == 16 * i + 2 * j,
                    bit_index < 162,
                    reg0 == reg1,
                    holds_window(reg0, data@, 8 * i + j - 1),
                    forall|t: int| 0 <= t < 7 ==> padded[t] == data[t],
                    forall|t: int| 7 <= t < 11 ==> padded[t] == 0,
                    forall|p: int| 0 <= p < bit_index ==> output[p] == coded_bit(data@, p),
                decreases 8 - j,
            {
                let ghost k: int = 8 * i + j;
                let byte: u8 = padded[i];
                let bit: u32 = if ((byte << j) & 0x80) == 0x80 {
                    1
                } else {
                    0
                };
                proof {
                    let up: u8 = (7 - j) as u8;
                    assert((((byte << j) & 0x80) == 0x80) <==> ((byte >> up) & 1) == 1)
                        by (bit_vector)
                        requires
                            j < 8,
                            up == 7 - j,
                    ;
                    assert((byte >> up) & 1 <= 1) by (bit_vector);
                    assert((0u8 >> up) & 1 == 0) by (bit_vector);
                    assert(k / 8 == i && k % 8 == j);
                    assert(bit as int == input_bit(data@, k));
                    lemma_shift_in(reg0, bit, data@, k);
                }
                reg0 = reg0 << 1;
                reg1 = reg1 << 1;
                reg0 = reg0 | bit;
                reg1 = reg1 | bit;

                let first: u8 = parity(reg0 & POLY_0);
                proof {
                    lemma_masked_ones(reg0, POLY_0, data@, k, 32);
                    assert(coded_bit(data@, bit_index as int) == first);
                }
                output[bit_index] = first;
                bit_index = bit_index + 1;

                let second: u8 = parity(reg1 & POLY_1);
                proof {
                    lemma_masked_ones(reg1, POLY_1, data@, k, 32);
                    assert(coded_bit(data@, bit_index as int) == second);
                }
                output[bit_index] = second;
                bit_index = bit_index + 1;
                if bit_index >= 162 {
                    assert(output@ =~= convolved(data@));
                    return output;
                }
                j = j + 1;
            }
            i = i + 1;
        }
        output
    }
}

} // verus!
