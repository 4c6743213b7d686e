//! The channel interleaver: coded bits are laid out in bit-reversed order.

use crate::Wspr;
use vstd::prelude::*;
use vstd::set_lib::*;

verus! {

/// The byte whose bit `7 - k` is bit `k` of `j`.
pub open spec fn reversed8(j: u8) -> u8 {
    ((j & 0x01) << 7) | ((j & 0x02) << 5) | ((j & 0x04) << 3) | ((j & 0x08) << 1) | ((j & 0x10)
        >> 1) | ((j & 0x20) >> 3) | ((j & 0x40) >> 5) | ((j & 0x80) >> 7)
}

/// How many of the counters `0..j` reverse to a position of the output,
/// that is to a number below 162.
pub open spec fn placed_before(j: nat) -> nat
    decreases j,
{
    if j == 0 {
        0
    } else {
        let earlier = placed_before((j - 1) as nat);
        if reversed8((j - 1) as u8) < 162 {
            earlier + 1
        } else {
            earlier
        }
    }
}

/// The counter that fills position `p`: the one that reverses to `p`.
pub open spec fn counter_of(p: int) -> int {
    reversed8(p as u8) as int
}

/// Index of the coded bit that is sent at position `p`: every counter before
/// the one that fills `p`, if it reverses to a position, has taken one coded
/// bit.
pub open spec fn source_index(p: int) -> int {
    placed_before(counter_of(p) as nat) as int
}

/// The interleaved stream: position `p` carries coded bit `source_index(p)`.
pub open spec fn interleaved(data: Seq<u8>) -> Seq<u8> {
    Seq::new(162, |p: int| data[source_index(p)])
}

/// The positions that the counters `0..j` have filled.
spec fn filled(j: nat) -> Set<int> {
    Set::new(|p: int| 0 <= p < 162 && counter_of(p) < j)
}

/// Reversing the bits of a byte twice gives the byte back.
pub proof fn lemma_reversed8_involution(j: u8)
    ensures
        reversed8(reversed8(j)) == j,
{
    assert(reversed8(reversed8(j)) == j) by (bit_vector);
}

/// Each counter that reverses to a position fills a new one: the number of
/// filled positions is the number of such counters.
proof fn lemma_filled_count(j: nat)
    requires
        j <= 256,
    ensures
        filled(j).finite(),
        filled(j).len() == placed_before(j),
        placed_before(j) <= 162,
    decreases j,
{
    lemma_int_range(0, 162);
    assert(filled(j).subset_of(set_int_range(0, 162)));
    lemma_len_subset(filled(j), set_int_range(0, 162));
    if j == 0 {
        assert(filled(j) =~= Set::empty());
    } else {
        let i = (j - 1) as nat;
        lemma_filled_count(i);
        let r = reversed8(i as u8);
        lemma_reversed8_involution(i as u8);
        assert forall|p: int| 0 <= p < 162 && #[trigger] counter_of(p) == i implies p == r by {
            lemma_reversed8_involution(p as u8);
        }
        if r < 162 {
            assert(filled(j) =~= filled(i).insert(r as int));
            assert(!filled(i).contains(r as int));
        } else {
            assert(filled(j) =~= filled(i));
        }
    }
}

/// Once 162 counters have filled a position, every position is filled.
proof fn lemma_all_filled(j: nat)
    requires
        j <= 256,
        placed_before(j) == 162,
    ensures
        forall|p: int| 0 <= p < 162 ==> #[trigger] counter_of(p) < j,
{
    lemma_filled_count(j);
    lemma_int_range(0, 162);
    assert(filled(j).subset_of(set_int_range(0, 162)));
    lemma_subset_equality(filled(j), set_int_range(0, 162));
    assert forall|p: int| 0 <= p < 162 implies #[trigger] counter_of(p) < j by {
        assert(set_int_range(0, 162).contains(p));
        assert(filled(j).contains(p));
    }
}

/// A later counter has placed at least as many coded bits.
proof fn lemma_placed_monotone(a: nat, b: nat)
    requires
        a <= b,
    ensures
        placed_before(a) <= placed_before(b),
    decreases b,
{
    if a < b {
        lemma_placed_monotone(a, (b - 1) as nat);
    }
}

/// Every position carries one of the 162 coded bits.
pub proof fn lemma_source_index_in_range(p: int)
    requires
        0 <= p < 162,
    ensures
        0 <= source_index(p) < 162,
{
    let j = counter_of(p) as nat;
    lemma_reversed8_involution(p as u8);
    lemma_filled_count(j + 1);
    assert(placed_before(j + 1) == placed_before(j) + 1);
}

/// No coded bit is sent at two positions.
pub proof fn lemma_source_index_injective(p: int, q: int)
    requires
        0 <= p < 162,
        0 <= q < 162,
        p != q,
    ensures
        source_index(p) != source_index(q),
{
    let a = counter_of(p) as nat;
    let b = counter_of(q) as nat;
    lemma_reversed8_involution(p as u8);
    lemma_reversed8_involution(q as u8);
    assert(placed_before(a + 1) == placed_before(a) + 1);
    assert(placed_before(b + 1) == placed_before(b) + 1);
    if a < b {
        lemma_placed_monotone(a + 1, b);
    } else {
        lemma_placed_monotone(b + 1, a);
    }
}

/// Each number below the count of placed bits was the count at some earlier
/// counter that reverses to a position.
proof fn lemma_placed_reached(j: nat, i: int) -> (c: nat)
    requires
        0 <= i < placed_before(j),
    ensures
        c < j,
        reversed8(c as u8) < 162,
        placed_before(c) == i,
    decreases j,
{
    let before = (j - 1) as nat;
    if reversed8(before as u8) < 162 && placed_before(before) == i {
        before
    } else {
        lemma_placed_reached(before, i)
    }
}

/// Every coded bit is sent at some position: with the two lemmas before,
/// the interleaver is a permutation of the 162 positions.
pub proof fn lemma_source_index_onto(i: int) -> (p: int)
    requires
        0 <= i < 162,
    ensures
        0 <= p < 162,
        source_index(p) == i,
{
    lemma_filled_count(256);
    lemma_int_range(0, 162);
    assert(filled(256) =~= set_int_range(0, 162));
    let c = lemma_placed_reached(256, i);
    lemma_reversed8_involution(c as u8);
    reversed8(c as u8) as int
}

/// The bit reversal of a byte.
fn reverse_bits(j: u8) -> (rev: u8)
    ensures
        rev == reversed8(j),
{
    let mut j2: u8 = j;
    let mut rev: u8 = 0;
    let mut k: u8 = 0;
    assert(j == j >> 0u8 && 0u8 == reversed8(j) & !(0xFFu8 >> 0u8)) by (bit_vector);
    while k < 8
        invariant
            k <= 8,
            j2 == j >> k,
            rev == reversed8(j) & !(0xFFu8 >> k),
        decreases 8 - k,
    {
        let ghost before = rev;
        let up: u8 = 7 - k;
        if (j2 & 0x01) > 0 {
            rev = rev | (1u8 << up);
        }
        let ghost next: u8 = (k + 1) as u8;
        assert(rev == reversed8(j) & !(0xFFu8 >> next) && (j >> k) >> 1u8 == j >> next)
            by (bit_vector)
            requires
                k < 8,
                next == k + 1,
                up == 7 - k,
                j2 == j >> k,
                before == reversed8(j) & !(0xFFu8 >> k),
                rev == (if (j2 & 0x01) > 0 {
                    before | (1u8 << up)
                } else {
                    before
                }),
        ;
        j2 = j2 >> 1;
        k = k + 1;
    }
    assert(reversed8(j) & !(0xFFu8 >> 8u8) == reversed8(j)) by (bit_vector);
    rev
}

impl Wspr {
    /// Reorders the coded bits: the counters 0 to 254 are taken in turn, and
    /// each whose bit reversal is below 162 sends the next coded bit to that
    /// position.
    pub fn interleave(data: [u8; 162]) -> (out: [u8; 162])
        ensures
            out@ == interleaved(data@),
    {
        let mut d: [u8; 162] = [0; 162];
        let mut i: usize = 0;
        let mut j: u8 = 0;
        while j < 255
            invariant
                j <= 255,
                i < 162,
                i == placed_before(j as nat),
                forall|p: int|
                    0 <= p < 162 && counter_of(p) < j ==> #[trigger] d[p] == data[source_index(p)],
            decreases 255 - j,
        {
            let rev: usize = reverse_bits(j) as usize;
            proof {
                lemma_reversed8_involution(j);
                assert forall|p: int| 0 <= p < 162 && #[trigger] counter_of(p) == j implies p
                    == rev by {
                    lemma_reversed8_involution(p as u8);
                }
            }
            if rev < 162 {
                d[rev] = data[i];
                i = i + 1;
            }
            if i >= 162 {
                proof {
                    lemma_all_filled((j + 1) as nat);
                    assert(d@ =~= interleaved(data@));
                }
                return d;
            }
            j = j + 1;
        }
        proof {
            assert forall|p: int| 0 <= p < 162 implies #[trigger] counter_of(p) < 255 by {
                let q = p as u8;
                assert(q < 162 ==> reversed8(q) < 255) by (bit_vector);
            }
            assert(d@ =~= interleaved(data@));
        }
        d
    }
}

} // verus!
