//! The synchronisation vector and the four-level channel symbols.

use crate::Wspr;
use vstd::prelude::*;

verus! {

/// The 162 synchronisation bits that every transmission carries.
pub open spec fn sync_vector() -> Seq<u8> {
    seq![
        1u8, 1, 0, 0, 0, 0, 0, 0, 1, 0, 0, 0, 1, 1, 1, 0, 0, 0, 1, 0, 0, 1, 0, 1, 1, 1, 1, 0, 0,
        0, 0, 0, 0, 0, 1, 0, 0, 1, 0, 1, 0, 0, 0, 0, 0, 0, 1, 0, 1, 1, 0, 0, 1, 1, 0, 1, 0, 0,
        0, 1, 1, 0, 1, 0, 0, 0, 0, 1, 1, 0, 1, 0, 1, 0, 1, 0, 1, 0, 0, 1, 0, 0, 1, 0, 1, 1, 0,
        0, 0, 1, 1, 0, 1, 0, 1, 0, 0, 0, 1, 0, 0, 0, 0, 0, 1, 0, 0, 1, 0, 0, 1, 1, 1, 0, 1, 1,
        0, 0, 1, 1, 0, 1, 0, 0, 0, 1, 1, 1, 0, 0, 0, 0, 0, 1, 0, 1, 0, 0, 1, 1, 0, 0, 0, 0, 0,
        0, 0, 1, 1, 0, 1, 0, 1, 1, 0, 0, 0, 1, 1, 0, 0, 0,
    ]
}

/// The channel symbols of an interleaved stream. Symbol `i` is twice the data
/// bit plus the synchronisation bit, for the first 161 positions; the last
/// symbol is left at zero.
pub open spec fn merged(data: Seq<u8>) -> Seq<u8> {
    Seq::new(
        162,
        |i: int|
            if i < 161 {
                (2 * data[i] + sync_vector()[i]) as u8
            } else {
                0u8
            },
    )
}

/// Every synchronisation bit is zero or one.
pub proof fn lemma_sync_bits()
    ensures
        sync_vector().len() == 162,
        forall|i: int| 0 <= i < 162 ==> #[trigger] sync_vector()[i] <= 1,
{
}

impl Wspr {
    /// Merges the interleaved data bits with the synchronisation vector:
    /// each of the first 161 symbols is twice the data bit plus the
    /// synchronisation bit, and the last symbol stays zero. The doubling
    /// must fit a byte, so the data are at most 127.
    pub fn integrate_sync_values(data: [u8; 162]) -> (out: [u8; 162])
        requires
            forall|i: int| 0 <= i < 161 ==> #[trigger] data[i] <= 127,
        ensures
            out@ == merged(data@),
    {
        let sync: [u8; 162] = [
            1, 1, 0, 0, 0, 0, 0, 0, 1, 0, 0, 0, 1, 1, 1, 0, 0, 0, 1, 0, 0, 1, 0, 1, 1, 1, 1, 0, 0,
            0, 0, 0, 0, 0, 1, 0, 0, 1, 0, 1, 0, 0, 0, 0, 0, 0, 1, 0, 1, 1, 0, 0, 1, 1, 0, 1, 0, 0,
            0, 1, 1, 0, 1, 0, 0, 0, 0, 1, 1, 0, 1, 0, 1, 0, 1, 0, 1, 0, 0, 1, 0, 0, 1, 0, 1, 1, 0,
            0, 0, 1, 1, 0, 1, 0, 1, 0, 0, 0, 1, 0, 0, 0, 0, 0, 1, 0, 0, 1, 0, 0, 1, 1, 1, 0, 1, 1,
            0, 0, 1, 1, 0, 1, 0, 0, 0, 1, 1, 1, 0, 0, 0, 0, 0, 1, 0, 1, 0, 0, 1, 1, 0, 0, 0, 0, 0,
            0, 0, 1, 1, 0, 1, 0, 1, 1, 0, 0, 0, 1, 1, 0, 0, 0,
        ];
        assert(sync@ =~= sync_vector());
        proof {
            lemma_sync_bits();
        }
        let mut result: [u8; 162] = [0; 162];
        let mut i: usize = 0;
        while i < 161
            invariant
                i <= 161,
                sync@ == sync_vector(),
                forall|t: int| 0 <= t < 161 ==> #[trigger] data[t] <= 127,
                forall|t: int| 0 <= t < 162 ==> #[trigger] sync_vector()[t] <= 1,
                forall|t: int|
                    0 <= t < i ==> #[trigger] result[t] == 2 * data[t] + sync_vector()[t],
                forall|t: int| i <= t < 162 ==> #[trigger] result[t] == 0,
            decreases 161 - i,
        {
            result[i] = data[i] * 2 + sync[i];
            i = i + 1;
        }
        assert(result@ =~= merged(data@));
        result
    }
}

} // verus!
