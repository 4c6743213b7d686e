//! Transmit-side encoder for the WSPR (Weak Signal Propagation Reporter)
//! protocol: a station's callsign, grid locator and power become the 162
//! four-level channel symbols that a transmitter sends.

use crate::convolve::{coded_bit, convolved};
use crate::interleave::{interleaved, lemma_source_index_in_range, source_index};
use crate::sync::{lemma_sync_bits, merged, sync_vector};
use crate::value_encode::EncodeError;
use vstd::prelude::*;
use vstd::utf8::encode_utf8;

pub mod convolve;
pub mod hex;
pub mod interleave;
pub mod message;
pub mod sync;
pub mod value_encode;

verus! {

/// A station record: who transmits, from where, and how strongly.
pub struct Wspr {
    callsign: String,
    locator: String,
    power_dbm: u8,
}

/// What a station record holds, as plain values: the bytes of the callsign,
/// the bytes of the locator, and the power in dBm.
pub struct Station {
    pub callsign: Seq<u8>,
    pub locator: Seq<u8>,
    pub power_dbm: u8,
}

impl View for Wspr {
    type V = Station;

    closed spec fn view(&self) -> Station {
        Station {
            callsign: encode_utf8(self.callsign@),
            locator: encode_utf8(self.locator@),
            power_dbm: self.power_dbm,
        }
    }
}

impl Station {
    /// The channel symbols of this record: the packed message is coded,
    /// interleaved and merged with the synchronisation vector. Where the
    /// record has no message, its error.
    pub open spec fn symbols(self) -> Result<Seq<u8>, EncodeError> {
        match self.message() {
            Ok(msg) => Ok(merged(interleaved(convolved(msg)))),
            Err(e) => Err(e),
        }
    }

    /// Whether `r` is what encoding this record gives: the array of its
    /// symbols, or its error.
    pub open spec fn encodes_to(self, r: Result<[u8; 162], EncodeError>) -> bool {
        match self.symbols() {
            Ok(symbols) => r is Ok && r.unwrap()@ == symbols,
            Err(e) => r == Err::<[u8; 162], EncodeError>(e),
        }
    }
}

/// Every interleaved coded bit is zero or one.
pub proof fn lemma_interleaved_bits(msg: Seq<u8>)
    ensures
        interleaved(convolved(msg)).len() == 162,
        forall|p: int| 0 <= p < 162 ==> #[trigger] interleaved(convolved(msg))[p] <= 1,
{
    assert forall|p: int| 0 <= p < 162 implies #[trigger] interleaved(convolved(msg))[p] <= 1 by {
        lemma_source_index_in_range(p);
        assert(interleaved(convolved(msg))[p] == coded_bit(msg, source_index(p)) as u8);
    }
}

/// Every channel symbol of a message is one of 0, 1, 2, 3, and there are
/// 162 of them.
pub proof fn lemma_symbol_range(msg: Seq<u8>)
    ensures
        merged(interleaved(convolved(msg))).len() == 162,
        forall|i: int| 0 <= i < 162 ==> #[trigger] merged(interleaved(convolved(msg)))[i] <= 3,
{
    lemma_interleaved_bits(msg);
    lemma_sync_bits();
    assert forall|i: int| 0 <= i < 162 implies #[trigger] merged(interleaved(convolved(msg)))[i]
        <= 3 by {
        if i < 161 {
            assert(interleaved(convolved(msg))[i] <= 1);
            assert(sync_vector()[i] <= 1);
        }
    }
}

/// Encoding is a function of the record: two results of encoding one
/// callsign, locator and power are the same symbols, or the same error.
pub proof fn lemma_encode_deterministic(
    s: Station,
    first: Result<[u8; 162], EncodeError>,
    second: Result<[u8; 162], EncodeError>,
)
    requires
        s.encodes_to(first),
        s.encodes_to(second),
    ensures
        first == second,
{
    if s.symbols() is Ok {
        assert(first.unwrap() =~= second.unwrap());
    }
}

/// What encoding gives has 162 symbols, each one of 0, 1, 2, 3.
pub proof fn lemma_symbols_shape(s: Station)
    ensures
        s.symbols() matches Ok(symbols) ==> symbols.len() == 162 && forall|i: int|
            0 <= i < 162 ==> #[trigger] symbols[i] <= 3,
{
    if let Ok(msg) = s.message() {
        lemma_symbol_range(msg);
    }
}

/// Encoding fails exactly where packing the message fails, and with the
/// same error: the later stages refuse nothing.
pub proof fn lemma_symbols_error(s: Station)
    ensures
        s.symbols() is Err <==> s.message() is Err,
        s.message() matches Err(e) ==> s.symbols() == Err::<Seq<u8>, EncodeError>(e),
{
}

impl Wspr {
    /// A station record of the given callsign, locator and power.
    pub fn new(callsign: String, locator: String, power_dbm: u8) -> (w: Wspr)
        ensures
            w@ == (Station {
                callsign: encode_utf8(callsign@),
                locator: encode_utf8(locator@),
                power_dbm,
            }),
    {
        Wspr { callsign, locator, power_dbm }
    }

    /// The 162 channel symbols of this station's message, each one of 0, 1,
    /// 2, 3. A callsign that is not six bytes long is refused first, then
    /// the first byte of the callsign outside its alphabet, then the first
    /// such byte of the locator.
    pub fn encode(&self) -> (r: Result<[u8; 162], EncodeError>)
        requires
            self@.representable(),
        ensures
            self@.encodes_to(r),
            r matches Ok(symbols) ==> forall|i: int| 0 <= i < 162 ==> #[trigger] symbols[i] <= 3,
            self@.callsign.len() != 6 ==> r == Err::<[u8; 162], EncodeError>(
                EncodeError::InvalidCallsign,
            ),
    {
        let packed = self.message()?;
        let convolved = Wspr::convolve(packed);
        let interleaved = Wspr::interleave(convolved);
        proof {
            lemma_interleaved_bits(packed@);
            lemma_symbol_range(packed@);
        }
        let levels = Wspr::integrate_sync_values(interleaved);
        Ok(levels)
    }
}

} // verus!
