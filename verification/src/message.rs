//! The packed message: callsign, locator and power in 50 bits.

use crate::value_encode::{
    encode_locator_char, encode_num_str, locator_char_value, num_str_value, EncodeError,
};
use crate::{Station, Wspr};
use vstd::prelude::*;

verus! {

/// Value of `c` in the alphanumeric alphabet, where it has one.
pub open spec fn num(c: u8) -> int {
    num_str_value(c).unwrap()
}

/// Value of `c` in the locator alphabet, where it has one.
pub open spec fn grid(c: u8) -> int {
    locator_char_value(c).unwrap()
}

/// The number that stands for a callsign. A callsign is six bytes of the
/// alphanumeric alphabet; its bytes are weighed in mixed radix 37, 36, 10,
/// 27, 27, 27, the last three counted from the letter `A`. A callsign of
/// another length is refused before any byte is looked at; after that the
/// first byte without a value is reported.
pub open spec fn call_value(cs: Seq<u8>) -> Result<int, EncodeError> {
    if cs.len() != 6 {
        Err(EncodeError::InvalidCallsign)
    } else if num_str_value(cs[0]) is None {
        Err(EncodeError::InvalidChar(cs[0]))
    } else if num_str_value(cs[1]) is None {
        Err(EncodeError::InvalidChar(cs[1]))
    } else if num_str_value(cs[2]) is None {
        Err(EncodeError::InvalidChar(cs[2]))
    } else if num_str_value(cs[3]) is None {
        Err(EncodeError::InvalidChar(cs[3]))
    } else if num_str_value(cs[4]) is None {
        Err(EncodeError::InvalidChar(cs[4]))
    } else if num_str_value(cs[5]) is None {
        Err(EncodeError::InvalidChar(cs[5]))
    } else {
        Ok(
            ((((num(cs[0]) * 36 + num(cs[1])) * 10 + num(cs[2])) * 27 + num(cs[3]) - 10) * 27
                + num(cs[4]) - 10) * 27 + num(cs[5]) - 10,
        )
    }
}

/// The number that stands for a locator, from its first four bytes: two
/// letters `A` to `R`, then two bytes of the alphanumeric alphabet. The bytes
/// are checked in the order first, third, second, fourth, and the first
/// without a value is reported.
pub open spec fn locator_value(loc: Seq<u8>) -> Result<int, EncodeError>
    recommends
        loc.len() >= 4,
{
    if locator_char_value(loc[0]) is None {
        Err(EncodeError::InvalidChar(loc[0]))
    } else if num_str_value(loc[2]) is None {
        Err(EncodeError::InvalidChar(loc[2]))
    } else if locator_char_value(loc[1]) is None {
        Err(EncodeError::InvalidChar(loc[1]))
    } else if num_str_value(loc[3]) is None {
        Err(EncodeError::InvalidChar(loc[3]))
    } else {
        Ok((179 - 10 * grid(loc[0]) - num(loc[2])) * 180 + 10 * grid(loc[1]) + num(loc[3]))
    }
}

/// The locator number joined with the power: seven bits are made free for
/// the power, which enters with an offset of 64. The power is taken as it
/// is given, also above the 60 dBm that the protocol knows; from 64 dBm on
/// it carries into the bits of the locator number.
pub open spec fn power_value(loc: Seq<u8>, power_dbm: u8) -> Result<int, EncodeError>
    recommends
        loc.len() >= 4,
{
    match locator_value(loc) {
        Ok(m1) => Ok(m1 * 128 + power_dbm + 64),
        Err(e) => Err(e),
    }
}

/// The 56-bit word of a message: the callsign number in the upper 28 bits,
/// the locator and power number in the next 22, and six zero bits.
pub open spec fn packed_word(n: int, m: int) -> int {
    n * 0x1000_0000 + m * 0x40
}

/// The seven bytes of a 56-bit word, the most significant first.
pub open spec fn word_bytes(w: int) -> Seq<u8> {
    seq![
        (w / 0x1_0000_0000_0000 % 0x100) as u8,
        (w / 0x100_0000_0000 % 0x100) as u8,
        (w / 0x1_0000_0000 % 0x100) as u8,
        (w / 0x100_0000 % 0x100) as u8,
        (w / 0x1_0000 % 0x100) as u8,
        (w / 0x100 % 0x100) as u8,
        (w % 0x100) as u8,
    ]
}

impl Station {
    /// The callsign number, or why the callsign has none.
    pub open spec fn call(self) -> Result<int, EncodeError> {
        call_value(self.callsign)
    }

    /// The locator number, or why the locator has none.
    pub open spec fn square(self) -> Result<int, EncodeError> {
        locator_value(self.locator)
    }

    /// The locator and power number.
    pub open spec fn square_and_power(self) -> Result<int, EncodeError> {
        power_value(self.locator, self.power_dbm)
    }

    /// Whether the numbers of this record can be computed in machine
    /// integers, so far as they are asked for: where the callsign has a
    /// number it is not negative, the locator then has four bytes, and its
    /// number, where it has one, is not negative either.
    ///
    /// A callsign number is negative only where the callsign begins with
    /// `000` and has a digit among its last three bytes, as `000000` has. A
    /// locator number is negative only where the locator begins with `P`,
    /// `Q` or `R` and has a letter or a space in its third place.
    pub open spec fn representable(self) -> bool {
        self.call() matches Ok(n) ==> {
            &&& n >= 0
            &&& self.locator.len() >= 4
            &&& self.square() matches Ok(m1) ==> m1 >= 0
        }
    }

    /// Whether the fields of this record have the form that stations use:
    /// a callsign of six bytes of the alphanumeric alphabet, of which the
    /// last three are no digits, and a locator that begins with two letters
    /// `A` to `R` and two digits.
    pub open spec fn regular(self) -> bool {
        &&& self.callsign.len() == 6
        &&& forall|i: int| 0 <= i < 3 ==> num_str_value(#[trigger] self.callsign[i]) is Some
        &&& forall|i: int|
            3 <= i < 6 ==> (num_str_value(#[trigger] self.callsign[i]) matches Some(v) && v >= 10)
        &&& self.locator.len() >= 4
        &&& forall|i: int| 0 <= i < 2 ==> locator_char_value(#[trigger] self.locator[i]) is Some
        &&& forall|i: int|
            2 <= i < 4 ==> (num_str_value(#[trigger] self.locator[i]) matches Some(v) && v <= 9)
    }

    /// The packed message, or the first error met: the callsign's before the
    /// locator's.
    pub open spec fn message(self) -> Result<Seq<u8>, EncodeError> {
        match self.call() {
            Err(e) => Err(e),
            Ok(n) => match self.square_and_power() {
                Err(e) => Err(e),
                Ok(m) => Ok(word_bytes(packed_word(n, m))),
            },
        }
    }
}

/// The callsign number of six or any other count of bytes, in signed
/// arithmetic.
fn call_number(cs: &[u8]) -> (r: Result<i64, EncodeError>)
    ensures
        match call_value(cs@) {
            Ok(n) => r == Ok::<i64, EncodeError>(n as i64) && -7_570 <= n < 0x1000_0000,
            Err(e) => r == Err::<i64, EncodeError>(e),
        },
{
    if cs.len() != 6 {
        return Err(EncodeError::InvalidCallsign);
    }
    let mut n: i64 = encode_num_str(cs[0])? as i64;
    n = n * 36 + encode_num_str(cs[1])? as i64;
    n = n * 10 + encode_num_str(cs[2])? as i64;
    n = n * 27 + encode_num_str(cs[3])? as i64 - 10;
    n = n * 27 + encode_num_str(cs[4])? as i64 - 10;
    n = n * 27 + encode_num_str(cs[5])? as i64 - 10;
    Ok(n)
}

/// The locator number of the first four bytes of a locator, in signed
/// arithmetic.
fn locator_number(loc: &[u8]) -> (r: Result<i32, EncodeError>)
    requires
        loc@.len() >= 4,
    ensures
        match locator_value(loc@) {
            Ok(m1) => r == Ok::<i32, EncodeError>(m1 as i32) && -4_860 <= m1 <= 32_426,
            Err(e) => r == Err::<i32, EncodeError>(e),
        },
{
    let m1: i32 = (179 - 10 * (encode_locator_char(loc[0])? as i32) - (encode_num_str(loc[2])?
        as i32)) * 180 + 10 * (encode_locator_char(loc[1])? as i32) + (encode_num_str(loc[3])?
        as i32);
    Ok(m1)
}

impl Wspr {
    /// Whether the numbers of this record can be computed in machine
    /// integers: the test that a caller makes before encoding.
    pub fn is_representable(&self) -> (b: bool)
        ensures
            b == self@.representable(),
    {
        match call_number(self.callsign.as_str().as_bytes()) {
            Err(_) => true,
            Ok(n) => {
                let loc = self.locator.as_str().as_bytes();
                if n < 0 || loc.len() < 4 {
                    false
                } else {
                    match locator_number(loc) {
                        Err(_) => true,
                        Ok(m1) => m1 >= 0,
                    }
                }
            },
        }
    }

    /// The callsign as a number.
    pub fn encode_call(&self) -> (r: Result<u64, EncodeError>)
        requires
            self@.call() matches Ok(n) ==> n >= 0,
        ensures
            match self@.call() {
                Ok(n) => r == Ok::<u64, EncodeError>(n as u64) && 0 <= n < 0x1000_0000,
                Err(e) => r == Err::<u64, EncodeError>(e),
            },
            self@.callsign.len() != 6 ==> r == Err::<u64, EncodeError>(
                EncodeError::InvalidCallsign,
            ),
    {
        let n = call_number(self.callsign.as_str().as_bytes())?;
        Ok(n as u64)
    }

    /// The locator as a number, computed in 32-bit signed arithmetic and
    /// widened to 64 bits with its sign.
    pub fn encode_m1(&self) -> (r: Result<u64, EncodeError>)
        requires
            self@.locator.len() >= 4,
        ensures
            match self@.square() {
                Ok(m1) => r == Ok::<u64, EncodeError>(
                    (if m1 >= 0 {
                        m1
                    } else {
                        m1 + 0x1_0000_0000_0000_0000
                    }) as u64,
                ),
                Err(e) => r == Err::<u64, EncodeError>(e),
            },
    {
        let m1 = locator_number(self.locator.as_str().as_bytes())?;
        assert(m1 as u64 == (if m1 >= 0 {
            m1 as int
        } else {
            m1 + 0x1_0000_0000_0000_0000
        })) by (bit_vector);
        Ok(m1 as u64)
    }

    /// The locator and the power as one number.
    pub fn encode_m(&self) -> (r: Result<u64, EncodeError>)
        requires
            self@.locator.len() >= 4,
            self@.square() matches Ok(m1) ==> m1 >= 0,
        ensures
            match self@.square_and_power() {
                Ok(m) => r == Ok::<u64, EncodeError>(m as u64) && 0 <= m < 0x40_0000,
                Err(e) => r == Err::<u64, EncodeError>(e),
            },
    {
        let m: u64 = self.encode_m1()? * 128 + self.power_dbm as u64 + 64;
        Ok(m)
    }

    /// The packed message: 28 bits of callsign, 22 bits of locator and power,
    /// and six zero bits, in seven bytes.
    pub fn message(&self) -> (r: Result<[u8; 7], EncodeError>)
        requires
            self@.representable(),
        ensures
            match self@.message() {
                Ok(bytes) => r is Ok && r.unwrap()@ == bytes,
                Err(e) => r == Err::<[u8; 7], EncodeError>(e),
            },
            self@.callsign.len() != 6 ==> r == Err::<[u8; 7], EncodeError>(
                EncodeError::InvalidCallsign,
            ),
            r matches Ok(bytes) ==> bytes[6] % 0x40 == 0,
    {
        let mut int_a: u32 = self.encode_call()? as u32;
        let mut int_b: u32 = self.encode_m()? as u32;
        let ghost a: u32 = int_a;
        let ghost b: u32 = int_b;

        let mut bytes: [u8; 7] = [0; 7];
        bytes[3] = ((int_a & 0xF) as u8) << 4;
        int_a >>= 4;
        bytes[2] = (int_a & 0xFF) as u8;
        int_a >>= 8;
        bytes[1] = (int_a & 0xFF) as u8;
        int_a >>= 8;
        bytes[0] = (int_a & 0xFF) as u8;
        bytes[6] = ((int_b & 0x3) << 6) as u8;
        int_b >>= 2;
        bytes[5] = (int_b & 0xFF) as u8;
        int_b >>= 8;
        bytes[4] = (int_b & 0xFF) as u8;
        int_b >>= 8;
        bytes[3] |= int_b as u8 & 0xF;
        proof {
            lemma_packed_bytes(a, b);
            assert(bytes@ =~= word_bytes(packed_word(a as int, b as int)));
            lemma_padding_is_zero(a as int, b as int);
        }
        Ok(bytes)
    }
}

/// The shifts and masks that cut a word of 28 and 22 bits into bytes give
/// the bytes of the word.
proof fn lemma_packed_bytes(a: u32, b: u32)
    requires
        a < 0x1000_0000,
        b < 0x40_0000,
    ensures
        word_bytes(packed_word(a as int, b as int)) == seq![
            (((a >> 4) >> 8) >> 8 & 0xFF) as u8,
            ((a >> 4) >> 8 & 0xFF) as u8,
            (a >> 4 & 0xFF) as u8,
            (((a & 0xF) as u8) << 4) | ((((b >> 2) >> 8) >> 8) as u8 & 0xF),
            ((b >> 2) >> 8 & 0xFF) as u8,
            (b >> 2 & 0xFF) as u8,
            ((b & 0x3) << 6) as u8,
        ],
{
    let w: u64 = (a as u64 * 0x1000_0000 + b as u64 * 0x40) as u64;
    assert(w == packed_word(a as int, b as int));
    assert((w / 0x1_0000_0000_0000 % 0x100) as u8 == (((a >> 4) >> 8) >> 8 & 0xFF) as u8
        && (w / 0x100_0000_0000 % 0x100) as u8 == ((a >> 4) >> 8 & 0xFF) as u8
        && (w / 0x1_0000_0000 % 0x100) as u8 == (a >> 4 & 0xFF) as u8
        && (w / 0x100_0000 % 0x100) as u8 == (((a & 0xF) as u8) << 4) | ((((b >> 2) >> 8) >> 8) as u8
        & 0xF)
        && (w / 0x1_0000 % 0x100) as u8 == ((b >> 2) >> 8 & 0xFF) as u8
        && (w / 0x100 % 0x100) as u8 == (b >> 2 & 0xFF) as u8
        && (w % 0x100) as u8 == ((b & 0x3) << 6) as u8) by (bit_vector)
        requires
            a < 0x1000_0000,
            b < 0x40_0000,
            w == a as u64 * 0x1000_0000 + b as u64 * 0x40,
    ;
}

/// The last six bits of a packed message are zero.
pub proof fn lemma_padding_is_zero(n: int, m: int)
    requires
        0 <= n,
        0 <= m,
    ensures
        word_bytes(packed_word(n, m)).len() == 7,
        word_bytes(packed_word(n, m))[6] % 0x40 == 0,
{
}

/// A callsign that is not six bytes long is refused as such, whatever its
/// bytes, the locator and the power are.
pub proof fn lemma_callsign_length_comes_first(s: Station)
    requires
        s.callsign.len() != 6,
    ensures
        s.representable(),
        s.call() == Err::<int, EncodeError>(EncodeError::InvalidCallsign),
        s.message() == Err::<Seq<u8>, EncodeError>(EncodeError::InvalidCallsign),
        s.symbols() == Err::<Seq<u8>, EncodeError>(EncodeError::InvalidCallsign),
{
}

/// In a callsign of six bytes, the first byte outside the alphanumeric
/// alphabet is reported, whatever the locator and the power are.
pub proof fn lemma_callsign_byte_reported(s: Station, i: int)
    requires
        s.callsign.len() == 6,
        0 <= i < 6,
        num_str_value(s.callsign[i]) is None,
        forall|k: int| 0 <= k < i ==> num_str_value(#[trigger] s.callsign[k]) is Some,
    ensures
        s.representable(),
        s.call() == Err::<int, EncodeError>(EncodeError::InvalidChar(s.callsign[i])),
        s.message() == Err::<Seq<u8>, EncodeError>(EncodeError::InvalidChar(s.callsign[i])),
        s.symbols() == Err::<Seq<u8>, EncodeError>(EncodeError::InvalidChar(s.callsign[i])),
{
    if i > 0 {
        assert(num_str_value(s.callsign[0]) is Some);
    }
    if i > 1 {
        assert(num_str_value(s.callsign[1]) is Some);
    }
    if i > 2 {
        assert(num_str_value(s.callsign[2]) is Some);
    }
    if i > 3 {
        assert(num_str_value(s.callsign[3]) is Some);
    }
    if i > 4 {
        assert(num_str_value(s.callsign[4]) is Some);
    }
}

/// Whether byte `i` of a locator belongs to the alphabet of its place:
/// letters `A` to `R` in the first two places, the alphanumeric alphabet in
/// the next two.
pub open spec fn locator_byte_allowed(loc: Seq<u8>, i: int) -> bool {
    if i < 2 {
        locator_char_value(loc[i]) is Some
    } else {
        num_str_value(loc[i]) is Some
    }
}

/// The place of a locator that is checked as number `k`: the first, the
/// third, the second, the fourth.
pub open spec fn locator_check_order(k: int) -> int {
    if k == 0 {
        0
    } else if k == 1 {
        2
    } else if k == 2 {
        1
    } else {
        3
    }
}

/// Where the callsign has a number, the first byte of the locator that is
/// outside the alphabet of its place, in the order of checking, is reported.
pub proof fn lemma_locator_byte_reported(s: Station, k: int)
    requires
        s.call() is Ok,
        s.locator.len() >= 4,
        0 <= k < 4,
        !locator_byte_allowed(s.locator, locator_check_order(k)),
        forall|j: int|
            0 <= j < k ==> locator_byte_allowed(s.locator, #[trigger] locator_check_order(j)),
    ensures
        s.square() == Err::<int, EncodeError>(
            EncodeError::InvalidChar(s.locator[locator_check_order(k)]),
        ),
        s.message() == Err::<Seq<u8>, EncodeError>(
            EncodeError::InvalidChar(s.locator[locator_check_order(k)]),
        ),
        s.symbols() == Err::<Seq<u8>, EncodeError>(
            EncodeError::InvalidChar(s.locator[locator_check_order(k)]),
        ),
{
    if k > 0 {
        assert(locator_byte_allowed(s.locator, locator_check_order(0)));
    }
    if k > 1 {
        assert(locator_byte_allowed(s.locator, locator_check_order(1)));
    }
    if k > 2 {
        assert(locator_byte_allowed(s.locator, locator_check_order(2)));
    }
}

/// A record whose callsign and locator keep to their alphabets has a
/// message, of seven bytes, and so has symbols.
pub proof fn lemma_message_exists(s: Station)
    requires
        s.callsign.len() == 6,
        forall|i: int| 0 <= i < 6 ==> num_str_value(#[trigger] s.callsign[i]) is Some,
        forall|i: int| 0 <= i < 4 ==> #[trigger] locator_byte_allowed(s.locator, i),
    ensures
        s.message() matches Ok(bytes) && bytes.len() == 7,
        s.symbols() is Ok,
{
    assert(num_str_value(s.callsign[0]) is Some);
    assert(num_str_value(s.callsign[1]) is Some);
    assert(num_str_value(s.callsign[2]) is Some);
    assert(num_str_value(s.callsign[3]) is Some);
    assert(num_str_value(s.callsign[4]) is Some);
    assert(num_str_value(s.callsign[5]) is Some);
    assert(locator_byte_allowed(s.locator, 0));
    assert(locator_byte_allowed(s.locator, 1));
    assert(locator_byte_allowed(s.locator, 2));
    assert(locator_byte_allowed(s.locator, 3));
}

/// A record of the regular form is representable and has a message and
/// symbols: encoding it succeeds.
pub proof fn lemma_regular_record_encodes(s: Station)
    requires
        s.regular(),
    ensures
        s.representable(),
        s.call() matches Ok(n) && 0 <= n < 0x1000_0000,
        s.square() matches Ok(m1) && 0 <= m1 <= 32_399,
        s.message() is Ok,
        s.symbols() is Ok,
{
    assert(num_str_value(s.callsign[0]) is Some);
    assert(num_str_value(s.callsign[1]) is Some);
    assert(num_str_value(s.callsign[2]) is Some);
    assert(num_str_value(s.callsign[3]) is Some);
    assert(num_str_value(s.callsign[4]) is Some);
    assert(num_str_value(s.callsign[5]) is Some);
    assert(locator_char_value(s.locator[0]) is Some);
    assert(locator_char_value(s.locator[1]) is Some);
    assert(num_str_value(s.locator[2]) is Some);
    assert(num_str_value(s.locator[3]) is Some);
}

/// Which numbers are negative: a callsign's only after three leading
/// zeros and with a digit among the last three bytes, a locator's only
/// where the first and the third byte together pass 179.
pub proof fn lemma_negative_numbers(s: Station)
    ensures
        s.call() matches Ok(n) ==> (n < 0 ==> {
            &&& s.callsign[0] == 0x30 && s.callsign[1] == 0x30 && s.callsign[2] == 0x30
            &&& num(s.callsign[3]) < 10 || num(s.callsign[4]) < 10 || num(s.callsign[5]) < 10
        }),
        s.square() matches Ok(m1) ==> (m1 < 0 ==> {
            &&& 10 * grid(s.locator[0]) + num(s.locator[2]) > 179
            &&& grid(s.locator[0]) >= 15
            &&& num(s.locator[2]) >= 10
        }),
{
}

/// A message has seven bytes.
pub proof fn lemma_message_length(s: Station)
    ensures
        s.message() matches Ok(bytes) ==> bytes.len() == 7,
{
}

/// A callsign number that is not negative fits in 28 bits, and a locator
/// number that is not negative leaves the locator and power number within
/// 22 bits.
pub proof fn lemma_value_bounds(s: Station)
    ensures
        s.call() matches Ok(n) ==> n < 0x1000_0000,
        s.square() matches Ok(m1) ==> m1 <= 32_426,
        s.square() matches Ok(m1) ==> (s.square_and_power() matches Ok(m) && m == m1 * 128
            + s.power_dbm + 64 && (m1 >= 0 ==> 0 <= m < 0x40_0000)),
{
}

} // verus!
