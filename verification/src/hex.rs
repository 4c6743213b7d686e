//! The packed message as text: bytes in upper-case hexadecimal.

use crate::value_encode::EncodeError;
use crate::Wspr;
use vstd::prelude::*;
use vstd::string::StringExecFns;

verus! {

/// The sixteen hexadecimal digits, upper case.
pub open spec fn hex_digits() -> Seq<char> {
    seq!['0', '1', '2', '3', '4', '5', '6', '7', '8', '9', 'A', 'B', 'C', 'D', 'E', 'F']
}

/// Character `t` of the text of `bytes`: each byte takes two digits, the
/// high one first, and a space stands between two bytes.
pub open spec fn hex_char_at(bytes: Seq<u8>, t: int) -> char {
    if t % 3 == 0 {
        hex_digits()[(bytes[t / 3] / 16) as int]
    } else if t % 3 == 1 {
        hex_digits()[(bytes[t / 3] % 16) as int]
    } else {
        ' '
    }
}

/// Length of the text of `n` bytes.
pub open spec fn hex_len(n: nat) -> nat {
    if n == 0 {
        0
    } else {
        (3 * n - 1) as nat
    }
}

/// The text of `bytes`: two-digit upper-case hexadecimal, separated by
/// single spaces.
pub open spec fn hex_text(bytes: Seq<u8>) -> Seq<char> {
    Seq::new(hex_len(bytes.len()), |t: int| hex_char_at(bytes, t))
}

/// The hexadecimal digit of a number below sixteen, as a string of one
/// character.
fn hex_digit(n: u8) -> (s: &'static str)
    requires
        n < 16,
    ensures
        s@ == seq![hex_digits()[n as int]],
{
    proof {
        reveal_strlit("0");
        reveal_strlit("1");
        reveal_strlit("2");
        reveal_strlit("3");
        reveal_strlit("4");
        reveal_strlit("5");
        reveal_strlit("6");
        reveal_strlit("7");
        reveal_strlit("8");
        reveal_strlit("9");
        reveal_strlit("A");
        reveal_strlit("B");
        reveal_strlit("C");
        reveal_strlit("D");
        reveal_strlit("E");
        reveal_strlit("F");
    }
    let s = match n {
        0 => "0",
        1 => "1",
        2 => "2",
        3 => "3",
        4 => "4",
        5 => "5",
        6 => "6",
        7 => "7",
        8 => "8",
        9 => "9",
        10 => "A",
        11 => "B",
        12 => "C",
        13 => "D",
        14 => "E",
        _ => "F",
    };
    assert(s@ =~= seq![hex_digits()[n as int]]);
    s
}

impl Wspr {
    /// The packed message as text: its seven bytes in two-digit upper-case
    /// hexadecimal, separated by single spaces.
    pub fn message_str(&self) -> (r: Result<String, EncodeError>)
        requires
            self@.representable(),
        ensures
            match self@.message() {
                Ok(bytes) => r is Ok && r.unwrap()@ == hex_text(bytes),
                Err(e) => r == Err::<String, EncodeError>(e),
            },
            self@.callsign.len() != 6 ==> r == Err::<String, EncodeError>(
                EncodeError::InvalidCallsign,
            ),
    {
        let bytes = self.message()?;
        let mut text = String::new();
        let mut i: usize = 0;
        while i < 7
            invariant
                i <= 7,
                text@.len() == hex_len(i as nat),
                forall|t: int|
                    0 <= t < text@.len() ==> #[trigger] text@[t] == hex_char_at(bytes@, t),
            decreases 7 - i,
        {
            proof {
                reveal_strlit(" ");
            }
            if i > 0 {
                text.append(" ");
            }
            let byte: u8 = bytes[i];
            text.append(hex_digit(byte / 16));
            text.append(hex_digit(byte % 16));
            i = i + 1;
        }
        assert(text@ =~= hex_text(bytes@));
        Ok(text)
    }
}

} // verus!
