use wspr::value_encode::EncodeError;
use wspr::Wspr;

fn station(callsign: &str, locator: &str, power_dbm: u8) -> Wspr {
    Wspr::new(callsign.to_owned(), locator.to_owned(), power_dbm)
}

#[test]
fn message_of_vk3xe() {
    let packed = station("VK3XE ", "QF22", 23).message();
    assert_eq!(packed, Ok([213, 80, 28, 225, 133, 21, 192]));
}

#[test]
fn message_of_vk3tcp() {
    let packed = station("VK3TCP", "QF22", 23).message();
    assert_eq!(packed, Ok([213, 79, 98, 145, 133, 21, 192]));
}

#[test]
fn message_of_g0upl() {
    let packed = station(" G0UPL", "IO91", 20).message();
    assert_eq!(packed, Ok([246, 74, 197, 71, 250, 181, 0]));
}

#[test]
fn message_is_the_word_of_both_numbers() {
    let w = station("VK3XE ", "QF22", 23);
    let n = w.encode_call().unwrap();
    let m = w.encode_m().unwrap();
    let word = (n << 28) | (m << 6);
    let bytes = word.to_be_bytes();
    assert_eq!(bytes[0], 0);
    assert_eq!(w.message().unwrap(), bytes[1..8]);
}

#[test]
fn message_ends_in_six_zero_bits() {
    for power in [0u8, 23, 60, 63, 64, 255] {
        for locator in ["AA00", "QF22", "RR99", "AR0 ", "IO91"] {
            let packed = station("VK3XE ", locator, power).message().unwrap();
            assert_eq!(packed[6] & 0x3F, 0);
        }
    }
}

#[test]
fn message_of_the_largest_numbers() {
    let w = station("      ", "AR0 ", 255);
    assert_eq!(w.encode_call(), Ok(262_905_830));
    assert_eq!(w.encode_m1(), Ok(32_426));
    assert_eq!(w.encode_m(), Ok(4_150_847));
    assert_eq!(w.message(), Ok([250, 185, 254, 111, 213, 143, 192]));
}

#[test]
fn message_of_the_smallest_numbers() {
    let w = station("000AAA", "RR99", 0);
    assert_eq!(w.encode_call(), Ok(0));
    assert_eq!(w.encode_m1(), Ok(179));
    assert_eq!(w.encode_m(), Ok(22_976));
    assert_eq!(w.message(), Ok([0, 0, 0, 0, 22, 112, 0]));
}

#[test]
fn encode_call_weighs_the_bytes_in_mixed_radix() {
    assert_eq!(station("ZZ9ZZZ", "QF22", 0).encode_call(), Ok(255_090_922));
    assert_eq!(station("K1ABC ", "QF22", 0).encode_call(), Ok(142_112_069));
    assert_eq!(station(" K1ABC", "QF22", 0).encode_call(), Ok(259_047_992));
    assert_eq!(
        station("100AAA", "QF22", 0).encode_call(),
        Ok(36 * 10 * 27 * 27 * 27)
    );
    assert_eq!(station("010AAA", "QF22", 0).encode_call(), Ok(10 * 27 * 27 * 27));
    assert_eq!(station("001AAA", "QF22", 0).encode_call(), Ok(27 * 27 * 27));
    assert_eq!(station("000BAA", "QF22", 0).encode_call(), Ok(27 * 27));
    assert_eq!(station("000ABA", "QF22", 0).encode_call(), Ok(27));
    assert_eq!(station("000AAB", "QF22", 0).encode_call(), Ok(1));
}

#[test]
fn encode_call_takes_digits_in_the_last_places() {
    // A digit counts ten less than the letter `A`.
    assert_eq!(station("VK3000", "QF22", 0).encode_call(), Ok(223_650_359));
    assert_eq!(station("000B00", "QF22", 0).encode_call(), Ok(27 * 27 - 270 - 10));
}

#[test]
fn encode_m1_of_the_corners() {
    assert_eq!(station("VK3XE ", "AA00", 0).encode_m1(), Ok(32_220));
    assert_eq!(station("VK3XE ", "RR99", 0).encode_m1(), Ok(179));
    assert_eq!(station("VK3XE ", "RA90", 0).encode_m1(), Ok(0));
    assert_eq!(station("VK3XE ", "IO91", 0).encode_m1(), Ok(16_341));
    assert_eq!(station("VK3XE ", "AA  ", 0).encode_m1(), Ok(25_776));
    // 179 - 10 * 15 - 30 is -1, and 10 * 17 + 36 outweighs -180.
    assert_eq!(station("VK3XE ", "PRU ", 0).encode_m1(), Ok(26));
}

#[test]
fn encode_m1_reads_four_bytes_only() {
    assert_eq!(station("VK3XE ", "QF22xx", 0).encode_m1(), Ok(3112));
    assert_eq!(station("VK3XE ", "QF22\u{e9}!", 0).encode_m1(), Ok(3112));
    assert_eq!(
        station("VK3XE ", "QF22xx", 23).encode(),
        station("VK3XE ", "QF22", 23).encode()
    );
}

#[test]
fn encode_m1_keeps_the_sign_of_a_negative_number() {
    // 179 - 10 * 17 - 10 is -1, so the number is -180 + 170 + 0.
    let w = station("VK3XE ", "RRA0", 0);
    assert_eq!(w.encode_m1(), Ok(u64::MAX - 9));
    assert!(!w.is_representable());
}

#[test]
fn encode_m_adds_the_power_unchecked() {
    assert_eq!(station("VK3XE ", "QF22", 0).encode_m(), Ok(398_400));
    assert_eq!(station("VK3XE ", "QF22", 60).encode_m(), Ok(398_460));
    assert_eq!(station("VK3XE ", "QF22", 255).encode_m(), Ok(398_655));
    assert_eq!(station("VK3XE ", "AA00", 0).encode_m(), Ok(4_124_224));
}

#[test]
fn message_str_of_the_known_stations() {
    assert_eq!(
        station("VK3XE ", "QF22", 23).message_str(),
        Ok("D5 50 1C E1 85 15 C0".to_owned())
    );
    assert_eq!(
        station("VK3TCP", "QF22", 23).message_str(),
        Ok("D5 4F 62 91 85 15 C0".to_owned())
    );
    assert_eq!(
        station(" G0UPL", "IO91", 20).message_str(),
        Ok("F6 4A C5 47 FA B5 00".to_owned())
    );
    assert_eq!(
        station("000AAA", "RR99", 0).message_str(),
        Ok("00 00 00 00 16 70 00".to_owned())
    );
    assert_eq!(
        station("      ", "AR0 ", 255).message_str(),
        Ok("FA B9 FE 6F D5 8F C0".to_owned())
    );
}

#[test]
fn message_str_is_the_hex_of_the_message() {
    for (callsign, locator, power) in [("VK3XE ", "QF22", 23u8), (" K1ABC", "FN42", 37)] {
        let w = station(callsign, locator, power);
        let bytes = w.message().unwrap();
        let expected: Vec<String> = bytes.iter().map(|b| format!("{b:02X}")).collect();
        assert_eq!(w.message_str(), Ok(expected.join(" ")));
    }
}

#[test]
fn message_str_reports_the_error_of_the_message() {
    assert_eq!(
        station("VK3XE", "QF22", 23).message_str(),
        Err(EncodeError::InvalidCallsign)
    );
    assert_eq!(
        station("VK3XE ", "QF2x", 23).message_str(),
        Err(EncodeError::InvalidChar(b'x'))
    );
}

#[test]
fn is_representable_tells_the_records_in_range() {
    assert!(station("VK3XE ", "QF22", 23).is_representable());
    assert!(station("000AAA", "RR99", 0).is_representable());
    assert!(station("      ", "AR0 ", 255).is_representable());
    // A callsign without a number is refused by the encoder itself.
    assert!(station("VK3XE", "", 0).is_representable());
    assert!(station("vk3xe ", "Q", 0).is_representable());
    // The same of a locator with a byte outside its alphabet.
    assert!(station("VK3XE ", "SF22", 0).is_representable());
    // Callsign numbers below zero.
    assert!(!station("000000", "QF22", 0).is_representable());
    assert!(!station("0009ZZ", "QF22", 0).is_representable());
    assert!(!station("000A0Z", "QF22", 0).is_representable());
    assert!(!station("000AA9", "QF22", 0).is_representable());
    // Locators that are too short, or whose number is below zero.
    assert!(!station("VK3XE ", "", 0).is_representable());
    assert!(!station("VK3XE ", "QF2", 0).is_representable());
    assert!(!station("VK3XE ", "RRA0", 0).is_representable());
    assert!(!station("VK3XE ", "QA  ", 0).is_representable());
    assert!(!station("VK3XE ", "PAZ0", 0).is_representable());
    assert!(station("VK3XE ", "PRU ", 0).is_representable());
    assert!(station("VK3XE ", "OA  ", 0).is_representable());
}
