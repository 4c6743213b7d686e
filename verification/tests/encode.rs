use wspr::value_encode::EncodeError;
use wspr::Wspr;

#[test]
fn vk3xe_qf22_23() {
    let expected: Result<[u8; 162], EncodeError> = Ok([
        3, 3, 0, 2, 0, 2, 0, 2, 1, 2, 2, 0, 3, 3, 3, 2, 2, 2, 1, 2, 0, 1, 2, 1, 3, 1, 1, 2, 2,
        2, 2, 2, 0, 2, 3, 2, 0, 1, 0, 3, 2, 2, 0, 0, 0, 0, 3, 0, 3, 1, 2, 2, 1, 3, 2, 1, 2, 0,
        0, 1, 1, 0, 1, 2, 2, 0, 2, 3, 3, 2, 3, 2, 1, 0, 1, 0, 3, 2, 0, 3, 2, 2, 3, 0, 1, 3, 2,
        2, 2, 1, 3, 0, 1, 2, 1, 0, 0, 0, 1, 2, 2, 2, 2, 2, 3, 0, 0, 3, 0, 2, 1, 3, 1, 0, 3, 3,
        2, 2, 3, 1, 2, 1, 2, 2, 2, 3, 1, 3, 2, 2, 0, 0, 0, 1, 0, 1, 2, 0, 1, 1, 2, 0, 2, 0, 0,
        0, 0, 3, 3, 2, 3, 2, 3, 3, 0, 2, 0, 3, 1, 0, 0, 0,
    ]);

    let result = Wspr::new("VK3XE ".to_owned(), "QF22".to_owned(), 23).encode();
    assert_eq!(expected, result);
}

#[test]
fn vk3tcp_qf22_23() {
    let expected: Result<[u8; 162], EncodeError> = Ok([
        3, 1, 0, 2, 0, 2, 2, 2, 1, 0, 2, 0, 1, 1, 1, 2, 2, 0, 3, 2, 2, 1, 2, 1, 3, 1, 1, 2, 0,
        0, 2, 2, 0, 2, 3, 2, 2, 3, 0, 3, 2, 0, 0, 0, 2, 0, 1, 0, 3, 1, 2, 2, 3, 1, 0, 1, 2, 0,
        2, 1, 1, 0, 3, 2, 2, 0, 0, 3, 1, 0, 3, 2, 1, 0, 1, 0, 3, 2, 2, 3, 2, 0, 3, 0, 3, 1, 0,
        2, 2, 1, 1, 0, 1, 2, 1, 0, 0, 2, 3, 2, 2, 2, 2, 2, 3, 0, 0, 3, 2, 0, 1, 3, 1, 2, 3, 3,
        2, 2, 3, 1, 2, 3, 2, 2, 2, 3, 3, 3, 2, 0, 2, 0, 2, 1, 0, 1, 2, 0, 3, 1, 0, 2, 0, 0, 0,
        0, 0, 3, 1, 2, 1, 2, 3, 3, 2, 2, 2, 3, 1, 0, 0, 0,
    ]);

    let result = Wspr::new("VK3TCP".to_owned(), "QF22".to_owned(), 23).encode();
    assert_eq!(expected, result);
}

#[test]
fn test_encode_g0upl_io91_20() {
    let expected: Result<[u8; 162], EncodeError> = Ok([
        3, 3, 0, 2, 0, 0, 2, 2, 1, 2, 0, 0, 3, 3, 1, 0, 2, 0, 3, 2, 2, 3, 2, 3, 1, 3, 1, 2, 0,
        0, 2, 2, 0, 2, 1, 2, 0, 3, 2, 1, 0, 0, 0, 2, 0, 2, 1, 2, 1, 3, 2, 2, 3, 3, 0, 1, 0, 0,
        0, 1, 1, 2, 1, 0, 2, 2, 0, 1, 1, 0, 1, 2, 3, 0, 3, 2, 1, 0, 2, 3, 2, 2, 1, 0, 3, 3, 2,
        0, 2, 1, 3, 0, 3, 0, 3, 0, 2, 2, 3, 2, 2, 2, 2, 2, 3, 2, 0, 1, 2, 0, 3, 3, 1, 0, 1, 1,
        0, 2, 1, 3, 2, 3, 2, 2, 2, 1, 1, 1, 2, 2, 2, 0, 2, 1, 0, 3, 2, 0, 1, 1, 2, 2, 2, 0, 2,
        2, 0, 3, 3, 2, 3, 0, 1, 1, 2, 2, 0, 3, 1, 0, 2, 0,
    ]);
    let encoded = Wspr::new(String::from(" G0UPL"), String::from("IO91"), 20).encode();

    assert_eq!(expected, encoded);
}

#[test]
fn test_encode_call_vk3tcp() {
    let encoded = Wspr::new(String::from("VK3TCP"), String::from("QF22"), 23)
        .encode_call()
        .unwrap();
    assert_eq!(encoded, 223671849)
}

#[test]
fn test_encode_call() {
    let encoded = Wspr::new(String::from("VK3XE "), String::from("QF22"), 23)
        .encode_call()
        .unwrap();

    assert_eq!(encoded, 223674830)
}

#[test]
fn test_encode_m1() {
    let encoded = Wspr::new(String::from("VK3XE "), String::from("QF22"), 23)
        .encode_m1()
        .unwrap();

    assert_eq!(encoded, 3112)
}

#[test]
fn test_encode_m() {
    let expected = Wspr::new(String::from("VK3XE "), String::from("QF22"), 23)
        .encode_m()
        .unwrap();

    assert_eq!(expected, 398423);
}
