use relaykit::addr::{parse_index, to_address, Addr, AddressResolutionError};

fn bytes(s: &str) -> Vec<u8> {
    s.as_bytes().to_vec()
}

fn accounts() -> Vec<Addr> {
    vec![
        Addr { head: 0, tail: 0x1000 },
        Addr { head: 0, tail: 0x2000 },
        Addr { head: 0, tail: 0x3000 },
    ]
}

#[test]
fn literal_address_parses() {
    let r = to_address(&bytes("0x00000000000000000000000000000000000000ff"), &accounts());
    assert_eq!(r, Ok(Addr { head: 0, tail: 0xff }));
}

#[test]
fn literal_address_mixed_case() {
    let r = to_address(&bytes("0xAbCdEf0000000000000000000000000000000000"), &accounts());
    assert_eq!(r, Ok(Addr { head: 0xabcdef00, tail: 0 }));
}

#[test]
fn literal_address_full_width() {
    let r = to_address(&bytes("0xffffffffffffffffffffffffffffffffffffffff"), &accounts());
    assert_eq!(r, Ok(Addr { head: u32::MAX, tail: u128::MAX }));
}

#[test]
fn literal_address_wrong_length_fails() {
    let r = to_address(&bytes("0x123"), &accounts());
    assert_eq!(r, Err(AddressResolutionError::InvalidLiteral));
}

#[test]
fn literal_address_bad_digit_fails() {
    let r = to_address(&bytes("0xzz000000000000000000000000000000000000ff"), &accounts());
    assert_eq!(r, Err(AddressResolutionError::InvalidLiteral));
}

#[test]
fn index_resolves_to_account() {
    let accs = accounts();
    assert_eq!(to_address(&bytes("0"), &accs), Ok(accs[0]));
    assert_eq!(to_address(&bytes("1"), &accs), Ok(accs[1]));
    assert_eq!(to_address(&bytes("2"), &accs), Ok(accs[2]));
}

#[test]
fn index_with_leading_zeros() {
    let accs = accounts();
    assert_eq!(to_address(&bytes("002"), &accs), Ok(accs[2]));
}

#[test]
fn index_out_of_range_fails() {
    let r = to_address(&bytes("3"), &accounts());
    assert_eq!(r, Err(AddressResolutionError::IndexOutOfRange));
}

#[test]
fn malformed_receiver_fails() {
    assert_eq!(
        to_address(&bytes("nonsense"), &accounts()),
        Err(AddressResolutionError::InvalidLiteral)
    );
    assert_eq!(to_address(&bytes(""), &accounts()), Err(AddressResolutionError::InvalidLiteral));
    assert_eq!(
        to_address(&bytes("12a"), &accounts()),
        Err(AddressResolutionError::InvalidLiteral)
    );
}

#[test]
fn overlong_index_fails() {
    let r = to_address(&bytes("99999999999999999999999999"), &accounts());
    assert_eq!(r, Err(AddressResolutionError::InvalidLiteral));
}

#[test]
fn index_into_empty_account_list_fails() {
    let r = to_address(&bytes("0"), &Vec::new());
    assert_eq!(r, Err(AddressResolutionError::IndexOutOfRange));
}

#[test]
fn parse_index_accepts_digits_only() {
    assert_eq!(parse_index(&bytes("42")), Some(42));
    assert_eq!(parse_index(&bytes("0")), Some(0));
    assert_eq!(parse_index(&bytes("")), None);
    assert_eq!(parse_index(&bytes("4x2")), None);
    assert_eq!(parse_index(&bytes("18446744073709551615")), Some(usize::MAX));
    assert_eq!(parse_index(&bytes("18446744073709551616")), None);
}
