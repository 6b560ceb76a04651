//! Fingerprints and thumbprints as they are written in the configuration.
use vm_relay::audit::EventKind;
use vm_relay::text::{remove_colons, trim, white_space};
use vm_relay::tls::hexadecimal::{push_hex, HexError};
use vm_relay::tls::identity::{IdentityError, StoreRequest};
use vm_relay::tls::pin::{ct_eq_32, parse_sha256_pin, PinError, PinnedWebPkiVerifier};

const PIN: &str = "000102030405060708090a0b0c0d0e0f101112131415161718191a1b1c1d1e1f";

fn counting() -> [u8; 32] {
    let mut pin = [0u8; 32];
    for (i, b) in pin.iter_mut().enumerate() {
        *b = i as u8;
    }
    pin
}

#[test]
fn a_pin_is_read() {
    assert_eq!(parse_sha256_pin(PIN), Ok(counting()));
}

#[test]
fn a_pin_is_read_in_either_case_with_colons_and_margins() {
    assert_eq!(parse_sha256_pin(&PIN.to_uppercase()), Ok(counting()));
    let pairs: Vec<&str> = (0..32).map(|i| &PIN[2 * i..2 * i + 2]).collect();
    assert_eq!(parse_sha256_pin(&pairs.join(":")), Ok(counting()));
    assert_eq!(parse_sha256_pin(&format!(" \t{PIN}\u{a0}\r\n")), Ok(counting()));
    assert_eq!(parse_sha256_pin(&format!(": {PIN} :")), Ok(counting()));
}

#[test]
fn a_pin_of_another_length_is_refused() {
    assert_eq!(parse_sha256_pin(""), Err(PinError::Length(0)));
    assert_eq!(parse_sha256_pin(&PIN[2..]), Err(PinError::Length(31)));
    assert_eq!(parse_sha256_pin(&format!("{PIN}20")), Err(PinError::Length(33)));
    assert_eq!(
        PinError::Length(31).message(),
        "expected 32 bytes (64 hex chars), got 31"
    );
}

#[test]
fn a_pin_that_is_not_hexadecimal_is_refused() {
    assert_eq!(parse_sha256_pin(&PIN[1..]), Err(PinError::Hex(HexError::OddLength)));
    let bad = PIN.replacen("0a", "0g", 1);
    let error = HexError::InvalidHexCharacter { c: 'g', index: 21 };
    assert_eq!(parse_sha256_pin(&bad), Err(PinError::Hex(error)));
    // An odd length is found before a wrong character.
    assert_eq!(parse_sha256_pin("0g0"), Err(PinError::Hex(HexError::OddLength)));
    // White space inside is no margin.
    let error = HexError::InvalidHexCharacter { c: ' ', index: 2 };
    assert_eq!(parse_sha256_pin("00 1"), Err(PinError::Hex(error)));
    // Beyond ASCII, what is named is the first byte of the character.
    let error = HexError::InvalidHexCharacter { c: '\u{c3}', index: 0 };
    assert_eq!(parse_sha256_pin("\u{e9}"), Err(PinError::Hex(error)));
}

#[test]
fn the_errors_read_as_documented() {
    let error = HexError::InvalidHexCharacter { c: 'g', index: 21 };
    assert_eq!(error.message(), "Invalid character 'g' at position 21");
    let error = HexError::InvalidHexCharacter { c: '\n', index: 5 };
    assert_eq!(error.message(), "Invalid character '\\n' at position 5");
    assert_eq!(HexError::OddLength.message(), "Odd number of digits");
    assert_eq!(HexError::InvalidStringLength.message(), "Invalid string length");
    assert_eq!(
        PinError::Hex(HexError::OddLength).message(),
        "hex decode failed: Odd number of digits"
    );
}

#[test]
fn a_bad_pin_is_a_fault_of_the_configuration() {
    match PinnedWebPkiVerifier::from_hex("0") {
        Err(notice) => {
            assert_eq!(notice.kind, EventKind::ServiceFailed);
            assert_eq!(
                notice.message,
                "Invalid server SHA256 pin: hex decode failed: Odd number of digits"
            );
        }
        Ok(verifier) => panic!("{verifier:?}"),
    }
    match PinnedWebPkiVerifier::from_hex(PIN) {
        Ok(verifier) => assert_eq!(verifier.expected_pin, counting()),
        Err(notice) => panic!("{notice:?}"),
    }
}

#[test]
fn a_pin_survives_being_written_and_read() {
    let mut pin = [0u8; 32];
    for (i, b) in pin.iter_mut().enumerate() {
        *b = (i * 37 + 11) as u8;
    }
    let mut text = String::new();
    push_hex(&mut text, &pin);
    assert_eq!(text, hex::encode(pin));
    assert_eq!(parse_sha256_pin(&text), Ok(pin));
}

#[test]
fn a_colon_more_changes_nothing() {
    for at in 0..PIN.len() + 1 {
        let mut text = PIN.to_string();
        text.insert(at, ':');
        assert_eq!(parse_sha256_pin(&text), Ok(counting()));
    }
}

#[test]
fn digests_are_compared_byte_by_byte() {
    let pin = counting();
    assert!(ct_eq_32(&counting(), &pin));
    for i in 0..32 {
        let mut other = counting();
        other[i] ^= 0x80;
        assert!(!ct_eq_32(&other, &pin));
    }
    // Two differences do not cancel out.
    let mut other = counting();
    other[0] ^= 1;
    other[1] ^= 1;
    assert!(!ct_eq_32(&other, &pin));
    assert!(!ct_eq_32(&pin[..31], &pin));
    assert!(!ct_eq_32(&[], &pin));
}

#[test]
fn a_thumbprint_is_read_with_colons_but_not_with_margins() {
    let request = StoreRequest::new("A1:b2:C3").unwrap();
    let request = request.answered(true).unwrap();
    assert_eq!(request.sha1(), &[0xa1, 0xb2, 0xc3]);
    let request = StoreRequest::new("").unwrap().answered(true).unwrap();
    assert!(request.sha1().is_empty());
    match StoreRequest::new(" A1B2C") {
        Err(e) => {
            let cause = HexError::InvalidHexCharacter { c: ' ', index: 0 };
            assert_eq!(e, IdentityError::Thumbprint(cause));
        }
        Ok(request) => panic!("{request:?}"),
    }
    match StoreRequest::new("A1B") {
        Err(e) => assert_eq!(e, IdentityError::Thumbprint(HexError::OddLength)),
        Ok(request) => panic!("{request:?}"),
    }
}

#[test]
fn white_space_is_what_unicode_says() {
    for n in 0..=0x10_ffffu32 {
        if let Some(c) = char::from_u32(n) {
            assert_eq!(white_space(c), c.is_whitespace(), "{n:x}");
        }
    }
}

#[test]
fn margins_and_colons_are_removed() {
    for text in ["", " ", "a", " a b\t", "\u{3000}a\u{2028}", "::", ":a:b", " : "] {
        assert_eq!(trim(text), text.trim());
        assert_eq!(remove_colons(text), text.replace(':', ""));
    }
}
