//! The client's certificate, its key, and the signatures made with it.
use vm_relay::audit::EventKind;
use vm_relay::tls::client::prepare;
use vm_relay::tls::der::{ecdsa_raw_to_der, reads_as_der};
use vm_relay::tls::hexadecimal::HexError;
use vm_relay::tls::identity::{
    cert_is_ec, CertificateRequest, FoundCertificate, IdentityError, KeyHandle, KeyReply,
    StoreRequest, ACQUIRE_ONLY_NCRYPT_KEY, ACQUIRE_SILENT, NCRYPT_KEY_SPEC,
};
use vm_relay::tls::scheme::{choose_scheme, presents_certificate, EcdsaScheme};
use vm_relay::tls::signature::{signature_room, tls_signature, SignFailure};
use vm_relay::tls::suites::{group_rank, is_permitted_suite};
use windows_sys::Win32::Security::Cryptography::{
    CERT_NCRYPT_KEY_SPEC, CRYPT_ACQUIRE_ONLY_NCRYPT_KEY_FLAG, CRYPT_ACQUIRE_SILENT_FLAG,
};

const EC: &str = "1.2.840.10045.2.1";
const RSA: &str = "1.2.840.113549.1.1.1";

fn opened() -> CertificateRequest {
    StoreRequest::new("0102").unwrap().answered(true).unwrap()
}

fn found(key_algorithm: Option<&str>) -> Option<FoundCertificate> {
    Some(FoundCertificate {
        der: vec![0x30, 0x01, 0x07],
        key_algorithm: key_algorithm.map(|oid| oid.to_string()),
    })
}

fn reply() -> KeyReply {
    KeyReply { ok: 1, handle: 77, key_spec: NCRYPT_KEY_SPEC, caller_free: 1 }
}

#[test]
fn the_constants_are_those_of_windows() {
    assert_eq!(ACQUIRE_ONLY_NCRYPT_KEY, CRYPT_ACQUIRE_ONLY_NCRYPT_KEY_FLAG);
    assert_eq!(ACQUIRE_SILENT, CRYPT_ACQUIRE_SILENT_FLAG);
    assert_eq!(NCRYPT_KEY_SPEC, CERT_NCRYPT_KEY_SPEC);
}

#[test]
fn an_identity_is_put_together() {
    let (request, warning) = opened().answered(found(Some(EC))).unwrap();
    assert!(warning.is_none());
    assert_eq!(request.flags(), 0x0004_0040);
    let identity = request.answered(reply()).unwrap();
    assert_eq!(identity.chain, vec![vec![0x30, 0x01, 0x07]]);
    assert_eq!(identity.key, KeyHandle { handle: 77, caller_must_free: true });
    assert!(identity.key.is_to_be_freed());
}

#[test]
fn a_borrowed_key_is_not_freed() {
    let (request, _) = opened().answered(found(Some(EC))).unwrap();
    let identity = request.answered(KeyReply { caller_free: 0, ..reply() }).unwrap();
    assert!(!identity.key.is_to_be_freed());
    assert!(!KeyHandle { handle: 0, caller_must_free: true }.is_to_be_freed());
}

#[test]
fn a_certificate_without_ec_is_used_with_a_warning() {
    for key_algorithm in [None, Some(RSA), Some("")] {
        let (_, warning) = opened().answered(found(key_algorithm)).unwrap();
        let warning = warning.unwrap();
        assert_eq!(warning.kind, EventKind::ConfigWarning);
        assert_eq!(
            warning.message,
            "Client certificate does not appear to be EC; assuming ECDSA anyway."
        );
    }
    assert!(cert_is_ec(&found(Some(EC)).unwrap()));
    assert!(!cert_is_ec(&found(Some(RSA)).unwrap()));
    assert!(!cert_is_ec(&found(None).unwrap()));
}

#[test]
fn each_refusal_has_its_error() {
    let refused = StoreRequest::new("0102").unwrap().answered(false);
    assert!(matches!(refused, Err(IdentityError::StoreNotOpened)));
    assert!(matches!(opened().answered(None), Err(IdentityError::CertificateNotFound)));
    for bad in [KeyReply { ok: 0, ..reply() }, KeyReply { handle: 0, ..reply() }] {
        let (request, _) = opened().answered(found(Some(EC))).unwrap();
        assert!(matches!(request.answered(bad), Err(IdentityError::KeyNotAcquired)));
    }
    let (request, _) = opened().answered(found(Some(EC))).unwrap();
    let legacy = KeyReply { key_spec: 1, ..reply() };
    assert!(matches!(request.answered(legacy), Err(IdentityError::KeyNotCng)));
}

#[test]
fn each_refusal_is_logged() {
    let thumbprint = "0102";
    let missing = IdentityError::CertificateNotFound.to_notice(thumbprint);
    assert_eq!(missing.kind, EventKind::ClientCertificateMissing);
    assert_eq!(missing.message, "Client certificate not found in store; thumbprint=0102");
    let cases = [
        (IdentityError::StoreNotOpened, "failed to open LocalMachine\\MY"),
        (IdentityError::KeyNotAcquired, "CryptAcquireCertificatePrivateKey failed"),
        (
            IdentityError::KeyNotCng,
            "certificate private key is not CNG (CERT_NCRYPT_KEY_SPEC mismatch)",
        ),
    ];
    for (error, text) in cases {
        let notice = error.to_notice(thumbprint);
        assert_eq!(notice.kind, EventKind::ClientCertificateMissing);
        assert_eq!(notice.message, format!("mTLS identity load failed: {text}"));
    }
    let fault = IdentityError::Thumbprint(HexError::OddLength).to_notice(thumbprint);
    assert_eq!(fault.kind, EventKind::ServiceFailed);
    assert_eq!(
        fault.message,
        "mTLS identity load failed: invalid SHA1 thumbprint hex: Odd number of digits"
    );
    assert_eq!(
        IdentityError::CertificateNotFound.message(),
        "certificate not found by SHA1 thumbprint"
    );
}

#[test]
fn the_strongest_usual_scheme_is_chosen() {
    assert_eq!(
        choose_scheme(&[0x0804, 0x0603, 0x0403, 0x0503]),
        Some(EcdsaScheme::NistP384Sha384)
    );
    assert_eq!(choose_scheme(&[0x0603, 0x0403]), Some(EcdsaScheme::NistP256Sha256));
    assert_eq!(choose_scheme(&[0x0603, 0x0804]), Some(EcdsaScheme::NistP521Sha512));
    assert_eq!(choose_scheme(&[0x0804, 0x0401]), None);
    assert_eq!(choose_scheme(&[]), None);
    assert_eq!(choose_scheme(&[0x0503, 0x0403]), choose_scheme(&[0x0403, 0x0503]));
}

#[test]
fn the_schemes_are_those_of_the_tls_library() {
    let pairs = [
        (EcdsaScheme::NistP256Sha256, rustls::SignatureScheme::ECDSA_NISTP256_SHA256),
        (EcdsaScheme::NistP384Sha384, rustls::SignatureScheme::ECDSA_NISTP384_SHA384),
        (EcdsaScheme::NistP521Sha512, rustls::SignatureScheme::ECDSA_NISTP521_SHA512),
    ];
    for (ours, theirs) in pairs {
        assert_eq!(ours.code(), u16::from(theirs));
    }
}

#[test]
fn the_certificate_is_presented_only_where_it_can_be_used() {
    assert!(presents_certificate(&[0x0804, 0x0603]));
    assert!(!presents_certificate(&[0x0804]));
    assert!(!presents_certificate(&[]));
}

#[test]
fn room_for_a_signature() {
    assert_eq!(signature_room(0, 96), Ok(96));
    assert_eq!(signature_room(0, 0), Ok(0));
    assert_eq!(signature_room(-2146893785, 96), Err(SignFailure));
}

#[test]
fn a_raw_signature_is_sent_as_der() {
    // Two numbers of two bytes: 0x00ff needs its zero byte, 0x0102 has none to lose.
    let sent = tls_signature(0, vec![0x00, 0xff, 0x01, 0x02, 0xee, 0xee], 4).unwrap();
    assert_eq!(sent, vec![0x30, 0x08, 0x02, 0x02, 0x00, 0xff, 0x02, 0x02, 0x01, 0x02]);
}

#[test]
fn a_der_signature_is_sent_as_it_is() {
    let der = vec![0x30, 0x06, 0x02, 0x01, 0x01, 0x02, 0x01, 0x02];
    assert_eq!(tls_signature(0, der.clone(), 8), Ok(der.clone()));
    assert_eq!(tls_signature(0, der.clone(), 100), Ok(der));
}

#[test]
fn what_is_no_signature_is_not_sent() {
    assert_eq!(tls_signature(1, vec![1, 2], 2), Err(SignFailure));
    assert_eq!(tls_signature(0, vec![1, 2, 3], 3), Err(SignFailure));
    assert_eq!(tls_signature(0, vec![1, 2, 3], 0), Err(SignFailure));
    assert_eq!(tls_signature(0, vec![], 0), Err(SignFailure));
}

#[test]
fn der_keeps_one_byte_of_zero() {
    let der = ecdsa_raw_to_der(&[0, 0, 0, 0]).unwrap();
    assert_eq!(der, vec![0x30, 0x06, 0x02, 0x01, 0x00, 0x02, 0x01, 0x00]);
}

#[test]
fn der_refuses_what_is_not_a_pair() {
    assert_eq!(ecdsa_raw_to_der(&[]), None);
    assert_eq!(ecdsa_raw_to_der(&[1]), None);
    assert_eq!(ecdsa_raw_to_der(&[1, 2, 3]), None);
}

#[test]
fn der_takes_the_long_form_for_wide_curves() {
    // P-521: two numbers of 66 bytes, both with the top bit set.
    let der = ecdsa_raw_to_der(&[0x81; 132]).unwrap();
    assert_eq!(&der[..6], &[0x30, 0x81, 138, 0x02, 67, 0x00]);
    assert_eq!(der.len(), 3 + 138);
    assert_eq!(&der[72..75], &[0x02, 67, 0x00]);
    // Just below and at the bound of the short form.
    let der = ecdsa_raw_to_der(&[0x01; 122]).unwrap();
    assert_eq!(&der[..2], &[0x30, 126]);
    let der = ecdsa_raw_to_der(&[0x01; 124]).unwrap();
    assert_eq!(&der[..3], &[0x30, 0x81, 128]);
    let der = ecdsa_raw_to_der(&[0x01; 254]).unwrap();
    assert_eq!(&der[..4], &[0x30, 0x82, 0x01, 0x02]);
}

#[test]
fn both_fingerprints_are_read_that_of_the_server_first() {
    let pin = "ab".repeat(32);
    let (rules, request) = prepare("01:02", &pin).unwrap();
    assert_eq!(rules.expected_pin, [0xab; 32]);
    assert_eq!(request.answered(true).unwrap().sha1(), &[1, 2]);
    let notice = prepare("x", "ab").unwrap_err();
    assert_eq!(notice.kind, EventKind::ServiceFailed);
    assert_eq!(
        notice.message,
        "Invalid server SHA256 pin: expected 32 bytes (64 hex chars), got 1"
    );
    let notice = prepare("x", &pin).unwrap_err();
    assert_eq!(notice.kind, EventKind::ServiceFailed);
    assert_eq!(
        notice.message,
        "mTLS identity load failed: invalid SHA1 thumbprint hex: Odd number of digits"
    );
}

#[test]
fn four_suites_and_two_curves_are_permitted() {
    let provider = rustls::crypto::aws_lc_rs::default_provider();
    let mut suites: Vec<u16> = provider
        .cipher_suites
        .iter()
        .map(|suite| u16::from(suite.suite()))
        .filter(|&number| is_permitted_suite(number))
        .collect();
    suites.sort();
    let mut expected = vec![
        u16::from(rustls::CipherSuite::TLS13_AES_256_GCM_SHA384),
        u16::from(rustls::CipherSuite::TLS13_CHACHA20_POLY1305_SHA256),
        u16::from(rustls::CipherSuite::TLS_ECDHE_ECDSA_WITH_AES_256_GCM_SHA384),
        u16::from(rustls::CipherSuite::TLS_ECDHE_RSA_WITH_AES_256_GCM_SHA384),
    ];
    expected.sort();
    assert_eq!(suites, expected);
    assert!(!is_permitted_suite(u16::from(rustls::CipherSuite::TLS13_AES_128_GCM_SHA256)));
    assert_eq!(group_rank(u16::from(rustls::NamedGroup::secp384r1)), Some(0));
    assert_eq!(group_rank(u16::from(rustls::NamedGroup::secp256r1)), Some(1));
    assert_eq!(group_rank(u16::from(rustls::NamedGroup::X25519)), None);
}

#[test]
fn a_raw_signature_is_converted_whatever_its_first_byte() {
    let sent = tls_signature(0, vec![0x30, 0x01], 2).unwrap();
    assert_eq!(sent, vec![0x30, 0x06, 0x02, 0x01, 0x30, 0x02, 0x01, 0x01]);
    // A whole signature on P-384.
    let mut raw = vec![0x11u8; 96];
    raw[0] = 0x30;
    let sent = tls_signature(0, raw.clone(), 96).unwrap();
    assert_eq!(Some(sent.clone()), ecdsa_raw_to_der(&raw));
    assert_eq!(&sent[..5], &[0x30, 100, 0x02, 48, 0x30]);
    assert!(reads_as_der(&sent));
    // It is kept from then on.
    assert_eq!(tls_signature(0, sent.clone(), sent.len() as u32), Ok(sent));
    for first in 0..=255u8 {
        raw[0] = first;
        assert_eq!(tls_signature(0, raw.clone(), 96).ok(), ecdsa_raw_to_der(&raw));
    }
}

#[test]
fn what_is_neither_raw_nor_der_is_kept_if_it_starts_as_der() {
    assert_eq!(tls_signature(0, vec![0x30, 0x01, 0x02], 3), Ok(vec![0x30, 0x01, 0x02]));
}

#[test]
fn only_strict_der_reads_as_der() {
    assert!(reads_as_der(&[0x30, 6, 2, 1, 1, 2, 1, 2]));
    assert!(reads_as_der(&[0x30, 7, 2, 2, 0, 0x80, 2, 1, 2]));
    let others: [&[u8]; 11] = [
        &[],
        &[0x30],
        &[0x31, 6, 2, 1, 1, 2, 1, 2],
        &[0x30, 6, 3, 1, 1, 2, 1, 2],
        &[0x30, 6, 2, 1, 1, 2, 1],
        &[0x30, 6, 2, 1, 1, 2, 1, 2, 0],
        &[0x30, 5, 2, 0, 2, 1, 2],
        &[0x30, 6, 2, 1, 0x80, 2, 1, 2],
        &[0x30, 7, 2, 2, 0, 1, 2, 1, 2],
        &[0x30, 0x81, 6, 2, 1, 1, 2, 1, 2],
        &[0x30, 9, 2, 1, 1, 2, 1, 2, 2, 1, 3],
    ];
    for other in others {
        assert!(!reads_as_der(other), "{other:?}");
    }
    for width in [1usize, 32, 48, 63, 64, 66, 126, 127, 128, 129, 300] {
        let der = ecdsa_raw_to_der(&vec![0x99; 2 * width]).unwrap();
        assert!(reads_as_der(&der), "{width}");
        assert!(!reads_as_der(&der[..der.len() - 1]), "{width}");
    }
}

#[test]
fn wide_numbers_have_their_length_in_the_long_form() {
    let der = ecdsa_raw_to_der(&[0x01; 256]).unwrap();
    assert_eq!(&der[..8], &[0x30, 0x82, 0x01, 0x06, 0x02, 0x81, 128, 0x01]);
    assert_eq!(der.len(), 4 + 2 * 131);
}
