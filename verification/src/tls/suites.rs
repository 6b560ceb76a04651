//! Which cipher suites and curves the channel may use: those with forward secrecy
//! and a strong cipher only.
use vstd::prelude::*;

verus! {

/// TLS 1.3 with AES-256-GCM and SHA-384.
pub const AES_256_GCM_SHA384: u16 = 0x1302;

/// TLS 1.3 with ChaCha20-Poly1305 and SHA-256.
pub const CHACHA20_POLY1305_SHA256: u16 = 0x1303;

/// TLS 1.2, ephemeral Diffie-Hellman signed with ECDSA, AES-256-GCM and SHA-384.
pub const ECDHE_ECDSA_AES_256_GCM_SHA384: u16 = 0xc02c;

/// TLS 1.2, ephemeral Diffie-Hellman signed with RSA, AES-256-GCM and SHA-384.
pub const ECDHE_RSA_AES_256_GCM_SHA384: u16 = 0xc030;

/// NIST P-256 as a group of the key exchange.
pub const SECP256R1: u16 = 0x0017;

/// NIST P-384 as a group of the key exchange.
pub const SECP384R1: u16 = 0x0018;

/// Tells whether the channel may use a cipher suite, by its registered number.
pub fn is_permitted_suite(number: u16) -> (r: bool)
    ensures
        r == (number == AES_256_GCM_SHA384 || number == CHACHA20_POLY1305_SHA256 || number
            == ECDHE_ECDSA_AES_256_GCM_SHA384 || number == ECDHE_RSA_AES_256_GCM_SHA384),
{
    number == AES_256_GCM_SHA384 || number == CHACHA20_POLY1305_SHA256 || number
        == ECDHE_ECDSA_AES_256_GCM_SHA384 || number == ECDHE_RSA_AES_256_GCM_SHA384
}

/// The place of a group of the key exchange among those that the channel may use,
/// by its registered number: P-384 first, then P-256, and no other.
pub fn group_rank(number: u16) -> (r: Option<u8>)
    ensures
        r == if number == SECP384R1 {
            Some(0u8)
        } else if number == SECP256R1 {
            Some(1u8)
        } else {
            None
        },
{
    if number == SECP384R1 {
        Some(0)
    } else if number == SECP256R1 {
        Some(1)
    } else {
        None
    }
}

} // verus!
