//! Finding the client certificate and its key: which question the certificate
//! store is asked next, and what each answer means.
//!
//! The steps are [`StoreRequest`], [`CertificateRequest`] and [`KeyRequest`]. Each
//! holds what the caller is to ask for, and turns the answer into the next step.
use crate::audit::{notice, EventKind, Notice, NoticeView};
use crate::text::{law_only_colons_are_removed, remove_colons, without_colons};
use crate::tls::hexadecimal::{
    decoded, encoded, error_text, hex_decode, law_hex_round_trip, HexError,
};
use crate::tls::pin::lemma_no_colons;
use vstd::prelude::*;

verus! {

/// Acquire a key of the key storage interface only, never a legacy one.
pub const ACQUIRE_ONLY_NCRYPT_KEY: u32 = 0x0004_0000;

/// Acquire without showing any dialog.
pub const ACQUIRE_SILENT: u32 = 0x0000_0040;

/// The key specification of a key of the key storage interface.
pub const NCRYPT_KEY_SPEC: u32 = 0xffff_ffff;

/// Why there is no client identity.
#[derive(Clone, Copy, Debug, PartialEq, Eq, Structural)]
pub enum IdentityError {
    /// The configured thumbprint is not hexadecimal.
    Thumbprint(HexError),
    /// The certificate store of the machine did not open.
    StoreNotOpened,
    /// No certificate has the configured thumbprint.
    CertificateNotFound,
    /// The certificate's private key cannot be had.
    KeyNotAcquired,
    /// The private key is not one of the key storage interface.
    KeyNotCng,
}

impl IdentityError {
    /// How the error reads.
    pub open spec fn text(self) -> Seq<char> {
        match self {
            IdentityError::Thumbprint(e) => "invalid SHA1 thumbprint hex: "@ + error_text(e),
            IdentityError::StoreNotOpened => "failed to open LocalMachine\\MY"@,
            IdentityError::CertificateNotFound => "certificate not found by SHA1 thumbprint"@,
            IdentityError::KeyNotAcquired => "CryptAcquireCertificatePrivateKey failed"@,
            IdentityError::KeyNotCng =>
                "certificate private key is not CNG (CERT_NCRYPT_KEY_SPEC mismatch)"@,
        }
    }

    /// How the error reads.
    pub fn message(self) -> (r: String)
        ensures
            r@ == self.text(),
    {
        match self {
            IdentityError::Thumbprint(e) => {
                let mut r = "invalid SHA1 thumbprint hex: ".to_owned();
                r.append(e.message().as_str());
                r
            },
            IdentityError::StoreNotOpened => "failed to open LocalMachine\\MY".to_owned(),
            IdentityError::CertificateNotFound =>
                "certificate not found by SHA1 thumbprint".to_owned(),
            IdentityError::KeyNotAcquired => "CryptAcquireCertificatePrivateKey failed".to_owned(),
            IdentityError::KeyNotCng =>
                "certificate private key is not CNG (CERT_NCRYPT_KEY_SPEC mismatch)".to_owned(),
        }
    }

    /// The notice that the relay has no identity under the configured `thumbprint`.
    /// A thumbprint that is not hexadecimal is a fault of the configuration.
    pub open spec fn notice_view(self, thumbprint: Seq<char>) -> NoticeView {
        match self {
            IdentityError::CertificateNotFound => NoticeView {
                kind: EventKind::ClientCertificateMissing,
                message: "Client certificate not found in store; thumbprint="@ + thumbprint,
            },
            IdentityError::Thumbprint(_) => NoticeView {
                kind: EventKind::ServiceFailed,
                message: "mTLS identity load failed: "@ + self.text(),
            },
            _ => NoticeView {
                kind: EventKind::ClientCertificateMissing,
                message: "mTLS identity load failed: "@ + self.text(),
            },
        }
    }

    /// The notice that the relay has no identity under the configured `thumbprint`.
    pub fn to_notice(self, thumbprint: &str) -> (n: Notice)
        ensures
            n@ == self.notice_view(thumbprint@),
    {
        match self {
            IdentityError::CertificateNotFound => {
                let mut message = "Client certificate not found in store; thumbprint=".to_owned();
                message.append(thumbprint);
                notice(EventKind::ClientCertificateMissing, message)
            },
            _ => {
                let mut message = "mTLS identity load failed: ".to_owned();
                message.append(self.message().as_str());
                let kind = match self {
                    IdentityError::Thumbprint(_) => EventKind::ServiceFailed,
                    _ => EventKind::ClientCertificateMissing,
                };
                notice(kind, message)
            },
        }
    }
}

/// The digest that a thumbprint stands for: hexadecimal in either case, with
/// colons anywhere.
pub open spec fn thumbprint_of(text: Seq<char>) -> Result<Seq<u8>, HexError> {
    decoded(vstd::utf8::encode_utf8(without_colons(text)))
}

/// The first step: open the certificate store of the machine.
#[derive(Debug)]
pub struct StoreRequest {
    sha1: Vec<u8>,
}

/// The second step: find the certificate with a digest.
#[derive(Debug)]
pub struct CertificateRequest {
    sha1: Vec<u8>,
}

/// A certificate that was found.
#[derive(Debug)]
pub struct FoundCertificate {
    /// The certificate itself.
    pub der: Vec<u8>,
    /// The object identifier of its public key's algorithm, where it names one.
    pub key_algorithm: Option<String>,
}

/// The third step: acquire the certificate's private key.
#[derive(Debug)]
pub struct KeyRequest {
    der: Vec<u8>,
}

/// The answer to the request for a private key.
#[derive(Clone, Copy, Debug, PartialEq, Eq, Structural)]
pub struct KeyReply {
    /// Zero for failure.
    pub ok: i32,
    /// The handle, zero for none.
    pub handle: usize,
    /// Which interface the handle belongs to.
    pub key_spec: u32,
    /// Non-zero where the caller owns the handle.
    pub caller_free: i32,
}

/// A private key inside the key store.
#[derive(Debug, PartialEq, Eq, Structural)]
pub struct KeyHandle {
    /// The handle.
    pub handle: usize,
    /// Whether the handle is the caller's to free.
    pub caller_must_free: bool,
}

impl KeyHandle {
    /// Tells whether the handle is to be freed once the key is no longer used.
    pub fn is_to_be_freed(&self) -> (r: bool)
        ensures
            r == (self.caller_must_free && self.handle != 0),
    {
        self.caller_must_free && self.handle != 0
    }
}

/// The client's certificate chain with the key to it.
#[derive(Debug)]
pub struct ClientIdentity {
    /// The chain to present, the client's own certificate first.
    pub chain: Vec<Vec<u8>>,
    /// The key of the first certificate.
    pub key: KeyHandle,
}

/// Whether an object identifier is that of elliptic-curve public keys.
pub open spec fn names_ec(key_algorithm: Option<String>) -> bool {
    key_algorithm matches Some(oid) && oid@ == "1.2.840.10045.2.1"@
}

/// Tells whether a certificate's public key is one on an elliptic curve.
pub fn cert_is_ec(found: &FoundCertificate) -> (r: bool)
    ensures
        r == names_ec(found.key_algorithm),
{
    match &found.key_algorithm {
        None => false,
        Some(oid) => *oid == "1.2.840.10045.2.1".to_owned(),
    }
}

impl StoreRequest {
    /// The digest that the certificate is to have.
    pub closed spec fn digest(&self) -> Seq<u8> {
        self.sha1@
    }

    /// Starts looking for the certificate with the thumbprint `thumbprint_hex`.
    pub fn new(thumbprint_hex: &str) -> (r: Result<StoreRequest, IdentityError>)
        ensures
            match (r, thumbprint_of(thumbprint_hex@)) {
                (Ok(request), Ok(sha1)) => request.digest() == sha1,
                (Err(e), Err(cause)) => e == IdentityError::Thumbprint(cause),
                _ => false,
            },
    {
        let bare = remove_colons(thumbprint_hex);
        match hex_decode(bare.as_str().as_bytes()) {
            Ok(sha1) => Ok(StoreRequest { sha1 }),
            Err(e) => Err(IdentityError::Thumbprint(e)),
        }
    }

    /// Goes on from the answer whether the store opened.
    pub fn answered(self, opened: bool) -> (r: Result<CertificateRequest, IdentityError>)
        ensures
            r matches Err(e) ==> !opened && e == IdentityError::StoreNotOpened,
            r matches Ok(next) ==> opened && next.digest() == self.digest(),
    {
        if !opened {
            return Err(IdentityError::StoreNotOpened);
        }
        Ok(CertificateRequest { sha1: self.sha1 })
    }
}

impl CertificateRequest {
    /// The digest that the certificate is to have.
    pub closed spec fn digest(&self) -> Seq<u8> {
        self.sha1@
    }

    /// The digest to find the certificate by.
    pub fn sha1(&self) -> (r: &[u8])
        ensures
            r@ == self.digest(),
    {
        self.sha1.as_slice()
    }

    /// Goes on from the certificate that was found, if one was. One whose key does
    /// not appear to be on an elliptic curve is used all the same, with a warning.
    pub fn answered(self, found: Option<FoundCertificate>) -> (r: Result<
        (KeyRequest, Option<Notice>),
        IdentityError,
    >)
        ensures
            match (r, found) {
                (Ok((next, None)), Some(cert)) => next.certificate() == cert.der@ && names_ec(
                    cert.key_algorithm,
                ),
                (Ok((next, Some(warning))), Some(cert)) => next.certificate() == cert.der@
                    && !names_ec(cert.key_algorithm) && warning@ == (NoticeView {
                    kind: EventKind::ConfigWarning,
                    message:
                        "Client certificate does not appear to be EC; assuming ECDSA anyway."@,
                }),
                (Err(e), None) => e == IdentityError::CertificateNotFound,
                _ => false,
            },
    {
        match found {
            None => Err(IdentityError::CertificateNotFound),
            Some(cert) => {
                let warning = if cert_is_ec(&cert) {
                    None
                } else {
                    let text = "Client certificate does not appear to be EC; assuming ECDSA anyway.";
                    Some(notice(EventKind::ConfigWarning, text.to_owned()))
                };
                Ok((KeyRequest { der: cert.der }, warning))
            },
        }
    }
}

impl KeyRequest {
    /// The certificate that the key belongs to.
    pub closed spec fn certificate(&self) -> Seq<u8> {
        self.der@
    }

    /// The flags to acquire the key under.
    pub fn flags(&self) -> (r: u32)
        ensures
            r == ACQUIRE_ONLY_NCRYPT_KEY | ACQUIRE_SILENT,
    {
        ACQUIRE_ONLY_NCRYPT_KEY | ACQUIRE_SILENT
    }

    /// Ends with the answer to the request for the key: the identity is the
    /// certificate alone, without the certificates that lead to it.
    pub fn answered(self, reply: KeyReply) -> (r: Result<ClientIdentity, IdentityError>)
        ensures
            match r {
                Err(IdentityError::KeyNotAcquired) => reply.ok == 0 || reply.handle == 0,
                Err(IdentityError::KeyNotCng) => reply.ok != 0 && reply.handle != 0
                    && reply.key_spec != NCRYPT_KEY_SPEC,
                Err(_) => false,
                Ok(identity) => {
                    &&& reply.ok != 0
                    &&& reply.handle != 0
                    &&& reply.key_spec == NCRYPT_KEY_SPEC
                    &&& identity.chain@.len() == 1
                    &&& identity.chain@[0]@ == self.certificate()
                    &&& identity.key == (KeyHandle {
                        handle: reply.handle,
                        caller_must_free: reply.caller_free != 0,
                    })
                },
            },
    {
        if reply.ok == 0 || reply.handle == 0 {
            return Err(IdentityError::KeyNotAcquired);
        }
        if reply.key_spec != NCRYPT_KEY_SPEC {
            return Err(IdentityError::KeyNotCng);
        }
        let key = KeyHandle { handle: reply.handle, caller_must_free: reply.caller_free != 0 };
        let mut chain: Vec<Vec<u8>> = Vec::new();
        chain.push(self.der);
        Ok(ClientIdentity { chain, key })
    }
}

/// A thumbprint written in hexadecimal stands for its bytes, whatever their number, and
/// a colon more, anywhere, does not change what a text stands for.
pub proof fn law_thumbprint_round_trip(bytes: Seq<u8>, text: Seq<char>, at: int)
    requires
        0 <= at <= text.len(),
    ensures
        thumbprint_of(encoded(bytes)) == Ok::<Seq<u8>, HexError>(bytes),
        thumbprint_of(text.insert(at, ':')) == thumbprint_of(text),
        without_colons(text) == text ==> thumbprint_of(text) == decoded(
            vstd::utf8::encode_utf8(text),
        ),
{
    lemma_no_colons(encoded(bytes));
    law_hex_round_trip(bytes);
    let (before, after) = (text.take(at), text.skip(at));
    law_only_colons_are_removed(before, after, ':');
    law_only_colons_are_removed(before, seq![':'], ':');
    law_only_colons_are_removed(before + seq![':'], after, ':');
    assert(text =~= before + after);
    assert(text.insert(at, ':') =~= before + seq![':'] + after);
    assert(without_colons(text.insert(at, ':')) =~= without_colons(text));
}

/// One object identifier only is that of elliptic-curve keys.
pub proof fn law_one_identifier_is_ec(oid: String)
    ensures
        names_ec(Some(oid)) <==> oid@ == "1.2.840.10045.2.1"@,
        !names_ec(None),
{
}

/// Each refusal is logged in full: a missing certificate with its thumbprint, anything
/// else with what went wrong, and a thumbprint that cannot be read as a fault of the
/// configuration.
pub proof fn law_identity_notices(error: IdentityError, e: HexError, thumbprint: Seq<char>)
    ensures
        IdentityError::Thumbprint(e).text() == "invalid SHA1 thumbprint hex: "@ + error_text(e),
        IdentityError::CertificateNotFound.notice_view(thumbprint).message
            == "Client certificate not found in store; thumbprint="@ + thumbprint,
        !(error is CertificateNotFound) ==> error.notice_view(thumbprint).message
            == "mTLS identity load failed: "@ + error.text(),
        error.notice_view(thumbprint).kind == if error is Thumbprint {
            EventKind::ServiceFailed
        } else {
            EventKind::ClientCertificateMissing
        },
{
}

} // verus!
