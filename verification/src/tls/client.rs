//! Setting up the TLS client from its two configured fingerprints.
use crate::audit::{EventKind, Notice, NoticeView};
use crate::tls::identity::{thumbprint_of, IdentityError, StoreRequest};
use crate::tls::pin::{pin_of, PinnedWebPkiVerifier};
use vstd::prelude::*;

verus! {

/// Starts the set-up: the verifier of the server, and the first step towards the
/// client's identity. A fingerprint that cannot be read is a fault of the
/// configuration, with the notice to log; that of the server is looked at first.
pub fn prepare(client_cert_sha1_thumbprint: &str, server_cert_sha256_pin_hex: &str) -> (r: Result<
    (PinnedWebPkiVerifier, StoreRequest),
    Notice,
>)
    ensures
        match (pin_of(server_cert_sha256_pin_hex@), thumbprint_of(client_cert_sha1_thumbprint@)) {
            (Err(e), _) => r matches Err(n) && n@ == (NoticeView {
                kind: EventKind::ServiceFailed,
                message: "Invalid server SHA256 pin: "@ + e.text(),
            }),
            (Ok(_), Err(cause)) => r matches Err(n) && n@ == IdentityError::Thumbprint(
                cause,
            ).notice_view(client_cert_sha1_thumbprint@),
            (Ok(pin), Ok(sha1)) => r matches Ok((verifier, request)) && verifier.expected_pin@
                == pin && request.digest() == sha1,
        },
{
    let verifier = match PinnedWebPkiVerifier::from_hex(server_cert_sha256_pin_hex) {
        Ok(verifier) => verifier,
        Err(n) => return Err(n),
    };
    match StoreRequest::new(client_cert_sha1_thumbprint) {
        Ok(request) => Ok((verifier, request)),
        Err(e) => Err(e.to_notice(client_cert_sha1_thumbprint)),
    }
}

} // verus!
