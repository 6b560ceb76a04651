//! Server authentication: the public certificate rules first, then the pinned
//! SHA-256 fingerprint of the server's own certificate.
use crate::audit::{notice, EventKind, Notice, NoticeView};
use crate::text::{decimal, push_decimal, remove_colons, trim, trimmed, without_colons};
use crate::tls::hexadecimal::{
    decoded, encoded, error_text, hex_decode, law_hex_round_trip, push_hex, HexError,
};
use rustls::client::danger::ServerCertVerifier;
use rustls::client::WebPkiServerVerifier;
use rustls::pki_types::{ServerName, UnixTime};
use vstd::prelude::*;

verus! {

/// Why a text is not a SHA-256 fingerprint.
#[derive(Clone, Copy, Debug, PartialEq, Eq, Structural)]
pub enum PinError {
    /// The text is not hexadecimal.
    Hex(HexError),
    /// The text stands for this many bytes.
    Length(usize),
}

impl PinError {
    /// How the error reads.
    pub open spec fn text(self) -> Seq<char> {
        match self {
            PinError::Hex(e) => "hex decode failed: "@ + error_text(e),
            PinError::Length(n) => "expected 32 bytes (64 hex chars), got "@ + decimal(n as nat),
        }
    }

    /// How the error reads.
    pub fn message(self) -> (r: String)
        ensures
            r@ == self.text(),
    {
        match self {
            PinError::Hex(e) => {
                let mut r = "hex decode failed: ".to_owned();
                r.append(e.message().as_str());
                r
            },
            PinError::Length(n) => {
                let mut r = "expected 32 bytes (64 hex chars), got ".to_owned();
                push_decimal(&mut r, n as u128);
                r
            },
        }
    }
}

/// The fingerprint that `text` stands for: hexadecimal in either case, with
/// colons anywhere and white space around it.
pub open spec fn pin_of(text: Seq<char>) -> Result<Seq<u8>, PinError> {
    match decoded(vstd::utf8::encode_utf8(trimmed(without_colons(text)))) {
        Err(e) => Err(PinError::Hex(e)),
        Ok(bytes) => if bytes.len() == 32 {
            Ok(bytes)
        } else {
            Err(PinError::Length(bytes.len() as usize))
        },
    }
}

/// Reads a SHA-256 fingerprint.
pub fn parse_sha256_pin(pin_hex: &str) -> (r: Result<[u8; 32], PinError>)
    ensures
        match r {
            Ok(pin) => pin_of(pin_hex@) == Ok::<Seq<u8>, PinError>(pin@),
            Err(e) => pin_of(pin_hex@) == Err::<Seq<u8>, PinError>(e),
        },
{
    let bare = remove_colons(pin_hex);
    let cleaned = trim(bare.as_str());
    let bytes = match hex_decode(cleaned.as_bytes()) {
        Ok(bytes) => bytes,
        Err(e) => return Err(PinError::Hex(e)),
    };
    if bytes.len() != 32 {
        return Err(PinError::Length(bytes.len()));
    }
    let mut out: [u8; 32] = [0u8; 32];
    let mut i: usize = 0;
    while i < 32
        invariant
            i <= 32,
            bytes@.len() == 32,
            forall|k: int| 0 <= k < i ==> out@[k] == bytes@[k],
        decreases 32 - i,
    {
        out[i] = bytes[i];
        i = i + 1;
    }
    assert(out@ =~= bytes@);
    Ok(out)
}

/// Compares a digest with a fingerprint, looking at every byte whatever the
/// earlier ones were.
pub fn ct_eq_32(a: &[u8], b32: &[u8; 32]) -> (r: bool)
    ensures
        r == (a@ == b32@),
{
    if a.len() != 32 {
        return false;
    }
    let mut diff: u8 = 0;
    let mut i: usize = 0;
    while i < 32
        invariant
            i <= 32,
            a@.len() == 32,
            diff == 0 <==> (forall|k: int| 0 <= k < i ==> a@[k] == b32@[k]),
        decreases 32 - i,
    {
        let x = a[i];
        let y = b32[i];
        assert((diff | (x ^ y)) == 0 <==> (diff == 0 && x == y)) by (bit_vector);
        diff = diff | (x ^ y);
        i = i + 1;
    }
    proof {
        if diff == 0 {
            assert(a@ =~= b32@);
        }
    }
    diff == 0
}

/// The SHA-256 digest of `data`.
pub uninterp spec fn sha256(data: Seq<u8>) -> Seq<u8>;

/// Calls `sha2::Sha256::digest`. Believed of it: the digest is a function of the
/// data, and 32 bytes long.
#[verifier::external_body]
fn sha256_digest(data: &[u8]) -> (r: [u8; 32])
    ensures
        r@ == sha256(data@),
{
    <sha2::Sha256 as sha2::Digest>::digest(data).into()
}

/// An error of the TLS library, carried through as it is.
#[verifier::external_type_specification]
#[verifier::external_body]
pub struct ExTlsError(rustls::Error);

/// The bytes of each certificate of a list.
pub open spec fn certificate_views(certificates: Seq<Vec<u8>>) -> Seq<Seq<u8>> {
    certificates.map_values(|c: Vec<u8>| c@)
}

/// Whether the public certificate rules accept a server: whether `end_entity`
/// chains over `intermediates` to one of Mozilla's roots, is valid at
/// `now_seconds` after 1970, and is issued for `server_name`.
pub uninterp spec fn webpki_accepts(
    end_entity: Seq<u8>,
    intermediates: Seq<Seq<u8>>,
    server_name: Seq<char>,
    ocsp_response: Seq<u8>,
    now_seconds: u64,
) -> bool;

/// Calls `verify_server_cert` of `rustls::client::WebPkiServerVerifier`, built on
/// the AWS-LC provider and on `webpki_roots::TLS_SERVER_ROOTS`, without
/// revocation lists. A name that `rustls` cannot parse is refused. Believed of
/// it: whether it accepts is a function of its arguments. Which error comes with
/// a refusal is left unsaid.
#[verifier::external_body]
fn verify_chain(
    end_entity: &[u8],
    intermediates: &Vec<Vec<u8>>,
    server_name: &str,
    ocsp_response: &[u8],
    now_seconds: u64,
) -> (r: Result<(), rustls::Error>)
    ensures
        r is Ok <==> webpki_accepts(
            end_entity@,
            certificate_views(intermediates@),
            server_name@,
            ocsp_response@,
            now_seconds,
        ),
{
    let roots = rustls::RootCertStore { roots: webpki_roots::TLS_SERVER_ROOTS.to_vec() };
    let provider = rustls::crypto::aws_lc_rs::default_provider();
    let verifier = WebPkiServerVerifier::builder_with_provider(roots.into(), provider.into())
        .build()
        .map_err(|e| rustls::Error::General(e.to_string()))?;
    let chain: Vec<_> = intermediates.iter().map(|c| c.as_slice().into()).collect();
    let name = ServerName::try_from(server_name)
        .map_err(|e| rustls::Error::General(e.to_string()))?;
    let now = UnixTime::since_unix_epoch(std::time::Duration::from_secs(now_seconds));
    verifier.verify_server_cert(&end_entity.into(), &chain, &name, ocsp_response, now)?;
    Ok(())
}

/// Why a server is refused.
#[derive(Debug)]
pub enum VerifyError {
    /// The public certificate rules refuse it.
    Chain(rustls::Error),
    /// Its certificate has another fingerprint than the pinned one.
    PinMismatch { received: [u8; 32] },
}

/// Accepts only servers whose certificate is publicly valid and has one fingerprint.
#[derive(Debug)]
pub struct PinnedWebPkiVerifier {
    /// The SHA-256 fingerprint of the server's certificate.
    pub expected_pin: [u8; 32],
}

impl PinnedWebPkiVerifier {
    /// A verifier for the fingerprint that `pin_hex` stands for. A text that
    /// stands for none is a fault of the configuration, with the notice to log.
    pub fn from_hex(pin_hex: &str) -> (r: Result<PinnedWebPkiVerifier, Notice>)
        ensures
            match (r, pin_of(pin_hex@)) {
                (Ok(verifier), Ok(pin)) => verifier.expected_pin@ == pin,
                (Err(n), Err(e)) => n@ == (NoticeView {
                    kind: EventKind::ServiceFailed,
                    message: "Invalid server SHA256 pin: "@ + e.text(),
                }),
                _ => false,
            },
    {
        match parse_sha256_pin(pin_hex) {
            Ok(expected_pin) => Ok(PinnedWebPkiVerifier { expected_pin }),
            Err(e) => {
                let mut message = "Invalid server SHA256 pin: ".to_owned();
                message.append(e.message().as_str());
                Err(notice(EventKind::ServiceFailed, message))
            },
        }
    }

    /// Decides on a server of which the public certificate rules said `chain` and
    /// whose certificate has the fingerprint `received`.
    pub fn enforce_pin(&self, chain: Result<(), rustls::Error>, received: [u8; 32]) -> (r: Result<
        (),
        VerifyError,
    >)
        ensures
            chain is Ok && received@ == self.expected_pin@ <==> r is Ok,
            chain matches Err(e) ==> r == Err::<(), VerifyError>(VerifyError::Chain(e)),
            chain is Ok && received@ != self.expected_pin@ ==> r == Err::<(), VerifyError>(
                VerifyError::PinMismatch { received },
            ),
    {
        match chain {
            Err(e) => Err(VerifyError::Chain(e)),
            Ok(()) => if ct_eq_32(received.as_slice(), &self.expected_pin) {
                Ok(())
            } else {
                Err(VerifyError::PinMismatch { received })
            },
        }
    }

    /// Decides on a server by its certificates: accepted if and only if the public
    /// certificate rules accept it and its own certificate is the pinned one.
    pub fn verify_server_cert(
        &self,
        end_entity: &[u8],
        intermediates: &Vec<Vec<u8>>,
        server_name: &str,
        ocsp_response: &[u8],
        now_seconds: u64,
    ) -> (r: Result<(), VerifyError>)
        ensures
            ({
                let accepted = webpki_accepts(
                    end_entity@,
                    certificate_views(intermediates@),
                    server_name@,
                    ocsp_response@,
                    now_seconds,
                );
                let pinned = sha256(end_entity@) == self.expected_pin@;
                match r {
                    Ok(()) => accepted && pinned,
                    Err(VerifyError::Chain(_)) => !accepted,
                    Err(VerifyError::PinMismatch { received }) => accepted && !pinned
                        && received@ == sha256(end_entity@),
                }
            }),
    {
        let chain = verify_chain(
            end_entity,
            intermediates,
            server_name,
            ocsp_response,
            now_seconds,
        );
        self.enforce_pin(chain, sha256_digest(end_entity))
    }

    /// The notice that a server was refused for its fingerprint.
    pub fn mismatch_notice(&self, received: &[u8; 32]) -> (n: Notice)
        ensures
            n@ == (NoticeView {
                kind: EventKind::ServerPinMismatch,
                message: "Server certificate pin mismatch; expected="@ + encoded(self.expected_pin@)
                    + "; received="@ + encoded(received@),
            }),
    {
        let mut message = "Server certificate pin mismatch; expected=".to_owned();
        push_hex(&mut message, self.expected_pin.as_slice());
        message.append("; received=");
        push_hex(&mut message, received.as_slice());
        notice(EventKind::ServerPinMismatch, message)
    }
}

pub(crate) proof fn lemma_no_colons(s: Seq<char>)
    requires
        forall|i: int| 0 <= i < s.len() ==> s[i] != ':',
    ensures
        without_colons(s) == s,
    decreases s.len(),
{
    reveal(Seq::filter);
    if s.len() > 0 {
        lemma_no_colons(s.drop_last());
        assert(s.drop_last().push(s.last()) =~= s);
    }
}

/// A fingerprint written in hexadecimal is read back as it was.
pub proof fn law_pin_round_trip(pin: Seq<u8>)
    requires
        pin.len() == 32,
    ensures
        pin_of(encoded(pin)) == Ok::<Seq<u8>, PinError>(pin),
{
    lemma_no_colons(encoded(pin));
    assert(trimmed(encoded(pin)) == encoded(pin));
    law_hex_round_trip(pin);
}

/// A colon more, anywhere, does not change what a text stands for.
pub proof fn law_pin_ignores_colons(text: Seq<char>, at: int)
    requires
        0 <= at <= text.len(),
    ensures
        pin_of(text.insert(at, ':')) == pin_of(text),
{
    let keep = |c: char| c != ':';
    let (before, after) = (text.take(at), text.skip(at));
    assert(text =~= before + after);
    assert(text.insert(at, ':') =~= before + seq![':'] + after);
    Seq::filter_distributes_over_add(before, after, keep);
    Seq::filter_distributes_over_add(before, seq![':'], keep);
    Seq::filter_distributes_over_add(before + seq![':'], after, keep);
    assert(seq![':'].filter(keep) =~= Seq::<char>::empty()) by {
        reveal_with_fuel(Seq::filter, 2);
        assert(seq![':'].drop_last() =~= Seq::<char>::empty());
    }
    assert(without_colons(text.insert(at, ':')) =~= without_colons(text));
}

/// A fingerprint is exactly what the digits of its text spell, once colons and margins
/// are gone, where that is 32 bytes; any other number of bytes is said, and so is what is
/// wrong with the digits.
pub proof fn law_pin_is_what_is_spelled(text: Seq<char>, pin: Seq<u8>, e: HexError)
    requires
        pin.len() <= usize::MAX,
    ensures
        ({
            let spelled = decoded(vstd::utf8::encode_utf8(trimmed(without_colons(text))));
            &&& pin_of(text) == Ok::<Seq<u8>, PinError>(pin) <==> spelled == Ok::<
                Seq<u8>,
                HexError,
            >(pin) && pin.len() == 32
            &&& spelled == Ok::<Seq<u8>, HexError>(pin) && pin.len() != 32 ==> pin_of(text) == Err::<
                Seq<u8>,
                PinError,
            >(PinError::Length(pin.len() as usize))
            &&& pin_of(text) == Err::<Seq<u8>, PinError>(PinError::Hex(e)) <==> spelled == Err::<
                Seq<u8>,
                HexError,
            >(e)
        }),
{
}

/// Only 32 bytes make a fingerprint: the hexadecimal form of any other number of bytes is
/// refused with that number.
pub proof fn law_pin_length(bytes: Seq<u8>)
    requires
        bytes.len() != 32,
        bytes.len() <= usize::MAX,
    ensures
        pin_of(encoded(bytes)) == Err::<Seq<u8>, PinError>(PinError::Length(bytes.len() as usize)),
{
    lemma_no_colons(encoded(bytes));
    assert(trimmed(encoded(bytes)) == encoded(bytes)) by {
        if bytes.len() == 0 {
            assert(encoded(bytes) =~= seq![]);
        }
    }
    law_hex_round_trip(bytes);
}

/// How the errors read.
pub proof fn law_pin_errors_read(e: HexError, n: usize)
    ensures
        PinError::Hex(e).text() == "hex decode failed: "@ + error_text(e),
        PinError::Length(n).text() == "expected 32 bytes (64 hex chars), got "@ + decimal(
            n as nat,
        ),
{
}

/// A view of certificates shows each of them, whole and in order.
pub proof fn law_certificate_views_show_all(certificates: Seq<Vec<u8>>, i: int)
    requires
        0 <= i < certificates.len(),
    ensures
        certificate_views(certificates).len() == certificates.len(),
        certificate_views(certificates)[i] == certificates[i]@,
{
}

} // verus!
