//! What becomes of the signatures that the key store makes.
use crate::bytes::be_value;
use crate::tls::der::{
    ecdsa_raw_to_der, is_raw_signature, law_der_round_trip, raw_r, raw_s, read_signature,
    reads_as_der, signature_element,
};
use vstd::prelude::*;

verus! {

/// The key store did not sign, or not in a form that TLS can carry.
#[derive(Clone, Copy, Debug, PartialEq, Eq, Structural)]
pub struct SignFailure;

/// How large a buffer the signature takes, from the key store's answer to a call
/// without a buffer: its status, zero for success, and the size it named.
pub fn signature_room(status: i32, size: u32) -> (r: Result<usize, SignFailure>)
    ensures
        r == if status == 0 {
            Ok::<usize, SignFailure>(size as usize)
        } else {
            Err(SignFailure)
        },
{
    if status != 0 {
        return Err(SignFailure);
    }
    Ok(size as usize)
}

/// What the key store wrote: at most `written` bytes of the buffer.
pub open spec fn written_part(buffer: Seq<u8>, written: nat) -> Seq<u8> {
    if written < buffer.len() {
        buffer.take(written as int)
    } else {
        buffer
    }
}

/// Whether a signature starts as a DER SEQUENCE does.
pub open spec fn starts_as_der(signature: Seq<u8>) -> bool {
    signature.len() > 0 && signature[0] == 0x30
}

/// The form in which TLS carries a signature of the key store. One that reads as
/// DER is kept; any other one that can be the raw pair of numbers is converted,
/// whatever its first byte; and what is neither is kept if it starts as DER does.
pub open spec fn tls_form(signature: Seq<u8>) -> Option<Seq<u8>> {
    if read_signature(signature) is Some {
        Some(signature)
    } else if is_raw_signature(signature) {
        Some(signature_element(raw_r(signature), raw_s(signature)))
    } else if starts_as_der(signature) {
        Some(signature)
    } else {
        None
    }
}

/// The signature to send, from the key store's answer to a call with a buffer: its
/// status, zero for success, the buffer, and how many bytes of it were written.
pub fn tls_signature(status: i32, buffer: Vec<u8>, written: u32) -> (r: Result<
    Vec<u8>,
    SignFailure,
>)
    ensures
        match r {
            Ok(signature) => status == 0 && tls_form(written_part(buffer@, written as nat)) == Some(
                signature@,
            ),
            Err(_) => status != 0 || tls_form(written_part(buffer@, written as nat)) is None,
        },
{
    if status != 0 {
        return Err(SignFailure);
    }
    let mut signature = buffer;
    signature.truncate(written as usize);
    assert(signature@ =~= written_part(buffer@, written as nat));
    if reads_as_der(signature.as_slice()) {
        return Ok(signature);
    }
    match ecdsa_raw_to_der(signature.as_slice()) {
        Some(der) => Ok(der),
        None => if signature.len() > 0 && signature[0] == 0x30 {
            Ok(signature)
        } else {
            Err(SignFailure)
        },
    }
}

/// What is sent for a signature that reads as DER, or that is a raw pair of
/// numbers, reads as DER. The bound leaves out only what no memory holds.
pub proof fn law_sent_signatures_are_der(signature: Seq<u8>)
    requires
        read_signature(signature) is Some || is_raw_signature(signature),
        signature.len() <= usize::MAX - 64,
    ensures
        tls_form(signature) matches Some(sent) && read_signature(sent) is Some,
{
    if read_signature(signature) is None {
        law_der_round_trip(signature);
    }
}

/// A signature in the form that TLS carries stays as it is.
pub proof fn law_der_is_kept(signature: Seq<u8>)
    requires
        signature.len() <= usize::MAX - 64,
    ensures
        tls_form(signature) matches Some(sent) ==> tls_form(sent) == Some(sent),
{
    if read_signature(signature) is Some || is_raw_signature(signature) {
        law_sent_signatures_are_der(signature);
    }
}

/// A raw signature is sent as the canonical DER of its two numbers, whatever its
/// first byte. One that happens to read as DER in itself is outside this law, since
/// it is kept.
pub proof fn law_raw_signatures_are_sent_as_der(raw: Seq<u8>)
    requires
        is_raw_signature(raw),
        read_signature(raw) is None,
        raw.len() <= usize::MAX - 64,
    ensures
        tls_form(raw) == Some(signature_element(raw_r(raw), raw_s(raw))),
        read_signature(signature_element(raw_r(raw), raw_s(raw))) == Some(
            (be_value(raw_r(raw)), be_value(raw_s(raw))),
        ),
{
    law_der_round_trip(raw);
}

/// What the key store wrote is taken whole and nothing else is: of an even number of
/// written bytes that are not DER in themselves, the first half is sent as the one number
/// and the second half as the other, as DER.
pub proof fn law_what_was_written_is_sent(buffer: Seq<u8>, written: nat)
    requires
        0 < written <= buffer.len(),
        written % 2 == 0,
        written <= usize::MAX - 64,
        read_signature(buffer.take(written as int)) is None,
    ensures
        tls_form(written_part(buffer, written)) matches Some(sent) && read_signature(sent) == Some(
            (
                be_value(buffer.take(written as int / 2)),
                be_value(buffer.subrange(written as int / 2, written as int)),
            ),
        ),
{
    let raw = buffer.take(written as int);
    let half = written as int / 2;
    assert(written_part(buffer, written) =~= raw);
    law_raw_signatures_are_sent_as_der(raw);
    assert(raw.take(half) =~= buffer.take(half));
    assert(raw.skip(half) =~= buffer.subrange(half, written as int));
    assert(raw_r(raw) == raw.take(half));
    assert(raw_s(raw) == raw.skip(half));
}

/// What was written and reads as DER is sent byte for byte; so is what cannot be a pair
/// of numbers but starts as DER does; and nothing is sent for anything else that is no
/// pair.
pub proof fn law_what_else_was_written(buffer: Seq<u8>, written: nat)
    requires
        written <= buffer.len(),
    ensures
        ({
            let signature = buffer.take(written as int);
            let sent = tls_form(written_part(buffer, written));
            &&& read_signature(signature) is Some ==> sent == Some(signature)
            &&& read_signature(signature) is None && written % 2 == 1 && signature[0] == 0x30
                ==> sent == Some(signature)
            &&& read_signature(signature) is None && written % 2 == 1 && signature[0] != 0x30
                ==> sent is None
            &&& written == 0 ==> sent is None
        }),
        written_part(buffer, buffer.len()) == buffer,
{
    assert(written_part(buffer, written) =~= buffer.take(written as int));
}

/// A count beyond the buffer takes the whole of it.
pub proof fn law_buffer_is_the_limit(buffer: Seq<u8>, written: nat)
    requires
        written >= buffer.len(),
    ensures
        written_part(buffer, written) == buffer,
{
}

} // verus!
