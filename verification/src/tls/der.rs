//! ECDSA signatures, from the raw pair of numbers to the DER form that TLS carries.
use crate::bytes::{
    be_minimal, be_value, lemma_be_minimal, lemma_be_value_leading_zero, lemma_pow256_small,
    push_all, push_be_minimal, read_be,
};
use vstd::prelude::*;

verus! {

/// `x` without leading zero bytes, keeping at least one byte.
pub open spec fn strip_zeros(x: Seq<u8>) -> Seq<u8>
    decreases x.len(),
{
    if x.len() > 1 && x[0] == 0 {
        strip_zeros(x.drop_first())
    } else {
        x
    }
}

/// The contents bytes of the DER INTEGER whose magnitude is `x`.
pub open spec fn integer_body(x: Seq<u8>) -> Seq<u8> {
    let m = strip_zeros(x);
    if m[0] >= 0x80 {
        seq![0u8] + m
    } else {
        m
    }
}

/// The length bytes for `total` contents bytes: the short form below 128, else
/// the long form.
pub open spec fn length_bytes(total: nat) -> Seq<u8> {
    if total < 128 {
        seq![total as u8]
    } else {
        let digits = be_minimal(total);
        seq![(0x80 + digits.len()) as u8] + digits
    }
}

/// The INTEGER element for magnitude `x`.
pub open spec fn integer_element(x: Seq<u8>) -> Seq<u8> {
    let body = integer_body(x);
    seq![0x02u8] + length_bytes(body.len()) + body
}

/// The SEQUENCE of the two INTEGERs whose magnitudes are `r` and `s`.
pub open spec fn signature_element(r: Seq<u8>, s: Seq<u8>) -> Seq<u8> {
    let content = integer_element(r) + integer_element(s);
    seq![0x30u8] + length_bytes(content.len()) + content
}

/// The first half of a raw signature.
pub open spec fn raw_r(raw: Seq<u8>) -> Seq<u8> {
    raw.take(raw.len() as int / 2)
}

/// The second half of a raw signature.
pub open spec fn raw_s(raw: Seq<u8>) -> Seq<u8> {
    raw.skip(raw.len() as int / 2)
}

/// Whether `raw` is two numbers of the same, non-zero width.
pub open spec fn is_raw_signature(raw: Seq<u8>) -> bool {
    raw.len() > 0 && raw.len() % 2 == 0
}

/// Appends to `out` the length bytes for `total` contents bytes.
fn push_length(out: &mut Vec<u8>, total: usize)
    ensures
        final(out)@ == old(out)@ + length_bytes(total as nat),
{
    if total < 128 {
        out.push(total as u8);
    } else {
        let mut digits: Vec<u8> = Vec::new();
        push_be_minimal(&mut digits, total as u64);
        proof {
            lemma_pow256_small();
            lemma_be_minimal(total as nat, 8);
            assert(digits@ =~= be_minimal(total as nat));
        }
        out.push(0x80 + digits.len() as u8);
        push_all(out, digits.as_slice());
    }
    assert(out@ =~= old(out)@ + length_bytes(total as nat));
}

/// Appends to `out` the INTEGER element for the magnitude at `raw[from..to]`.
fn push_integer(out: &mut Vec<u8>, raw: &[u8], from: usize, to: usize)
    requires
        from < to <= raw@.len(),
        to - from < usize::MAX,
    ensures
        final(out)@ == old(out)@ + integer_element(raw@.subrange(from as int, to as int)),
{
    let ghost x = raw@.subrange(from as int, to as int);
    let mut start: usize = from;
    while to - start > 1 && raw[start] == 0x00
        invariant
            from <= start < to <= raw@.len(),
            strip_zeros(x) == strip_zeros(raw@.subrange(start as int, to as int)),
        decreases to - start,
    {
        assert(raw@.subrange(start as int, to as int).drop_first() =~= raw@.subrange(
            start + 1,
            to as int,
        ));
        start = start + 1;
    }
    let ghost m = raw@.subrange(start as int, to as int);
    assert(strip_zeros(x) == m);
    let first = raw[start];
    let needs_pad = (first & 0x80) != 0;
    assert((first & 0x80 != 0) == (first >= 0x80)) by (bit_vector);
    let len: usize = to - start + if needs_pad {
        1
    } else {
        0
    };
    out.push(0x02);
    push_length(out, len);
    if needs_pad {
        out.push(0x00);
    }
    let mut i: usize = start;
    let ghost head = out@;
    while i < to
        invariant
            start <= i <= to <= raw@.len(),
            out@ == head + raw@.subrange(start as int, i as int),
        decreases to - i,
    {
        out.push(raw[i]);
        assert(out@ =~= head + raw@.subrange(start as int, i + 1));
        i = i + 1;
    }
    assert(integer_body(x).len() == len);
    assert(out@ =~= old(out)@ + integer_element(x));
}

/// Turns the raw form of an ECDSA signature, `r` and `s` side by side at the same
/// width, into its DER form. A signature that is empty or of odd length has none.
pub fn ecdsa_raw_to_der(raw: &[u8]) -> (der: Option<Vec<u8>>)
    ensures
        der is Some <==> is_raw_signature(raw@),
        der matches Some(d) ==> d@ == signature_element(raw_r(raw@), raw_s(raw@)),
{
    let len = raw.len();
    if len == 0 || len % 2 != 0 {
        return None;
    }
    let half = len / 2;
    let mut content: Vec<u8> = Vec::new();
    push_integer(&mut content, raw, 0, half);
    push_integer(&mut content, raw, half, len);
    proof {
        assert(raw@.subrange(0, half as int) =~= raw_r(raw@));
        assert(raw@.subrange(half as int, len as int) =~= raw_s(raw@));
        assert(content@ =~= integer_element(raw_r(raw@)) + integer_element(raw_s(raw@)));
    }
    let total = content.len();
    let mut seq: Vec<u8> = Vec::new();
    seq.push(0x30);
    push_length(&mut seq, total);
    assert(seq@ =~= seq![0x30u8] + length_bytes(content@.len()));
    push_all(&mut seq, content.as_slice());
    Some(seq)
}

/// What a DER reader finds at the start of `s` where a length is due: the length
/// and how many bytes it took. Lengths are read in their shortest form only.
pub open spec fn read_length(s: Seq<u8>) -> Option<(nat, nat)> {
    if s.len() == 0 {
        None
    } else if s[0] < 0x80 {
        Some((s[0] as nat, 1))
    } else {
        let count = s[0] - 0x80;
        let digits = s.subrange(1, 1 + count);
        if 1 <= count <= 8 && s.len() >= 1 + count && digits[0] != 0 && be_value(digits) >= 128 {
            Some((be_value(digits), (1 + count) as nat))
        } else {
            None
        }
    }
}

/// Whether `body` is the shortest encoding of a non-negative INTEGER.
pub open spec fn is_canonical_unsigned(body: Seq<u8>) -> bool {
    &&& body.len() > 0
    &&& body[0] < 0x80
    &&& body.len() > 1 && body[0] == 0 ==> body[1] >= 0x80
}

/// What a DER reader finds at the start of `s` where a non-negative INTEGER is
/// due: the number and how many bytes the element took.
pub open spec fn read_unsigned(s: Seq<u8>) -> Option<(nat, nat)> {
    if s.len() == 0 || s[0] != 0x02 {
        None
    } else {
        match read_length(s.skip(1)) {
            None => None,
            Some((len, taken)) => {
                let body = s.subrange((1 + taken) as int, (1 + taken + len) as int);
                if s.len() >= 1 + taken + len && is_canonical_unsigned(body) {
                    Some((be_value(body), 1 + taken + len))
                } else {
                    None
                }
            },
        }
    }
}

/// The pair of numbers that a DER reader takes from `s`, where `s` is exactly one
/// SEQUENCE of two non-negative INTEGERs in shortest form.
pub open spec fn read_signature(s: Seq<u8>) -> Option<(nat, nat)> {
    if s.len() == 0 || s[0] != 0x30 {
        None
    } else {
        match read_length(s.skip(1)) {
            None => None,
            Some((len, taken)) => if s.len() != 1 + taken + len {
                None
            } else {
                let content = s.skip((1 + taken) as int);
                match read_unsigned(content) {
                    None => None,
                    Some((r, used)) => match read_unsigned(content.skip(used as int)) {
                        None => None,
                        Some((v, rest)) => if used + rest == len {
                            Some((r, v))
                        } else {
                            None
                        },
                    },
                }
            },
        }
    }
}

/// Reads the length at `s[at..]`: the length and how many bytes it takes.
fn length_at(s: &[u8], at: usize) -> (r: Option<(u64, usize)>)
    requires
        at <= s@.len(),
    ensures
        match (r, read_length(s@.skip(at as int))) {
            (Some((len, taken)), Some((n, t))) => len == n && taken == t && taken <= s@.len() - at,
            (None, None) => true,
            _ => false,
        },
{
    let left = s.len() - at;
    if left == 0 {
        return None;
    }
    let head = s[at];
    if head < 0x80 {
        return Some((head as u64, 1));
    }
    let count = (head - 0x80) as usize;
    if count < 1 || count > 8 || left - 1 < count {
        return None;
    }
    let digits = vstd::slice::slice_subrange(s, at + 1, at + 1 + count);
    assert(digits@ =~= s@.skip(at as int).subrange(1, 1 + count));
    let len = read_be(digits);
    if digits[0] == 0 || len < 128 {
        return None;
    }
    Some((len, 1 + count))
}

/// Reads the non-negative INTEGER at `s[at..]`: how many bytes the element takes.
fn unsigned_at(s: &[u8], at: usize) -> (r: Option<usize>)
    requires
        at <= s@.len(),
    ensures
        match (r, read_unsigned(s@.skip(at as int))) {
            (Some(used), Some((_, n))) => used == n && used <= s@.len() - at,
            (None, None) => true,
            _ => false,
        },
{
    let ghost from = s@.skip(at as int);
    if s.len() == at || s[at] != 0x02 {
        return None;
    }
    assert(s@.skip(at + 1) =~= from.skip(1));
    let (len, taken) = match length_at(s, at + 1) {
        Some(read) => read,
        None => return None,
    };
    let start = at + 1 + taken;
    if len > (s.len() - start) as u64 {
        return None;
    }
    let end = start + len as usize;
    assert(from.subrange((1 + taken) as int, (1 + taken + len) as int) =~= s@.subrange(
        start as int,
        end as int,
    ));
    if start == end || s[start] >= 0x80 {
        return None;
    }
    if end - start > 1 && s[start] == 0 && s[start + 1] < 0x80 {
        return None;
    }
    Some(end - at)
}

/// Tells whether a signature is one in DER: exactly one SEQUENCE of two
/// non-negative INTEGERs, all in shortest form.
pub fn reads_as_der(signature: &[u8]) -> (r: bool)
    ensures
        r == (read_signature(signature@) is Some),
{
    let total = signature.len();
    if total == 0 || signature[0] != 0x30 {
        return false;
    }
    let (len, taken) = match length_at(signature, 1) {
        Some(read) => read,
        None => return false,
    };
    let start = 1 + taken;
    if len != (total - start) as u64 {
        return false;
    }
    let used = match unsigned_at(signature, start) {
        Some(used) => used,
        None => return false,
    };
    assert(signature@.skip(start as int).skip(used as int) =~= signature@.skip(start + used));
    match unsigned_at(signature, start + used) {
        Some(rest) => start + used + rest == total,
        None => false,
    }
}

proof fn lemma_strip_zeros(x: Seq<u8>)
    requires
        x.len() > 0,
    ensures
        0 < strip_zeros(x).len() <= x.len(),
        be_value(strip_zeros(x)) == be_value(x),
        strip_zeros(x).len() > 1 ==> strip_zeros(x)[0] != 0,
    decreases x.len(),
{
    if x.len() > 1 && x[0] == 0 {
        lemma_be_value_leading_zero(x);
        lemma_strip_zeros(x.drop_first());
    }
}

proof fn lemma_integer_body(x: Seq<u8>)
    requires
        x.len() > 0,
    ensures
        is_canonical_unsigned(integer_body(x)),
        be_value(integer_body(x)) == be_value(x),
        integer_body(x).len() <= x.len() + 1,
{
    lemma_strip_zeros(x);
    let m = strip_zeros(x);
    if m[0] >= 0x80 {
        lemma_be_value_leading_zero(seq![0u8] + m);
        assert((seq![0u8] + m).drop_first() =~= m);
    }
}

/// The element is read back from any string that starts with it.
proof fn lemma_read_integer_element(x: Seq<u8>, tail: Seq<u8>)
    requires
        x.len() > 0,
        integer_body(x).len() <= u64::MAX,
    ensures
        read_unsigned(integer_element(x) + tail) == Some((be_value(x), integer_element(x).len())),
{
    lemma_integer_body(x);
    let s = integer_element(x) + tail;
    let body = integer_body(x);
    let taken = length_bytes(body.len()).len();
    lemma_read_length_bytes(body.len(), body + tail);
    assert(s.skip(1) =~= length_bytes(body.len()) + (body + tail));
    assert(s.subrange((1 + taken) as int, (1 + taken + body.len()) as int) =~= body);
}

proof fn lemma_read_length_bytes(total: nat, tail: Seq<u8>)
    requires
        total <= u64::MAX,
    ensures
        length_bytes(total).len() <= 9,
        read_length(length_bytes(total) + tail) == Some((total, length_bytes(total).len())),
{
    let s = length_bytes(total) + tail;
    if total >= 128 {
        lemma_pow256_small();
        lemma_be_minimal(total, 8);
        let digits = be_minimal(total);
        assert(s.subrange(1, 1 + digits.len() as int) =~= digits);
    }
}

/// The DER form of a raw signature is the canonical DER of its two numbers: a
/// strict reader takes exactly `r` and `s` back from it. The bound leaves out only
/// what no memory holds.
pub proof fn law_der_round_trip(raw: Seq<u8>)
    requires
        is_raw_signature(raw),
        raw.len() <= usize::MAX - 64,
    ensures
        read_signature(signature_element(raw_r(raw), raw_s(raw))) == Some(
            (be_value(raw_r(raw)), be_value(raw_s(raw))),
        ),
{
    lemma_integer_body(raw_r(raw));
    lemma_integer_body(raw_s(raw));
    lemma_read_length_bytes(integer_body(raw_r(raw)).len(), seq![]);
    lemma_read_length_bytes(integer_body(raw_s(raw)).len(), seq![]);
    let r = integer_element(raw_r(raw));
    let s = integer_element(raw_s(raw));
    let content = r + s;
    let der = signature_element(raw_r(raw), raw_s(raw));
    let taken = length_bytes(content.len()).len();
    lemma_read_length_bytes(content.len(), content);
    assert(der.skip(1) =~= length_bytes(content.len()) + content);
    assert(der.skip((1 + taken) as int) =~= content);
    lemma_read_integer_element(raw_r(raw), s);
    assert(content.skip(r.len() as int) =~= s);
    lemma_read_integer_element(raw_s(raw), seq![]);
    assert(s + seq![] =~= s);
}

/// A length is one byte below 128; from there on it is one byte that says how many
/// follow, and then the number itself, in as few bytes as it takes.
pub proof fn law_length_layout(total: nat)
    requires
        total <= u64::MAX,
    ensures
        total < 128 ==> length_bytes(total) == seq![total as u8],
        total >= 128 ==> {
            let bytes = length_bytes(total);
            &&& 2 <= bytes.len() <= 9
            &&& bytes[0] == 127 + bytes.len()
            &&& bytes[1] != 0
            &&& be_value(bytes.skip(1)) == total
        },
{
    if total >= 128 {
        lemma_pow256_small();
        lemma_be_minimal(total, 8);
        assert(length_bytes(total).skip(1) =~= be_minimal(total));
    }
}

/// An INTEGER is its tag, its length and its bytes: as they are below the sign bit, with
/// a zero byte before them at the sign bit, and without the zeros that stand before the
/// number.
pub proof fn law_integer_layout(x: Seq<u8>)
    requires
        x.len() > 0,
    ensures
        0 < x[0] < 0x80 || x == seq![0u8] ==> integer_element(x) == seq![0x02u8] + length_bytes(
            x.len(),
        ) + x,
        x[0] >= 0x80 ==> integer_element(x) == seq![0x02u8] + length_bytes(x.len() + 1) + (
        seq![0u8] + x),
        integer_element(seq![0u8] + x) == integer_element(x),
{
    assert((seq![0u8] + x).drop_first() =~= x);
}

/// A signature is one SEQUENCE, whose length says how much follows, of the INTEGERs of
/// the two numbers in order.
pub proof fn law_signature_layout(r: Seq<u8>, s: Seq<u8>)
    ensures
        ({
            let content = integer_element(r) + integer_element(s);
            signature_element(r, s) == seq![0x30u8] + length_bytes(content.len()) + content
        }),
{
}

/// A raw signature is any non-empty string of even length, and its halves are its
/// numbers.
pub proof fn law_raw_signatures_are_pairs(r: Seq<u8>, s: Seq<u8>, raw: Seq<u8>)
    requires
        0 < r.len() == s.len(),
    ensures
        is_raw_signature(r + s),
        raw_r(r + s) == r,
        raw_s(r + s) == s,
        is_raw_signature(raw) <==> (exists|half: nat| half > 0 && raw.len() == #[trigger] (2 * half)),
{
    assert(raw_r(r + s) =~= r);
    assert(raw_s(r + s) =~= s);
    if is_raw_signature(raw) {
        let half = raw.len() / 2;
        assert(raw.len() == 2 * half);
    }
}

proof fn lemma_digits_are_minimal(digits: Seq<u8>)
    requires
        digits.len() > 0,
        digits[0] != 0,
    ensures
        be_minimal(be_value(digits)) == digits,
        be_value(digits) > 0,
    decreases digits.len(),
{
    let rest = digits.drop_last();
    let n = be_value(digits);
    assert(n / 256 == be_value(rest) && n % 256 == digits.last() as nat);
    if rest.len() > 0 {
        assert(rest[0] == digits[0]);
        lemma_digits_are_minimal(rest);
    } else {
        assert(be_value(rest) == 0);
        assert(be_minimal(0) =~= rest);
        assert(digits.last() == digits[0]);
    }
    assert(n > 0);
    assert(be_minimal(n) == be_minimal(n / 256).push((n % 256) as u8));
    assert(be_minimal(n) =~= digits);
}

proof fn lemma_read_length_is_strict(s: Seq<u8>)
    requires
        read_length(s) is Some,
    ensures
        read_length(s) matches Some((n, taken)) && taken <= s.len() && s.take(taken as int)
            == length_bytes(n),
{
    if s[0] < 0x80 {
        assert(s.take(1) =~= length_bytes(s[0] as nat));
    } else {
        let count = s[0] - 0x80;
        let digits = s.subrange(1, 1 + count);
        lemma_digits_are_minimal(digits);
        assert(s.take(1 + count) =~= length_bytes(be_value(digits)));
    }
}

proof fn lemma_read_unsigned_is_strict(s: Seq<u8>) -> (x: Seq<u8>)
    requires
        read_unsigned(s) is Some,
    ensures
        x.len() > 0,
        read_unsigned(s) matches Some((n, used)) && used <= s.len() && s.take(used as int)
            == integer_element(x) && n == be_value(x),
{
    lemma_read_length_is_strict(s.skip(1));
    let (len, taken) = read_length(s.skip(1))->0;
    let body = s.subrange((1 + taken) as int, (1 + taken + len) as int);
    assert(integer_body(body) =~= body) by {
        if body.len() > 1 && body[0] == 0 {
            let rest = body.drop_first();
            assert(rest[0] == body[1]);
            assert(strip_zeros(body) == strip_zeros(rest));
            assert(strip_zeros(rest) == rest);
            assert(seq![0u8] + rest =~= body);
        }
    }
    assert(s.skip(1).take(taken as int) =~= s.subrange(1, 1 + taken as int));
    assert(s.take((1 + taken + len) as int) =~= integer_element(body));
    body
}

proof fn lemma_read_pair_is_strict(content: Seq<u8>) -> (pair: (Seq<u8>, Seq<u8>))
    requires
        read_unsigned(content) matches Some((_, used)) && (read_unsigned(
            content.skip(used as int),
        ) matches Some((_, rest)) && used + rest == content.len()),
    ensures
        pair.0.len() > 0,
        pair.1.len() > 0,
        content == integer_element(pair.0) + integer_element(pair.1),
        read_unsigned(content) matches Some((r, used)) && r == be_value(pair.0) && (read_unsigned(
            content.skip(used as int),
        ) matches Some((v, _)) && v == be_value(pair.1)),
{
    let x = lemma_read_unsigned_is_strict(content);
    let (_, used) = read_unsigned(content)->0;
    let tail = content.skip(used as int);
    let y = lemma_read_unsigned_is_strict(tail);
    assert(tail.take(tail.len() as int) =~= tail);
    assert(content =~= content.take(used as int) + tail);
    (x, y)
}

/// The reader is strict: it takes two numbers out of a string only where the string is
/// exactly the DER of those numbers, so that no other string reads as a signature.
pub proof fn law_reader_is_strict(s: Seq<u8>) -> (pair: (Seq<u8>, Seq<u8>))
    requires
        read_signature(s) is Some,
    ensures
        pair.0.len() > 0,
        pair.1.len() > 0,
        s == signature_element(pair.0, pair.1),
        read_signature(s) == Some((be_value(pair.0), be_value(pair.1))),
{
    lemma_read_length_is_strict(s.skip(1));
    let (len, taken) = read_length(s.skip(1))->0;
    let content = s.skip((1 + taken) as int);
    let pair = lemma_read_pair_is_strict(content);
    assert(s.skip(1).take(taken as int) =~= s.subrange(1, 1 + taken as int));
    assert(s =~= seq![0x30u8] + s.subrange(1, 1 + taken as int) + content);
    assert(s == signature_element(pair.0, pair.1));
    pair
}

} // verus!
