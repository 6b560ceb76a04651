//! Hexadecimal text, as fingerprints are written in the configuration.
use crate::text::decimal;
use vstd::prelude::*;

verus! {

/// Why a text is not hexadecimal.
#[derive(Clone, Copy, Debug, PartialEq, Eq, Structural)]
pub enum HexError {
    /// The byte at `index`, taken as the character of the same number, is no digit.
    InvalidHexCharacter { c: char, index: usize },
    /// The number of digits is odd.
    OddLength,
    /// The number of digits does not fit a container of fixed size.
    InvalidStringLength,
}

/// The value of the digit `b`, in either case.
pub open spec fn digit_value(b: u8) -> Option<u8> {
    if 0x30 <= b <= 0x39 {
        Some((b - 0x30) as u8)
    } else if 0x41 <= b <= 0x46 {
        Some((b - 0x41 + 10) as u8)
    } else if 0x61 <= b <= 0x66 {
        Some((b - 0x61 + 10) as u8)
    } else {
        None
    }
}

/// The position of the first byte of `s` that is no digit, or the length of `s`.
pub open spec fn first_non_digit(s: Seq<u8>) -> nat
    decreases s.len(),
{
    if s.len() == 0 || digit_value(s[0]) is None {
        0
    } else {
        1 + first_non_digit(s.drop_first())
    }
}

/// The bytes that the digits `s` spell, two digits to a byte.
pub open spec fn digit_pairs(s: Seq<u8>) -> Seq<u8> {
    Seq::new(
        s.len() / 2,
        |i: int| (digit_value(s[2 * i])->0 * 16 + digit_value(s[2 * i + 1])->0) as u8,
    )
}

/// What the text `s` stands for: an odd length is found first, then the first
/// byte that is no digit.
pub open spec fn decoded(s: Seq<u8>) -> Result<Seq<u8>, HexError> {
    let bad = first_non_digit(s);
    if s.len() % 2 != 0 {
        Err(HexError::OddLength)
    } else if bad < s.len() {
        Err(HexError::InvalidHexCharacter { c: s[bad as int] as char, index: bad as usize })
    } else {
        Ok(digit_pairs(s))
    }
}

/// Calls `hex::decode`. Believed of it: it refuses a text of odd length, then
/// names the first byte that is no hexadecimal digit with its position, and
/// otherwise returns the bytes that the digits spell.
#[verifier::external_body]
pub(crate) fn hex_decode(text: &[u8]) -> (r: Result<Vec<u8>, HexError>)
    ensures
        match r {
            Ok(bytes) => decoded(text@) == Ok::<Seq<u8>, HexError>(bytes@),
            Err(e) => decoded(text@) == Err::<Seq<u8>, HexError>(e),
        },
{
    match hex::decode(text) {
        Ok(bytes) => Ok(bytes),
        Err(hex::FromHexError::InvalidHexCharacter { c, index }) => Err(
            HexError::InvalidHexCharacter { c, index },
        ),
        Err(hex::FromHexError::OddLength) => Err(HexError::OddLength),
        Err(hex::FromHexError::InvalidStringLength) => Err(HexError::InvalidStringLength),
    }
}

/// How a character is written for debugging, quoted and escaped.
pub uninterp spec fn char_debug(c: char) -> Seq<char>;

/// How a decoding error reads.
pub open spec fn error_text(e: HexError) -> Seq<char> {
    match e {
        HexError::InvalidHexCharacter { c, index } => "Invalid character "@ + char_debug(c)
            + " at position "@ + decimal(index as nat),
        HexError::OddLength => "Odd number of digits"@,
        HexError::InvalidStringLength => "Invalid string length"@,
    }
}

/// Calls `to_string` of `hex::FromHexError`. Believed of it: the text of each
/// variant, in which the character stands as its `Debug` form and the position
/// in decimal.
#[verifier::external_body]
fn hex_error_text(e: HexError) -> (r: String)
    ensures
        e matches HexError::InvalidHexCharacter { c, index } ==> r@ == "Invalid character "@
            + char_debug(c) + " at position "@ + decimal(index as nat),
        e is OddLength ==> r@ == "Odd number of digits"@,
        e is InvalidStringLength ==> r@ == "Invalid string length"@,
{
    match e {
        HexError::InvalidHexCharacter { c, index } => hex::FromHexError::InvalidHexCharacter {
            c,
            index,
        }.to_string(),
        HexError::OddLength => hex::FromHexError::OddLength.to_string(),
        HexError::InvalidStringLength => hex::FromHexError::InvalidStringLength.to_string(),
    }
}

impl HexError {
    /// How the error reads.
    pub fn message(self) -> (r: String)
        ensures
            r@ == error_text(self),
    {
        hex_error_text(self)
    }
}

/// The lower-case digit of value `v`.
pub open spec fn lower_digit(v: u8) -> char {
    if v < 10 {
        (0x30 + v) as char
    } else {
        (0x61 + v - 10) as char
    }
}

/// `bytes` in lower-case hexadecimal.
pub open spec fn encoded(bytes: Seq<u8>) -> Seq<char> {
    Seq::new(
        2 * bytes.len(),
        |i: int| lower_digit(if i % 2 == 0 {
            bytes[i / 2] / 16
        } else {
            bytes[i / 2] % 16
        }),
    )
}

/// The digit of value `v` as text.
fn lower_digit_str(v: u8) -> (s: &'static str)
    requires
        v < 16,
    ensures
        s@ == seq![lower_digit(v)],
{
    proof {
        reveal_strlit("0");
        reveal_strlit("1");
        reveal_strlit("2");
        reveal_strlit("3");
        reveal_strlit("4");
        reveal_strlit("5");
        reveal_strlit("6");
        reveal_strlit("7");
        reveal_strlit("8");
        reveal_strlit("9");
        reveal_strlit("a");
        reveal_strlit("b");
        reveal_strlit("c");
        reveal_strlit("d");
        reveal_strlit("e");
        reveal_strlit("f");
    }
    match v {
        0 => "0",
        1 => "1",
        2 => "2",
        3 => "3",
        4 => "4",
        5 => "5",
        6 => "6",
        7 => "7",
        8 => "8",
        9 => "9",
        10 => "a",
        11 => "b",
        12 => "c",
        13 => "d",
        14 => "e",
        _ => "f",
    }
}

/// Appends `bytes` in lower-case hexadecimal to `out`.
pub fn push_hex(out: &mut String, bytes: &[u8])
    ensures
        final(out)@ == old(out)@ + encoded(bytes@),
{
    let mut i: usize = 0;
    assert(out@ =~= old(out)@ + encoded(bytes@.take(0)));
    while i < bytes.len()
        invariant
            i <= bytes@.len(),
            out@ == old(out)@ + encoded(bytes@.take(i as int)),
        decreases bytes@.len() - i,
    {
        let b = bytes[i];
        out.append(lower_digit_str(b / 16));
        out.append(lower_digit_str(b % 16));
        proof {
            let before = encoded(bytes@.take(i as int));
            let after = encoded(bytes@.take(i + 1));
            assert(after.len() == before.len() + 2);
            assert forall|k: int| 0 <= k < before.len() implies before[k] == after[k] by {
                assert(bytes@.take(i as int)[k / 2] == bytes@.take(i + 1)[k / 2]);
            }
            assert(out@ =~= old(out)@ + after);
        }
        i = i + 1;
    }
    assert(bytes@.take(bytes@.len() as int) =~= bytes@);
}

/// Where every byte is a digit, none is the first that is not.
pub(crate) proof fn lemma_all_digits(s: Seq<u8>)
    ensures
        first_non_digit(s) <= s.len(),
        forall|i: int| 0 <= i < first_non_digit(s) ==> digit_value(#[trigger] s[i]) is Some,
        first_non_digit(s) < s.len() ==> digit_value(s[first_non_digit(s) as int]) is None,
    decreases s.len(),
{
    if s.len() > 0 && digit_value(s[0]) is Some {
        lemma_all_digits(s.drop_first());
        assert forall|i: int| 0 <= i < first_non_digit(s) implies digit_value(
            #[trigger] s[i],
        ) is Some by {
            if i > 0 {
                assert(s[i] == s.drop_first()[i - 1]);
            }
        }
    }
}

/// Two texts of the same length that differ only in the case of their digits
/// stand for the same bytes.
pub proof fn law_digits_have_no_case(a: Seq<u8>, b: Seq<u8>)
    requires
        decoded(a) is Ok,
        a.len() == b.len(),
        forall|i: int| 0 <= i < a.len() ==> #[trigger] digit_value(b[i]) == digit_value(a[i]),
    ensures
        decoded(b) == decoded(a),
{
    lemma_all_digits(a);
    lemma_all_digits(b);
    assert(first_non_digit(b) == b.len()) by {
        let n = first_non_digit(b) as int;
        if n < b.len() {
            assert(digit_value(a[n]) is Some);
            assert(digit_value(b[n]) == digit_value(a[n]));
        }
    }
    assert forall|i: int| 0 <= i < a.len() / 2 implies digit_pairs(a)[i] == digit_pairs(b)[i] by {
        assert(digit_value(b[2 * i]) == digit_value(a[2 * i]));
        assert(digit_value(b[2 * i + 1]) == digit_value(a[2 * i + 1]));
    }
    assert(digit_pairs(a) =~= digit_pairs(b));
}

/// Decoding the hexadecimal form of `bytes` gives `bytes` back.
pub proof fn law_hex_round_trip(bytes: Seq<u8>)
    ensures
        decoded(vstd::utf8::encode_utf8(encoded(bytes))) == Ok::<Seq<u8>, HexError>(bytes),
{
    let text = encoded(bytes);
    let s = vstd::utf8::encode_utf8(text);
    assert(vstd::utf8::is_ascii_chars(text));
    vstd::utf8::is_ascii_chars_encode_utf8(text);
    assert forall|i: int| 0 <= i < s.len() implies #[trigger] digit_value(s[i]) == Some(
        if i % 2 == 0 {
            (bytes[i / 2] / 16) as u8
        } else {
            (bytes[i / 2] % 16) as u8
        },
    ) by {
        assert(text[i] as u8 == s[i]);
    }
    lemma_all_digits(s);
    assert(first_non_digit(s) == s.len()) by {
        let n = first_non_digit(s) as int;
        if n < s.len() {
            assert(digit_value(s[n]) is Some);
        }
    }
    assert forall|i: int| 0 <= i < bytes.len() implies digit_pairs(s)[i] == bytes[i] by {
        assert(digit_value(s[2 * i]) is Some);
        assert(digit_value(s[2 * i + 1]) is Some);
        assert((2 * i) / 2 == i && (2 * i + 1) / 2 == i);
    }
    assert(digit_pairs(s) =~= bytes);
}

/// The digits are those of ASCII, in either case, and each has its value.
pub proof fn law_digits(b: u8)
    ensures
        0x30 <= b <= 0x39 ==> digit_value(b) == Some((b - 48) as u8),
        0x41 <= b <= 0x46 ==> digit_value(b) == Some((b - 55) as u8),
        0x61 <= b <= 0x66 ==> digit_value(b) == Some((b - 87) as u8),
        b < 0x30 || 0x39 < b < 0x41 || 0x46 < b < 0x61 || 0x66 < b ==> digit_value(b) is None,
{
}

/// What a text stands for, byte by byte: it stands for bytes exactly where its length is
/// even and every byte of it is a digit; each byte is sixteen times the one digit and
/// the next one; and what is in the way is the length, or else the first byte that is no
/// digit, with its place.
pub proof fn law_decoding(s: Seq<u8>)
    requires
        s.len() <= usize::MAX,
    ensures
        decoded(s) is Ok <==> s.len() % 2 == 0 && (forall|i: int|
            0 <= i < s.len() ==> digit_value(#[trigger] s[i]) is Some),
        decoded(s) matches Ok(bytes) ==> bytes.len() * 2 == s.len() && (forall|i: int|
            0 <= i < bytes.len() ==> #[trigger] bytes[i] == 16 * digit_value(s[2 * i])->0
                + digit_value(s[2 * i + 1])->0),
        decoded(s) == Err::<Seq<u8>, HexError>(HexError::OddLength) <==> s.len() % 2 == 1,
        decoded(s) matches Err(HexError::InvalidHexCharacter { c, index }) ==> {
            &&& index < s.len()
            &&& digit_value(s[index as int]) is None
            &&& c as int == s[index as int]
            &&& forall|i: int| 0 <= i < index ==> digit_value(#[trigger] s[i]) is Some
        },
        decoded(s) != Err::<Seq<u8>, HexError>(HexError::InvalidStringLength),
{
    lemma_all_digits(s);
    if decoded(s) is Ok {
        let bytes = decoded(s)->Ok_0;
        assert forall|i: int| 0 <= i < bytes.len() implies #[trigger] bytes[i] == 16 * digit_value(
            s[2 * i],
        )->0 + digit_value(s[2 * i + 1])->0 by {
            law_digits(s[2 * i]);
            law_digits(s[2 * i + 1]);
            assert(digit_value(s[2 * i]) is Some && digit_value(s[2 * i + 1]) is Some);
        }
    }
}

/// Bytes are written as two lower-case digits each, in order.
pub proof fn law_encoding(bytes: Seq<u8>, i: int)
    requires
        0 <= i < bytes.len(),
    ensures
        encoded(bytes).len() == 2 * bytes.len(),
        ({
            let high = encoded(bytes)[2 * i];
            let low = encoded(bytes)[2 * i + 1];
            &&& '0' <= high <= '9' || 'a' <= high <= 'f'
            &&& '0' <= low <= '9' || 'a' <= low <= 'f'
            &&& digit_value(high as u8) == Some((bytes[i] / 16) as u8)
            &&& digit_value(low as u8) == Some((bytes[i] % 16) as u8)
        }),
{
    assert((2 * i) / 2 == i && (2 * i + 1) / 2 == i);
}

/// How the errors read.
pub proof fn law_hex_errors_read(c: char, index: usize)
    ensures
        error_text(HexError::InvalidHexCharacter { c, index }) == "Invalid character "@
            + char_debug(c) + " at position "@ + decimal(index as nat),
        error_text(HexError::OddLength) == "Odd number of digits"@,
        error_text(HexError::InvalidStringLength) == "Invalid string length"@,
{
}

} // verus!
