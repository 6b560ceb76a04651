//! Big-endian numbers and the order of byte strings.
use vstd::prelude::*;

verus! {

/// The number that `bytes` spells, most significant byte first.
pub open spec fn be_value(bytes: Seq<u8>) -> nat
    decreases bytes.len(),
{
    if bytes.len() == 0 {
        0
    } else {
        be_value(bytes.drop_last()) * 256 + bytes.last() as nat
    }
}

/// The `width` low bytes of `n`, most significant byte first.
pub open spec fn be_bytes(n: nat, width: nat) -> Seq<u8>
    decreases width,
{
    if width == 0 {
        seq![]
    } else {
        be_bytes(n / 256, (width - 1) as nat).push((n % 256) as u8)
    }
}

/// The bytes of `n`, most significant byte first, without leading zeros; none for zero.
pub open spec fn be_minimal(n: nat) -> Seq<u8>
    decreases n,
{
    if n == 0 {
        seq![]
    } else {
        be_minimal(n / 256).push((n % 256) as u8)
    }
}

/// `256` to the power `width`.
pub open spec fn pow256(width: nat) -> nat
    decreases width,
{
    if width == 0 {
        1
    } else {
        256 * pow256((width - 1) as nat)
    }
}

/// Whether byte string `a` comes strictly before `b` in lexicographic order.
pub open spec fn lex_before(a: Seq<u8>, b: Seq<u8>) -> bool {
    ||| exists|i: int|
        0 <= i < a.len() && i < b.len() && a.take(i) == b.take(i) && #[trigger] a[i] < b[i]
    ||| a.len() < b.len() && b.take(a.len() as int) == a
}

/// Appends the `width` low bytes of `n` to `out`, most significant byte first.
pub fn push_be(out: &mut Vec<u8>, n: u64, width: usize)
    ensures
        final(out)@ == old(out)@ + be_bytes(n as nat, width as nat),
    decreases width,
{
    if width > 0 {
        push_be(out, n / 256, width - 1);
        out.push((n % 256) as u8);
    }
    assert(out@ =~= old(out)@ + be_bytes(n as nat, width as nat));
}

/// Appends the bytes of `n` to `out`, most significant byte first, without leading zeros.
pub fn push_be_minimal(out: &mut Vec<u8>, n: u64)
    ensures
        final(out)@ == old(out)@ + be_minimal(n as nat),
    decreases n,
{
    if n > 0 {
        push_be_minimal(out, n / 256);
        out.push((n % 256) as u8);
    }
    assert(out@ =~= old(out)@ + be_minimal(n as nat));
}

/// Reads at most eight bytes as a big-endian number.
pub fn read_be(bytes: &[u8]) -> (n: u64)
    requires
        bytes@.len() <= 8,
    ensures
        n == be_value(bytes@),
{
    let len = bytes.len();
    let mut n: u64 = 0;
    let mut i: usize = 0;
    proof {
        lemma_pow256_small();
    }
    while i < len
        invariant
            i <= len <= 8,
            len == bytes@.len(),
            n == be_value(bytes@.take(i as int)),
        decreases len - i,
    {
        let ghost next = bytes@.take(i + 1);
        proof {
            assert(next.drop_last() =~= bytes@.take(i as int));
            lemma_be_value_bound(bytes@.take(i as int));
            lemma_pow256_monotone(i as nat, 7);
            lemma_pow256_small();
        }
        n = n * 256 + bytes[i] as u64;
        i = i + 1;
    }
    assert(bytes@.take(len as int) =~= bytes@);
    n
}

/// Appends the bytes of `src` to `out`.
pub fn push_all(out: &mut Vec<u8>, src: &[u8])
    ensures
        final(out)@ == old(out)@ + src@,
{
    let len = src.len();
    let mut i: usize = 0;
    while i < len
        invariant
            i <= len,
            len == src@.len(),
            out@ == old(out)@ + src@.take(i as int),
        decreases len - i,
    {
        out.push(src[i]);
        assert(out@ =~= old(out)@ + src@.take(i + 1));
        i = i + 1;
    }
    assert(src@.take(len as int) =~= src@);
}

/// The powers of 256 that fit a machine word.
pub proof fn lemma_pow256_small()
    ensures
        pow256(0) == 1,
        pow256(1) == 0x100,
        pow256(4) == 0x1_0000_0000,
        pow256(7) == 0x100_0000_0000_0000,
        pow256(8) == 0x1_0000_0000_0000_0000,
{
    reveal_with_fuel(pow256, 9);
}

pub proof fn lemma_pow256_monotone(a: nat, b: nat)
    requires
        a <= b,
    ensures
        0 < pow256(a) <= pow256(b),
    decreases b,
{
    if a < b {
        lemma_pow256_monotone(a, (b - 1) as nat);
    } else if b > 0 {
        lemma_pow256_monotone((a - 1) as nat, (b - 1) as nat);
    }
}

/// A byte string spells a number below `256` to the power of its length.
pub proof fn lemma_be_value_bound(bytes: Seq<u8>)
    ensures
        be_value(bytes) < pow256(bytes.len()),
    decreases bytes.len(),
{
    if bytes.len() > 0 {
        lemma_be_value_bound(bytes.drop_last());
    }
}

pub proof fn lemma_be_bytes_len(n: nat, width: nat)
    ensures
        be_bytes(n, width).len() == width,
    decreases width,
{
    if width > 0 {
        lemma_be_bytes_len(n / 256, (width - 1) as nat);
    }
}

/// Writing a number in enough bytes and reading it back gives the number.
pub proof fn lemma_be_value_of_be_bytes(n: nat, width: nat)
    requires
        n < pow256(width),
    ensures
        be_value(be_bytes(n, width)) == n,
    decreases width,
{
    if width > 0 {
        let rest = be_bytes(n / 256, (width - 1) as nat);
        lemma_be_value_of_be_bytes(n / 256, (width - 1) as nat);
        assert(be_bytes(n, width).drop_last() =~= rest);
    }
}

/// Reading a byte string and writing the number in as many bytes gives the string.
pub proof fn lemma_be_bytes_of_be_value(bytes: Seq<u8>)
    ensures
        be_bytes(be_value(bytes), bytes.len()) == bytes,
    decreases bytes.len(),
{
    if bytes.len() > 0 {
        let rest = bytes.drop_last();
        lemma_be_bytes_of_be_value(rest);
        let n = be_value(bytes);
        assert(n / 256 == be_value(rest));
        assert(n % 256 == bytes.last() as nat);
        assert(be_bytes(n, bytes.len()) =~= bytes);
    } else {
        assert(be_bytes(be_value(bytes), 0) =~= bytes);
    }
}

/// At a fixed width, the smaller number has the lexicographically smaller bytes.
pub proof fn lemma_be_bytes_order(m: nat, n: nat, width: nat)
    requires
        m < n < pow256(width),
    ensures
        lex_before(be_bytes(m, width), be_bytes(n, width)),
    decreases width,
{
    let a = be_bytes(m, width);
    let b = be_bytes(n, width);
    lemma_be_bytes_len(m, width);
    lemma_be_bytes_len(n, width);
    if width > 0 {
        let w = (width - 1) as nat;
        let c = be_bytes(m / 256, w);
        let d = be_bytes(n / 256, w);
        lemma_be_bytes_len(m / 256, w);
        lemma_be_bytes_len(n / 256, w);
        assert(a.take(w as int) =~= c);
        assert(b.take(w as int) =~= d);
        if m / 256 < n / 256 {
            lemma_be_bytes_order(m / 256, n / 256, w);
            let i = choose|i: int|
                0 <= i < c.len() && i < d.len() && c.take(i) == d.take(i) && #[trigger] c[i] < d[i];
            assert(a.take(i) =~= c.take(i));
            assert(b.take(i) =~= d.take(i));
            assert(a[i] < b[i]);
        } else {
            assert(m / 256 == n / 256);
            assert(a[w as int] < b[w as int]);
        }
    }
}

/// Leading zeros do not change the number.
pub proof fn lemma_be_value_leading_zero(bytes: Seq<u8>)
    requires
        bytes.len() > 0,
        bytes[0] == 0,
    ensures
        be_value(bytes) == be_value(bytes.drop_first()),
    decreases bytes.len(),
{
    let rest = bytes.drop_first();
    if rest.len() > 0 {
        lemma_be_value_leading_zero(bytes.drop_last());
        assert(bytes.drop_last().drop_first() =~= rest.drop_last());
    } else {
        assert(be_value(bytes.drop_last()) == 0);
    }
}

/// The shortest bytes of a number spell it, start with no zero and fit the number's width.
pub proof fn lemma_be_minimal(n: nat, width: nat)
    requires
        n < pow256(width),
    ensures
        be_value(be_minimal(n)) == n,
        be_minimal(n).len() <= width,
        n > 0 ==> be_minimal(n).len() > 0 && be_minimal(n)[0] != 0,
    decreases n,
{
    if n > 0 {
        if width == 0 {
            assert(pow256(0) == 1);
        }
        lemma_be_minimal(n / 256, (width - 1) as nat);
        assert(be_minimal(n).drop_last() =~= be_minimal(n / 256));
    }
}

/// A byte string is a number in base 256: nothing spells zero, and one byte more
/// behind it multiplies it by 256 and adds to it.
pub proof fn law_bytes_are_positional(bytes: Seq<u8>, b: u8)
    ensures
        be_value(seq![]) == 0,
        be_value(bytes.push(b)) == 256 * be_value(bytes) + b,
{
    assert(bytes.push(b).drop_last() =~= bytes);
}

/// `pow256` is the power of 256.
pub proof fn law_pow256(width: nat)
    ensures
        pow256(width) == vstd::arithmetic::power::pow(256, width),
    decreases width,
{
    reveal(vstd::arithmetic::power::pow);
    if width > 0 {
        law_pow256((width - 1) as nat);
    }
}

/// A number written in enough bytes takes exactly that many and spells the number.
pub proof fn law_be_bytes_spell_the_number(n: nat, width: nat)
    requires
        n < vstd::arithmetic::power::pow(256, width),
    ensures
        be_bytes(n, width).len() == width,
        be_value(be_bytes(n, width)) == n,
{
    law_pow256(width);
    lemma_be_bytes_len(n, width);
    lemma_be_value_of_be_bytes(n, width);
}

/// Byte strings are ordered by their first difference, and a string comes before
/// whatever goes on behind it.
pub proof fn law_first_difference_decides(
    common: Seq<u8>,
    x: u8,
    y: u8,
    s: Seq<u8>,
    t: Seq<u8>,
)
    requires
        x < y,
    ensures
        lex_before(common + seq![x] + s, common + seq![y] + t),
        !lex_before(common + seq![y] + t, common + seq![x] + s),
        lex_before(common, common + seq![x] + s),
        !lex_before(common + seq![x] + s, common),
        !lex_before(common, common),
{
    let a = common + seq![x] + s;
    let b = common + seq![y] + t;
    let n = common.len() as int;
    assert(a.take(n) =~= common);
    assert(b.take(n) =~= common);
    assert(a[n] == x && b[n] == y);
    assert(a.take(n) == b.take(n) && a[n] < b[n]);
    if lex_before(b, a) {
        if exists|i: int|
            0 <= i < b.len() && i < a.len() && b.take(i) == a.take(i) && #[trigger] b[i] < a[i] {
            let i = choose|i: int|
                0 <= i < b.len() && i < a.len() && b.take(i) == a.take(i) && #[trigger] b[i] < a[i];
            if i < n {
                assert(a[i] == common[i] && b[i] == common[i]);
            } else if i > n {
                assert(a.take(i)[n] == x && b.take(i)[n] == y);
            }
        } else {
            assert(a.take(b.len() as int)[n] == x);
        }
    }
    if lex_before(a, common) {
        let i = choose|i: int|
            0 <= i < a.len() && i < common.len() && a.take(i) == common.take(i) && #[trigger] a[i]
                < common[i];
        assert(a[i] == common[i]);
    }
}

} // verus!
