//! Fixed-width unsigned integers as byte sequences, in both byte orders.

use vstd::prelude::*;

verus! {

/// 256 to the power `width`: the number of values that `width` bytes can hold.
pub open spec fn byte_span(width: nat) -> nat
    decreases width,
{
    if width == 0 {
        1
    } else {
        256 * byte_span((width - 1) as nat)
    }
}

/// The low `width` bytes of `n`, least significant byte first.
pub open spec fn le_bytes(n: nat, width: nat) -> Seq<u8>
    decreases width,
{
    if width == 0 {
        Seq::<u8>::empty()
    } else {
        seq![(n % 256) as u8] + le_bytes(n / 256, (width - 1) as nat)
    }
}

/// The number that `bytes` stands for, least significant byte first.
pub open spec fn le_value(bytes: Seq<u8>) -> nat
    decreases bytes.len(),
{
    if bytes.len() == 0 {
        0
    } else {
        bytes[0] as nat + 256 * le_value(bytes.drop_first())
    }
}

/// The low `width` bytes of `n`, most significant byte first.
pub open spec fn be_bytes(n: nat, width: nat) -> Seq<u8>
    decreases width,
{
    if width == 0 {
        Seq::<u8>::empty()
    } else {
        be_bytes(n / 256, (width - 1) as nat).push((n % 256) as u8)
    }
}

/// The number that `bytes` stands for, most significant byte first.
pub open spec fn be_value(bytes: Seq<u8>) -> nat
    decreases bytes.len(),
{
    if bytes.len() == 0 {
        0
    } else {
        256 * be_value(bytes.drop_last()) + bytes.last() as nat
    }
}

pub proof fn lemma_byte_span_values()
    ensures
        byte_span(4) == 0x1_0000_0000,
        byte_span(8) == 0x1_0000_0000_0000_0000,
{
    reveal_with_fuel(byte_span, 9);
}

/// `le_bytes` has the width it was asked for, and reading the bytes back gives
/// the number, if the number fits.
pub proof fn lemma_le_roundtrip(n: nat, width: nat)
    ensures
        le_bytes(n, width).len() == width,
        n < byte_span(width) ==> le_value(le_bytes(n, width)) == n,
    decreases width,
{
    if width > 0 {
        let rest = le_bytes(n / 256, (width - 1) as nat);
        lemma_le_roundtrip(n / 256, (width - 1) as nat);
        assert(le_bytes(n, width).drop_first() =~= rest);
        assert(byte_span(width) == 256 * byte_span((width - 1) as nat));
    }
}

/// Writing out the number that some bytes stand for gives the bytes again.
pub proof fn lemma_le_value_bytes(bytes: Seq<u8>)
    ensures
        le_value(bytes) < byte_span(bytes.len()),
        le_bytes(le_value(bytes), bytes.len()) == bytes,
    decreases bytes.len(),
{
    if bytes.len() > 0 {
        lemma_le_value_bytes(bytes.drop_first());
        let v = le_value(bytes);
        assert(v % 256 == bytes[0] as nat);
        assert(v / 256 == le_value(bytes.drop_first()));
        assert(le_bytes(v, bytes.len()) =~= bytes);
    }
}

/// `be_bytes` has the width it was asked for, and reading the bytes back gives
/// the number, if the number fits.
pub proof fn lemma_be_roundtrip(n: nat, width: nat)
    ensures
        be_bytes(n, width).len() == width,
        n < byte_span(width) ==> be_value(be_bytes(n, width)) == n,
    decreases width,
{
    if width > 0 {
        let rest = be_bytes(n / 256, (width - 1) as nat);
        lemma_be_roundtrip(n / 256, (width - 1) as nat);
        assert(be_bytes(n, width).drop_last() =~= rest);
        assert(byte_span(width) == 256 * byte_span((width - 1) as nat));
    }
}

/// Writing out the number that some bytes stand for gives the bytes again.
pub proof fn lemma_be_value_bytes(bytes: Seq<u8>)
    ensures
        be_value(bytes) < byte_span(bytes.len()),
        be_bytes(be_value(bytes), bytes.len()) == bytes,
    decreases bytes.len(),
{
    if bytes.len() > 0 {
        lemma_be_value_bytes(bytes.drop_last());
        let v = be_value(bytes);
        assert(v % 256 == bytes.last() as nat);
        assert(v / 256 == be_value(bytes.drop_last()));
        assert(be_bytes(v, bytes.len()) =~= bytes);
    }
}

/// Appends the four little-endian bytes of `n` to `out`.
pub fn push_u32_le(out: &mut Vec<u8>, n: u32)
    ensures
        final(out)@ == old(out)@ + le_bytes(n as nat, 4),
{
    let mut rest: u32 = n;
    let mut left: u32 = 4;
    let ghost start = out@;
    proof {
        assert(start + le_bytes(n as nat, 4) =~= out@ + le_bytes(rest as nat, left as nat));
    }
    while left > 0
        invariant
            left <= 4,
            start + le_bytes(n as nat, 4) == out@ + le_bytes(rest as nat, left as nat),
        decreases left,
    {
        let byte: u8 = (rest % 256) as u8;
        let ghost before = out@;
        out.push(byte);
        proof {
            assert(out@ + le_bytes((rest / 256) as nat, (left - 1) as nat) =~= before
                + le_bytes(rest as nat, left as nat));
        }
        rest = rest / 256;
        left = left - 1;
    }
    proof {
        assert(out@ + le_bytes(rest as nat, 0) =~= out@);
    }
}

/// Reads four bytes as a little-endian number.
pub fn u32_from_le(bytes: &[u8]) -> (n: u32)
    requires
        bytes@.len() == 4,
    ensures
        n as nat == le_value(bytes@),
{
    proof {
        reveal_with_fuel(le_value, 5);
        let s = bytes@;
        assert(s.drop_first()[0] == s[1]);
        assert(s.drop_first().drop_first()[0] == s[2]);
        assert(s.drop_first().drop_first().drop_first()[0] == s[3]);
        assert(s.drop_first().drop_first().drop_first().drop_first().len() == 0);
    }
    bytes[0] as u32 + 256 * (bytes[1] as u32) + 65536 * (bytes[2] as u32) + 16777216 * (
    bytes[3] as u32)
}

/// Appends the eight big-endian bytes of `n` to `out`.
pub fn push_u64_be(out: &mut Vec<u8>, n: u64)
    ensures
        final(out)@ == old(out)@ + be_bytes(n as nat, 8),
{
    proof {
        reveal_with_fuel(be_bytes, 9);
        lemma_be_roundtrip(n as nat, 8);
    }
    let ghost start = out@;
    let b7: u64 = n / 256;
    let b6: u64 = b7 / 256;
    let b5: u64 = b6 / 256;
    let b4: u64 = b5 / 256;
    let b3: u64 = b4 / 256;
    let b2: u64 = b3 / 256;
    let b1: u64 = b2 / 256;
    out.push((b1 % 256) as u8);
    out.push((b2 % 256) as u8);
    out.push((b3 % 256) as u8);
    out.push((b4 % 256) as u8);
    out.push((b5 % 256) as u8);
    out.push((b6 % 256) as u8);
    out.push((b7 % 256) as u8);
    out.push((n % 256) as u8);
    proof {
        assert(out@ =~= start + be_bytes(n as nat, 8));
    }
}

/// Reads the eight bytes of `bytes` from `at` on as a big-endian number.
pub fn u64_from_be(bytes: &[u8], at: usize) -> (n: u64)
    requires
        at + 8 <= bytes@.len(),
    ensures
        n as nat == be_value(bytes@.subrange(at as int, at + 8)),
{
    let ghost window = bytes@.subrange(at as int, at + 8);
    let len: usize = bytes.len();
    let mut n: u64 = 0;
    let mut i: usize = 0;
    proof {
        lemma_byte_span_values();
    }
    while i < 8
        invariant
            i <= 8,
            at + 8 <= len,
            len == bytes@.len(),
            window == bytes@.subrange(at as int, at + 8),
            n as nat == be_value(window.subrange(0, i as int)),
            n as nat * byte_span((8 - i) as nat) < byte_span(8),
            byte_span(8) == 0x1_0000_0000_0000_0000,
        decreases 8 - i,
    {
        let ghost part = window.subrange(0, i + 1);
        proof {
            assert(part.drop_last() =~= window.subrange(0, i as int));
            lemma_be_value_bytes(part);
            lemma_span_split((i + 1) as nat, (8 - i - 1) as nat);
            lemma_span_positive((8 - i - 1) as nat);
            let v = be_value(part);
            let a = byte_span((i + 1) as nat);
            let b = byte_span((8 - i - 1) as nat);
            assert(v * b < a * b) by (nonlinear_arith)
                requires
                    v < a,
                    b > 0,
            ;
            assert(v <= v * b) by (nonlinear_arith)
                requires
                    b > 0,
            ;
        }
        n = n * 256 + bytes[at + i] as u64;
        i = i + 1;
    }
    proof {
        assert(window.subrange(0, 8) =~= window);
    }
    n
}

proof fn lemma_span_positive(width: nat)
    ensures
        byte_span(width) > 0,
    decreases width,
{
    if width > 0 {
        lemma_span_positive((width - 1) as nat);
    }
}

proof fn lemma_span_split(a: nat, b: nat)
    ensures
        byte_span(a) * byte_span(b) == byte_span(a + b),
    decreases a,
{
    if a > 0 {
        lemma_span_split((a - 1) as nat, b);
        let x = byte_span((a - 1) as nat);
        let y = byte_span(b);
        assert((256 * x) * y == 256 * (x * y)) by (nonlinear_arith);
        assert((a - 1) as nat + b == (a + b - 1) as nat);
    } else {
        assert(1 * byte_span(b) == byte_span(b));
    }
}

/// The byte with the number `i` of a number is what the number holds of the power
/// of 256 with that exponent: it stands at `i` from the start where the least
/// significant byte comes first, and at `i` from the end where it comes last.
pub proof fn law_bytes_are_in_order(n: nat, width: nat, i: nat)
    requires
        i < width,
    ensures
        le_bytes(n, width).len() == width,
        be_bytes(n, width).len() == width,
        le_bytes(n, width)[i as int] == (n / byte_span(i)) % 256,
        be_bytes(n, width)[width - 1 - i] == (n / byte_span(i)) % 256,
    decreases width,
{
    lemma_le_roundtrip(n, width);
    lemma_be_roundtrip(n, width);
    lemma_span_positive(i);
    if i > 0 {
        let less = (i - 1) as nat;
        lemma_span_positive(less);
        law_bytes_are_in_order(n / 256, (width - 1) as nat, less);
        vstd::arithmetic::div_mod::lemma_div_denominator(n as int, 256, byte_span(less) as int);
        lemma_le_roundtrip(n / 256, (width - 1) as nat);
        lemma_be_roundtrip(n / 256, (width - 1) as nat);
        assert(le_bytes(n, width)[i as int] == le_bytes(n / 256, (width - 1) as nat)[i - 1]);
        assert(be_bytes(n, width)[width - 1 - i] == be_bytes(n / 256, (width - 1) as nat)[width - 1
            - i]);
    } else {
        assert(byte_span(0) == 1);
        lemma_be_roundtrip(n / 256, (width - 1) as nat);
        assert(n / byte_span(0) == n);
    }
}

/// The span of a width is the power of 256 with that exponent.
pub proof fn law_span_grows_by_one_byte(width: nat)
    ensures
        byte_span(0) == 1,
        byte_span(width + 1) == 256 * byte_span(width),
{
}

} // verus!
