//! Fixed-width big-endian numbers and the byte order of keys.
//!
//! A table orders its keys byte by byte. A number written in big-endian
//! digits of a fixed width sorts, in that order, as the number itself does;
//! the lemmas here say so, and say how the order of a concatenation follows
//! from the order of its parts.

use vstd::prelude::*;

verus! {

/// `256` to the power `n`: how many values `n` bytes can spell.
pub open spec fn radix_pow(n: nat) -> nat
    decreases n,
{
    if n == 0 {
        1
    } else {
        256 * radix_pow((n - 1) as nat)
    }
}

/// The lowest `width` base-256 digits of `value`, most significant first.
pub open spec fn be_bytes(value: nat, width: nat) -> Seq<u8>
    decreases width,
{
    if width == 0 {
        Seq::empty()
    } else {
        be_bytes(value / 256, (width - 1) as nat).push((value % 256) as u8)
    }
}

/// The number that `bytes` spell, most significant digit first.
pub open spec fn be_value(bytes: Seq<u8>) -> nat
    decreases bytes.len(),
{
    if bytes.len() == 0 {
        0
    } else {
        be_value(bytes.drop_last()) * 256 + bytes.last() as nat
    }
}

/// Byte-wise lexicographic order, strict: the first differing byte
/// decides, and a proper prefix comes first.
pub open spec fn lex_lt(a: Seq<u8>, b: Seq<u8>) -> bool
    decreases a.len(),
{
    if b.len() == 0 {
        false
    } else if a.len() == 0 {
        true
    } else if a[0] != b[0] {
        a[0] < b[0]
    } else {
        lex_lt(a.drop_first(), b.drop_first())
    }
}

/// Byte-wise lexicographic order, inclusive.
pub open spec fn lex_le(a: Seq<u8>, b: Seq<u8>) -> bool {
    a == b || lex_lt(a, b)
}

/// One byte spells 256 values, eight bytes what a `u64` holds and sixteen
/// what a `u128` holds.
pub proof fn lemma_radix_pow_values()
    ensures
        radix_pow(1) == 256,
        radix_pow(8) == 0x1_0000_0000_0000_0000,
        radix_pow(16) == 0x1_0000_0000_0000_0000_0000_0000_0000_0000,
{
    reveal_with_fuel(radix_pow, 17);
}

/// More bytes spell at least as many values, and never fewer than one.
pub proof fn lemma_radix_pow_monotonic(m: nat, n: nat)
    requires
        m <= n,
    ensures
        radix_pow(m) <= radix_pow(n),
        radix_pow(m) >= 1,
    decreases n,
{
    if m < n {
        lemma_radix_pow_monotonic(m, (n - 1) as nat);
    } else if n > 0 {
        lemma_radix_pow_monotonic((m - 1) as nat, (n - 1) as nat);
    }
}

/// An encoding has exactly the width asked for.
pub proof fn lemma_be_bytes_len(value: nat, width: nat)
    ensures
        be_bytes(value, width).len() == width,
    decreases width,
{
    if width > 0 {
        lemma_be_bytes_len(value / 256, (width - 1) as nat);
    }
}

/// `n` bytes spell a number below `256^n`.
pub proof fn lemma_be_value_bound(bytes: Seq<u8>)
    ensures
        be_value(bytes) < radix_pow(bytes.len()),
    decreases bytes.len(),
{
    if bytes.len() > 0 {
        lemma_be_value_bound(bytes.drop_last());
    }
}

/// Decoding the encoding of a number that fits gives the number back.
pub proof fn lemma_be_value_of_bytes(value: nat, width: nat)
    requires
        value < radix_pow(width),
    ensures
        be_value(be_bytes(value, width)) == value,
    decreases width,
{
    if width > 0 {
        let init = be_bytes(value / 256, (width - 1) as nat);
        lemma_be_value_of_bytes(value / 256, (width - 1) as nat);
        assert(init.push((value % 256) as u8).drop_last() =~= init);
    }
}

/// Encoding what bytes spell, at their own width, gives the bytes back.
pub proof fn lemma_be_bytes_of_value(bytes: Seq<u8>)
    ensures
        be_bytes(be_value(bytes), bytes.len()) == bytes,
    decreases bytes.len(),
{
    if bytes.len() > 0 {
        lemma_be_bytes_of_value(bytes.drop_last());
        let v = be_value(bytes);
        assert(v / 256 == be_value(bytes.drop_last()));
        assert(v % 256 == bytes.last() as nat);
        assert(bytes.drop_last().push(bytes.last()) =~= bytes);
    }
}

/// Nothing sorts before itself.
pub proof fn lemma_lex_lt_irreflexive(a: Seq<u8>)
    ensures
        !lex_lt(a, a),
    decreases a.len(),
{
    if a.len() > 0 {
        lemma_lex_lt_irreflexive(a.drop_first());
    }
}

/// Of two different byte strings exactly one sorts before the other.
pub proof fn lemma_lex_lt_total(a: Seq<u8>, b: Seq<u8>)
    ensures
        a == b || lex_lt(a, b) || lex_lt(b, a),
        !(lex_lt(a, b) && lex_lt(b, a)),
    decreases a.len(),
{
    if a.len() == 0 || b.len() == 0 {
        if a.len() == 0 && b.len() == 0 {
            assert(a =~= b);
        }
    } else if a[0] == b[0] {
        lemma_lex_lt_total(a.drop_first(), b.drop_first());
        if a.drop_first() == b.drop_first() {
            assert(a =~= seq![a[0]] + a.drop_first());
            assert(b =~= seq![b[0]] + b.drop_first());
        }
    }
}

/// The order is transitive.
pub proof fn lemma_lex_lt_transitive(a: Seq<u8>, b: Seq<u8>, c: Seq<u8>)
    requires
        lex_lt(a, b),
        lex_lt(b, c),
    ensures
        lex_lt(a, c),
    decreases a.len(),
{
    if a.len() > 0 && a[0] == b[0] && b[0] == c[0] {
        lemma_lex_lt_transitive(a.drop_first(), b.drop_first(), c.drop_first());
    }
}

/// Of two strings of one length, each with one more byte at the end, the
/// strings decide, and the last bytes only where the strings are equal.
pub proof fn lemma_lex_lt_push(a: Seq<u8>, p: u8, b: Seq<u8>, q: u8)
    requires
        a.len() == b.len(),
    ensures
        lex_lt(a.push(p), b.push(q)) <==> lex_lt(a, b) || (a == b && p < q),
    decreases a.len(),
{
    reveal_with_fuel(lex_lt, 2);
    if a.len() == 0 {
        assert(a =~= b);
        assert(a.push(p).drop_first() =~= Seq::<u8>::empty());
        assert(b.push(q).drop_first() =~= Seq::<u8>::empty());
    } else {
        assert(a.push(p).drop_first() =~= a.drop_first().push(p));
        assert(b.push(q).drop_first() =~= b.drop_first().push(q));
        lemma_lex_lt_push(a.drop_first(), p, b.drop_first(), q);
        if a[0] == b[0] {
            if a.drop_first() == b.drop_first() {
                assert(a =~= seq![a[0]] + a.drop_first());
                assert(b =~= seq![b[0]] + b.drop_first());
            }
        }
    }
}

/// Of two concatenations whose first parts have one length, the first
/// parts decide, and the second parts only where the first are equal.
pub proof fn lemma_lex_lt_concat(a1: Seq<u8>, a2: Seq<u8>, b1: Seq<u8>, b2: Seq<u8>)
    requires
        a1.len() == b1.len(),
    ensures
        lex_lt(a1 + a2, b1 + b2) <==> lex_lt(a1, b1) || (a1 == b1 && lex_lt(a2, b2)),
    decreases a1.len(),
{
    if a1.len() == 0 {
        assert(a1 =~= b1);
        assert(a1 + a2 =~= a2);
        assert(b1 + b2 =~= b2);
    } else {
        assert((a1 + a2).drop_first() =~= a1.drop_first() + a2);
        assert((b1 + b2).drop_first() =~= b1.drop_first() + b2);
        lemma_lex_lt_concat(a1.drop_first(), a2, b1.drop_first(), b2);
        if a1[0] == b1[0] {
            if a1.drop_first() == b1.drop_first() {
                assert(a1 =~= seq![a1[0]] + a1.drop_first());
                assert(b1 =~= seq![b1[0]] + b1.drop_first());
            }
        }
    }
}

/// Byte strings of one length sort as the numbers that they spell.
pub proof fn lemma_lex_lt_is_numeric(a: Seq<u8>, b: Seq<u8>)
    requires
        a.len() == b.len(),
    ensures
        lex_lt(a, b) <==> be_value(a) < be_value(b),
        a == b <==> be_value(a) == be_value(b),
    decreases a.len(),
{
    if a.len() == 0 {
        assert(a =~= b);
    } else {
        lemma_lex_lt_is_numeric(a.drop_last(), b.drop_last());
        lemma_lex_lt_push(a.drop_last(), a.last(), b.drop_last(), b.last());
        assert(a.drop_last().push(a.last()) =~= a);
        assert(b.drop_last().push(b.last()) =~= b);
    }
}

/// Numbers that fit in `width` bytes sort as their encodings do, and
/// different numbers have different encodings.
pub proof fn lemma_be_bytes_order(x: nat, y: nat, width: nat)
    requires
        x < radix_pow(width),
        y < radix_pow(width),
    ensures
        lex_lt(be_bytes(x, width), be_bytes(y, width)) <==> x < y,
        be_bytes(x, width) == be_bytes(y, width) <==> x == y,
{
    lemma_be_bytes_len(x, width);
    lemma_be_bytes_len(y, width);
    lemma_be_value_of_bytes(x, width);
    lemma_be_value_of_bytes(y, width);
    lemma_lex_lt_is_numeric(be_bytes(x, width), be_bytes(y, width));
}

/// Appends the `width` lowest base-256 digits of `value` to `out`, most
/// significant first.
pub fn push_be(out: &mut Vec<u8>, value: u128, width: usize)
    ensures
        final(out)@ == old(out)@ + be_bytes(value as nat, width as nat),
    decreases width,
{
    if width > 0 {
        push_be(out, value / 256, (width - 1) as usize);
        out.push((value % 256) as u8);
        assert(final(out)@ =~= old(out)@ + be_bytes(value as nat, width as nat));
    } else {
        assert(out@ =~= old(out)@ + be_bytes(value as nat, 0));
    }
}

/// The number that the `width` bytes of `bytes` from `start` on spell.
pub fn read_be(bytes: &[u8], start: usize, width: usize) -> (value: u128)
    requires
        width <= 16,
        start + width <= bytes@.len(),
    ensures
        value == be_value(bytes@.subrange(start as int, start + width)),
{
    let ghost digits = bytes@.subrange(start as int, start + width);
    let len: usize = bytes.len();
    let mut value: u128 = 0;
    let mut i: usize = 0;
    while i < width
        invariant
            i <= width <= 16,
            start + width <= len == bytes@.len(),
            digits == bytes@.subrange(start as int, start + width),
            value == be_value(digits.take(i as int)),
        decreases width - i,
    {
        proof {
            lemma_be_value_bound(digits.take(i as int));
            lemma_radix_pow_monotonic(i as nat, 15);
            lemma_radix_pow_values();
            reveal_with_fuel(radix_pow, 17);
            assert(digits.take(i as int + 1).drop_last() =~= digits.take(i as int));
        }
        value = value * 256 + bytes[start + i] as u128;
        i += 1;
    }
    assert(digits.take(width as int) =~= digits);
    value
}

} // verus!
