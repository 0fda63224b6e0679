//! Big-endian numbers and length-prefixed vectors, the two shapes that every
//! binary format of this crate is made of.

use vstd::prelude::*;

verus! {

/// The number whose big-endian bytes are `s`.
pub open spec fn big_endian(s: Seq<u8>) -> nat
    decreases s.len(),
{
    if s.len() == 0 {
        0
    } else {
        256 * big_endian(s.drop_last()) + s.last() as nat
    }
}

/// The last `width` bytes of `n` in big-endian order.
pub open spec fn be_bytes(n: nat, width: nat) -> Seq<u8>
    decreases width,
{
    if width == 0 {
        Seq::empty()
    } else {
        be_bytes(n / 256, (width - 1) as nat).push((n % 256) as u8)
    }
}

/// How many numbers fit in `width` bytes.
pub open spec fn capacity(width: nat) -> nat
    decreases width,
{
    if width == 0 {
        1
    } else {
        256 * capacity((width - 1) as nat)
    }
}

/// `s` behind its length, written in `width` bytes.
pub open spec fn vector(s: Seq<u8>, width: nat) -> Seq<u8> {
    be_bytes(s.len(), width) + s
}

/// The vector at the front of `s` whose length stands in `width` bytes before
/// it, and what follows it; `None` where `s` ends too early.
pub open spec fn prefixed(s: Seq<u8>, width: int) -> Option<(Seq<u8>, Seq<u8>)> {
    if s.len() < width {
        None
    } else {
        let n = big_endian(s.take(width));
        if s.len() < width + n {
            None
        } else {
            Some((s.subrange(width, width + n as int), s.skip(width + n as int)))
        }
    }
}

pub proof fn lemma_be_bytes_len(n: nat, width: nat)
    ensures
        be_bytes(n, width).len() == width,
    decreases width,
{
    if width > 0 {
        lemma_be_bytes_len(n / 256, (width - 1) as nat);
    }
}

/// A number that fits in `width` bytes is read back from them.
pub proof fn lemma_be_round_trip(n: nat, width: nat)
    requires
        n < capacity(width),
    ensures
        be_bytes(n, width).len() == width,
        big_endian(be_bytes(n, width)) == n,
    decreases width,
{
    lemma_be_bytes_len(n, width);
    if width > 0 {
        let w = (width - 1) as nat;
        assert(n / 256 < capacity(w));
        lemma_be_round_trip(n / 256, w);
        assert(be_bytes(n, width).drop_last() == be_bytes(n / 256, w));
    }
}

/// Bytes are given back by the number that they stand for.
pub proof fn lemma_big_endian_round_trip(s: Seq<u8>)
    ensures
        be_bytes(big_endian(s), s.len()) == s,
        big_endian(s) < capacity(s.len()),
    decreases s.len(),
{
    if s.len() > 0 {
        lemma_big_endian_round_trip(s.drop_last());
        let n = big_endian(s);
        assert(n / 256 == big_endian(s.drop_last()));
        assert(n % 256 == s.last());
        assert(be_bytes(n, s.len()) == s.drop_last().push(s.last()));
        assert(s.drop_last().push(s.last()) == s);
    } else {
        assert(be_bytes(0, 0) == s);
    }
}

/// The numbers that one, two and three bytes stand for.
pub proof fn lemma_big_endian_short(s: Seq<u8>)
    ensures
        s.len() == 1 ==> big_endian(s) == s[0],
        s.len() == 2 ==> big_endian(s) == 256 * s[0] + s[1],
        s.len() == 3 ==> big_endian(s) == 65536 * s[0] + 256 * s[1] + s[2],
{
    reveal_with_fuel(big_endian, 4);
}

/// The bytes of a sixteen-bit number.
pub proof fn lemma_be_bytes_two(n: nat)
    requires
        n <= 0xffff,
    ensures
        be_bytes(n, 2) == seq![(n / 256) as u8, (n % 256) as u8],
{
    reveal_with_fuel(be_bytes, 3);
    assert(n / 256 / 256 == 0);
    assert(be_bytes(n, 2) =~= seq![(n / 256) as u8, (n % 256) as u8]);
}

/// The sizes of the length fields that are in use.
pub proof fn lemma_capacity()
    ensures
        capacity(1) == 0x100,
        capacity(2) == 0x1_0000,
        capacity(3) == 0x100_0000,
{
    reveal_with_fuel(capacity, 4);
}

/// A vector is read back from its encoding, and so is what follows it.
pub proof fn lemma_vector_round_trip(s: Seq<u8>, width: nat, rest: Seq<u8>)
    requires
        s.len() < capacity(width),
    ensures
        prefixed(vector(s, width) + rest, width as int) == Some((s, rest)),
        vector(s, width).len() == width + s.len(),
{
    lemma_be_round_trip(s.len(), width);
    let whole = vector(s, width) + rest;
    assert(whole.take(width as int) == be_bytes(s.len(), width));
    assert(whole.subrange(width as int, (width + s.len()) as int) == s);
    assert(whole.skip((width + s.len()) as int) == rest);
}

/// More bytes at the end change nothing of a vector that is there already.
pub proof fn lemma_prefixed_extend(s: Seq<u8>, width: int, more: Seq<u8>)
    requires
        0 <= width,
        prefixed(s, width) is Some,
    ensures
        prefixed(s, width) matches Some((v, rest)) && prefixed(s + more, width) == Some(
            (v, rest + more),
        ),
{
    let n = big_endian(s.take(width)) as int;
    assert((s + more).take(width) == s.take(width));
    assert((s + more).subrange(width, width + n) == s.subrange(width, width + n));
    assert((s + more).skip(width + n) == s.skip(width + n) + more);
}

/// Appends a sixteen-bit number in big-endian order.
pub fn put_u16(out: &mut Vec<u8>, n: u16)
    ensures
        final(out)@ == old(out)@ + be_bytes(n as nat, 2),
{
    proof {
        lemma_be_bytes_two(n as nat);
    }
    out.push((n / 256) as u8);
    out.push((n % 256) as u8);
    assert(out@ == old(out)@ + be_bytes(n as nat, 2));
}

/// The big-endian number in two bytes.
pub fn u16_from(hi: u8, lo: u8) -> (n: u16)
    ensures
        n == big_endian(seq![hi, lo]),
{
    proof {
        lemma_big_endian_short(seq![hi, lo]);
    }
    (hi as u16) * 256 + (lo as u16)
}

/// A list holds what its first entry is, and what the others hold.
pub proof fn lemma_contains_first(first: Seq<u8>, others: Seq<Seq<u8>>, x: Seq<u8>)
    ensures
        (seq![first] + others).contains(x) == (first == x || others.contains(x)),
{
    let all = seq![first] + others;
    assert(all[0] == first);
    if all.contains(x) && first != x {
        let i = choose|i: int| 0 <= i < all.len() && all[i] == x;
        assert(others[i - 1] == x);
    }
    if others.contains(x) {
        let i = choose|i: int| 0 <= i < others.len() && others[i] == x;
        assert(all[i + 1] == x);
    }
}

/// The number in one, two or three bytes, and the bytes of a number below 65536.
pub proof fn law_numbers_are_big_endian(a: u8, b: u8, c: u8, n: nat)
    ensures
        big_endian(seq![a]) == a,
        big_endian(seq![a, b]) == 256 * a + b,
        big_endian(seq![a, b, c]) == 65536 * a + 256 * b + c,
        n < 65536 ==> be_bytes(n, 2).len() == 2 && 256 * be_bytes(n, 2)[0] + be_bytes(n, 2)[1] == n,
{
    lemma_big_endian_short(seq![a]);
    lemma_big_endian_short(seq![a, b]);
    lemma_big_endian_short(seq![a, b, c]);
    if n < 65536 {
        lemma_be_bytes_two(n);
    }
}

/// A vector behind a length of one or two bytes is read if and only if all of it
/// is there, and what follows it is left over.
pub proof fn law_vectors_are_read_whole(a: u8, b: u8, tail: Seq<u8>, v: Seq<u8>, rest: Seq<u8>)
    ensures
        prefixed(seq![a] + tail, 1) == Some((v, rest)) <==> tail == v + rest && v.len() == a,
        prefixed(seq![a] + tail, 1) is None <==> tail.len() < a,
        prefixed(seq![a, b] + tail, 2) == Some((v, rest)) <==> tail == v + rest && v.len() == 256
            * a + b,
        prefixed(seq![a, b] + tail, 2) is None <==> tail.len() < 256 * a + b,
{
    law_numbers_are_big_endian(a, b, 0, 0);
    let s = seq![a] + tail;
    assert(s.take(1) == seq![a]);
    assert(s.skip(1) == tail);
    if tail.len() >= a {
        assert(s.subrange(1, 1 + a as int) == tail.take(a as int));
        assert(s.skip(1 + a as int) == tail.skip(a as int));
        assert(tail.take(a as int) + tail.skip(a as int) == tail);
    }
    if tail == v + rest && v.len() == a {
        assert(tail.take(a as int) == v);
        assert(tail.skip(a as int) == rest);
    }
    let n = 256 * a + b;
    let t = seq![a, b] + tail;
    assert(t.take(2) == seq![a, b]);
    if tail.len() >= n {
        assert(t.subrange(2, 2 + n) == tail.take(n));
        assert(t.skip(2 + n) == tail.skip(n));
        assert(tail.take(n) + tail.skip(n) == tail);
    }
    if tail == v + rest && v.len() == n {
        assert(tail.take(n) == v);
        assert(tail.skip(n) == rest);
    }
}

} // verus!
