use vstd::prelude::*;
use vstd::utf8::{encode_utf8, encode_utf8_decode_utf8};

verus! {

/// The UTF-8 bytes of a text.
pub open spec fn text_bytes(text: Seq<char>) -> Seq<u8> {
    encode_utf8(text)
}

/// Strict lexicographic order of byte strings, as `str` and `[u8]` order them.
pub open spec fn lex_less(a: Seq<u8>, b: Seq<u8>) -> bool
    decreases a.len(),
{
    if a.len() == 0 {
        b.len() > 0
    } else if b.len() == 0 {
        false
    } else if a[0] != b[0] {
        a[0] < b[0]
    } else {
        lex_less(a.drop_first(), b.drop_first())
    }
}

/// Whether `a` orders strictly before `b`.
pub fn bytes_less(a: &[u8], b: &[u8]) -> (less: bool)
    ensures
        less == lex_less(a@, b@),
{
    let mut i: usize = 0;
    assert(a@.skip(0) == a@);
    assert(b@.skip(0) == b@);
    while i < a.len() && i < b.len()
        invariant
            i <= a@.len(),
            i <= b@.len(),
            lex_less(a@, b@) == lex_less(a@.skip(i as int), b@.skip(i as int)),
        decreases a.len() - i,
    {
        if a[i] != b[i] {
            return a[i] < b[i];
        }
        proof {
            assert(a@.skip(i as int).drop_first() == a@.skip(i + 1));
            assert(b@.skip(i as int).drop_first() == b@.skip(i + 1));
        }
        i = i + 1;
    }
    i < b.len()
}

/// Whether both byte strings are equal.
pub fn bytes_equal(a: &[u8], b: &[u8]) -> (equal: bool)
    ensures
        equal == (a@ == b@),
{
    if a.len() != b.len() {
        return false;
    }
    let mut i: usize = 0;
    while i < a.len()
        invariant
            i <= a@.len(),
            a@.len() == b@.len(),
            a@.subrange(0, i as int) == b@.subrange(0, i as int),
        decreases a.len() - i,
    {
        if a[i] != b[i] {
            assert(a@[i as int] != b@[i as int]);
            return false;
        }
        assert(a@.subrange(0, i + 1) == a@.subrange(0, i as int).push(a@[i as int]));
        assert(b@.subrange(0, i + 1) == b@.subrange(0, i as int).push(b@[i as int]));
        i = i + 1;
    }
    assert(a@.subrange(0, a@.len() as int) == a@);
    assert(b@.subrange(0, b@.len() as int) == b@);
    true
}

/// The eight big-endian bytes of a `u64`.
pub open spec fn be_u64(value: u64) -> Seq<u8> {
    seq![
        (value >> 56u64) as u8,
        (value >> 48u64) as u8,
        (value >> 40u64) as u8,
        (value >> 32u64) as u8,
        (value >> 24u64) as u8,
        (value >> 16u64) as u8,
        (value >> 8u64) as u8,
        value as u8,
    ]
}

/// The `u64` denoted by eight big-endian bytes.
pub open spec fn u64_of_be(bytes: Seq<u8>) -> u64 {
    ((bytes[0] as u64) << 56u64) | ((bytes[1] as u64) << 48u64) | ((bytes[2] as u64) << 40u64) | (
    (bytes[3] as u64) << 32u64) | ((bytes[4] as u64) << 24u64) | ((bytes[5] as u64) << 16u64) | ((
    bytes[6] as u64) << 8u64) | (bytes[7] as u64)
}

/// Reading back the big-endian bytes of a `u64` gives the same `u64`.
pub proof fn law_be_u64_round_trip(value: u64)
    ensures
        be_u64(value).len() == 8,
        u64_of_be(be_u64(value)) == value,
{
    let b = be_u64(value);
    assert(b[0] == (value >> 56u64) as u8);
    assert(b[7] == value as u8);
    let b0 = (value >> 56u64) as u8;
    let b1 = (value >> 48u64) as u8;
    let b2 = (value >> 40u64) as u8;
    let b3 = (value >> 32u64) as u8;
    let b4 = (value >> 24u64) as u8;
    let b5 = (value >> 16u64) as u8;
    let b6 = (value >> 8u64) as u8;
    let b7 = value as u8;
    assert(((b0 as u64) << 56u64) | ((b1 as u64) << 48u64) | ((b2 as u64) << 40u64) | ((b3 as u64)
        << 32u64) | ((b4 as u64) << 24u64) | ((b5 as u64) << 16u64) | ((b6 as u64) << 8u64) | (
    b7 as u64) == value) by (bit_vector)
        requires
            b0 == (value >> 56u64) as u8,
            b1 == (value >> 48u64) as u8,
            b2 == (value >> 40u64) as u8,
            b3 == (value >> 32u64) as u8,
            b4 == (value >> 24u64) as u8,
            b5 == (value >> 16u64) as u8,
            b6 == (value >> 8u64) as u8,
            b7 == value as u8,
    ;
}

/// Writing back the `u64` read from eight bytes gives the same bytes.
pub proof fn law_u64_of_be_round_trip(bytes: Seq<u8>)
    requires
        bytes.len() == 8,
    ensures
        be_u64(u64_of_be(bytes)) == bytes,
{
    let v = u64_of_be(bytes);
    let b0 = bytes[0];
    let b1 = bytes[1];
    let b2 = bytes[2];
    let b3 = bytes[3];
    let b4 = bytes[4];
    let b5 = bytes[5];
    let b6 = bytes[6];
    let b7 = bytes[7];
    assert(v == ((b0 as u64) << 56u64) | ((b1 as u64) << 48u64) | ((b2 as u64) << 40u64) | ((
    b3 as u64) << 32u64) | ((b4 as u64) << 24u64) | ((b5 as u64) << 16u64) | ((b6 as u64) << 8u64)
        | (b7 as u64));
    assert((v >> 56u64) as u8 == b0 && (v >> 48u64) as u8 == b1 && (v >> 40u64) as u8 == b2 && (v
        >> 32u64) as u8 == b3 && (v >> 24u64) as u8 == b4 && (v >> 16u64) as u8 == b5 && (v
        >> 8u64) as u8 == b6 && v as u8 == b7) by (bit_vector)
        requires
            v == ((b0 as u64) << 56u64) | ((b1 as u64) << 48u64) | ((b2 as u64) << 40u64) | ((
            b3 as u64) << 32u64) | ((b4 as u64) << 24u64) | ((b5 as u64) << 16u64) | ((b6 as u64)
                << 8u64) | (b7 as u64),
    ;
    assert(be_u64(v) =~= bytes);
}

/// The `u64` denoted by the eight big-endian bytes at `start`.
pub fn read_be_u64(bytes: &[u8], start: usize) -> (value: u64)
    requires
        start + 8 <= bytes@.len(),
    ensures
        value == u64_of_be(bytes@.subrange(start as int, start + 8)),
{
    let ghost b = bytes@.subrange(start as int, start + 8);
    assert(b[0] == bytes@[start as int]);
    assert(b[7] == bytes@[start + 7]);
    ((bytes[start] as u64) << 56u64) | ((bytes[start + 1] as u64) << 48u64) | ((bytes[start
        + 2] as u64) << 40u64) | ((bytes[start + 3] as u64) << 32u64) | ((bytes[start + 4] as u64)
        << 24u64) | ((bytes[start + 5] as u64) << 16u64) | ((bytes[start + 6] as u64) << 8u64) | (
    bytes[start + 7] as u64)
}

/// Appends the big-endian bytes of `value`.
pub fn push_be_u64(bytes: &mut Vec<u8>, value: u64)
    ensures
        final(bytes)@ == old(bytes)@ + be_u64(value),
{
    bytes.push((value >> 56u64) as u8);
    bytes.push((value >> 48u64) as u8);
    bytes.push((value >> 40u64) as u8);
    bytes.push((value >> 32u64) as u8);
    bytes.push((value >> 24u64) as u8);
    bytes.push((value >> 16u64) as u8);
    bytes.push((value >> 8u64) as u8);
    bytes.push(value as u8);
    assert(bytes@ == old(bytes)@ + be_u64(value));
}

/// The four big-endian bytes of a `u32`.
pub open spec fn be_u32(value: u32) -> Seq<u8> {
    seq![(value >> 24u32) as u8, (value >> 16u32) as u8, (value >> 8u32) as u8, value as u8]
}

/// Appends the big-endian bytes of `value`.
pub fn push_be_u32(bytes: &mut Vec<u8>, value: u32)
    ensures
        final(bytes)@ == old(bytes)@ + be_u32(value),
{
    bytes.push((value >> 24u32) as u8);
    bytes.push((value >> 16u32) as u8);
    bytes.push((value >> 8u32) as u8);
    bytes.push(value as u8);
    assert(bytes@ == old(bytes)@ + be_u32(value));
}

/// Appends every byte of `value`.
pub fn push_all(bytes: &mut Vec<u8>, value: &[u8])
    ensures
        final(bytes)@ == old(bytes)@ + value@,
{
    let mut i: usize = 0;
    while i < value.len()
        invariant
            i <= value@.len(),
            bytes@ == old(bytes)@ + value@.subrange(0, i as int),
        decreases value.len() - i,
    {
        bytes.push(value[i]);
        assert(value@.subrange(0, i + 1) == value@.subrange(0, i as int).push(value@[i as int]));
        i = i + 1;
    }
    assert(value@.subrange(0, value@.len() as int) == value@);
}

/// One length-prefixed field: the big-endian `u64` length, then the bytes.
pub open spec fn token(value: Seq<u8>) -> Seq<u8> {
    be_u64(value.len() as u64) + value
}

/// Appends one length-prefixed field.
pub fn append_token(bytes: &mut Vec<u8>, value: &[u8])
    ensures
        final(bytes)@ == old(bytes)@ + token(value@),
{
    push_be_u64(bytes, value.len() as u64);
    push_all(bytes, value);
    assert(bytes@ == old(bytes)@ + token(value@));
}


/// `prefix` is an initial part of `bytes`.
pub open spec fn starts_with(bytes: Seq<u8>, prefix: Seq<u8>) -> bool {
    prefix.len() <= bytes.len() && bytes.subrange(0, prefix.len() as int) == prefix
}


/// When `bytes` starts with `consumed + next`, the part after `consumed` starts with `next`.
pub proof fn lemma_next_part(bytes: Seq<u8>, consumed: Seq<u8>, next: Seq<u8>)
    requires
        starts_with(bytes, consumed + next),
    ensures
        starts_with(bytes, consumed),
        starts_with(bytes.subrange(consumed.len() as int, bytes.len() as int), next),
{
    let whole = consumed + next;
    let c = consumed.len() as int;
    assert forall|i: int| 0 <= i < whole.len() implies bytes[i] == whole[i] by {
        assert(bytes.subrange(0, whole.len() as int)[i] == bytes[i]);
    }
    assert(bytes.subrange(0, c) =~= consumed);
    let rest = bytes.subrange(c, bytes.len() as int);
    assert forall|i: int| 0 <= i < next.len() implies rest[i] == next[i] by {
        assert(rest[i] == bytes[c + i]);
        assert(whole[c + i] == next[i]);
    }
    assert(rest.subrange(0, next.len() as int) =~= next);
}

/// Consuming `next` right after `consumed` extends the consumed prefix.
pub proof fn lemma_consume_part(bytes: Seq<u8>, consumed: Seq<u8>, next: Seq<u8>)
    requires
        consumed.len() <= bytes.len(),
        bytes.subrange(0, consumed.len() as int) == consumed,
        starts_with(bytes.subrange(consumed.len() as int, bytes.len() as int), next),
    ensures
        consumed.len() + next.len() <= bytes.len(),
        bytes.subrange(0, (consumed.len() + next.len()) as int) == consumed + next,
{
    assert(bytes.subrange(0, (consumed.len() + next.len()) as int) =~= consumed + next);
}


/// A prefix of a prefix is a prefix.
pub proof fn lemma_starts_with_trans(bytes: Seq<u8>, whole: Seq<u8>, part: Seq<u8>)
    requires
        starts_with(bytes, whole),
        starts_with(whole, part),
    ensures
        starts_with(bytes, part),
{
    assert forall|i: int| 0 <= i < part.len() implies bytes[i] == part[i] by {
        assert(bytes.subrange(0, whole.len() as int)[i] == bytes[i]);
        assert(whole.subrange(0, part.len() as int)[i] == whole[i]);
    }
    assert(bytes.subrange(0, part.len() as int) =~= part);
}

/// The front of a concatenation is a prefix of it.
pub proof fn lemma_starts_with_front(front: Seq<u8>, back: Seq<u8>)
    ensures
        starts_with(front + back, front),
{
    assert((front + back).subrange(0, front.len() as int) =~= front);
}


/// Lexicographic order is irreflexive.
pub proof fn lemma_lex_irreflexive(a: Seq<u8>)
    ensures
        !lex_less(a, a),
    decreases a.len(),
{
    if a.len() > 0 {
        lemma_lex_irreflexive(a.drop_first());
    }
}

/// Lexicographic order is transitive.
pub proof fn lemma_lex_transitive(a: Seq<u8>, b: Seq<u8>, c: Seq<u8>)
    requires
        lex_less(a, b),
        lex_less(b, c),
    ensures
        lex_less(a, c),
    decreases a.len(),
{
    if a.len() > 0 && b.len() > 0 && c.len() > 0 {
        if a[0] == b[0] && b[0] == c[0] {
            lemma_lex_transitive(a.drop_first(), b.drop_first(), c.drop_first());
        }
    }
}

/// Lexicographic order is total on distinct byte strings.
pub proof fn lemma_lex_total(a: Seq<u8>, b: Seq<u8>)
    requires
        a != b,
    ensures
        lex_less(a, b) || lex_less(b, a),
    decreases a.len(),
{
    if a.len() > 0 && b.len() > 0 && a[0] == b[0] {
        if a.drop_first() == b.drop_first() {
            assert(a =~= seq![a[0]] + a.drop_first());
            assert(b =~= seq![b[0]] + b.drop_first());
        } else {
            lemma_lex_total(a.drop_first(), b.drop_first());
        }
    } else if a.len() == 0 && b.len() == 0 {
        assert(a =~= b);
    }
}

/// Distinct texts have distinct UTF-8 bytes.
pub proof fn lemma_text_bytes_injective(a: Seq<char>, b: Seq<char>)
    requires
        text_bytes(a) == text_bytes(b),
    ensures
        a == b,
{
    encode_utf8_decode_utf8(a);
    encode_utf8_decode_utf8(b);
}

} // verus!
