use vstd::prelude::*;
use vstd::utf8::{decode_utf8, encode_scalar, encode_utf8, valid_utf8};
use crate::error::ProgramError;

verus! {

/// Width of the discriminator that opens every record and event.
pub const DISCRIMINATOR_SIZE: usize = 8;

/// The eight little-endian bytes of `v`.
pub open spec fn le64(v: u64) -> Seq<u8> {
    seq![
        v as u8,
        (v >> 8u64) as u8,
        (v >> 16u64) as u8,
        (v >> 24u64) as u8,
        (v >> 32u64) as u8,
        (v >> 40u64) as u8,
        (v >> 48u64) as u8,
        (v >> 56u64) as u8,
    ]
}

/// The four little-endian bytes of `v`.
pub open spec fn le32(v: u32) -> Seq<u8> {
    seq![v as u8, (v >> 8u32) as u8, (v >> 16u32) as u8, (v >> 24u32) as u8]
}

/// The `u64` stored little-endian in `b[at..at + 8]`.
pub open spec fn read_le64(b: Seq<u8>, at: int) -> u64 {
    (b[at] as u64) | ((b[at + 1] as u64) << 8u64) | ((b[at + 2] as u64) << 16u64) | ((b[at
        + 3] as u64) << 24u64) | ((b[at + 4] as u64) << 32u64) | ((b[at + 5] as u64) << 40u64)
        | ((b[at + 6] as u64) << 48u64) | ((b[at + 7] as u64) << 56u64)
}

/// The `u32` stored little-endian in `b[at..at + 4]`.
pub open spec fn read_le32(b: Seq<u8>, at: int) -> u32 {
    (b[at] as u32) | ((b[at + 1] as u32) << 8u32) | ((b[at + 2] as u32) << 16u32) | ((b[at
        + 3] as u32) << 24u32)
}

/// `b` opens with the discriminator `tag`.
pub open spec fn has_discriminator(b: Seq<u8>, tag: u64) -> bool {
    b.len() >= 8 && b.subrange(0, 8) == le64(tag)
}

/// `b` with its first `prefix.len()` bytes replaced by `prefix`.
pub open spec fn overwrite_prefix(b: Seq<u8>, prefix: Seq<u8>) -> Seq<u8> {
    prefix + b.subrange(prefix.len() as int, b.len() as int)
}

/// Reading back the eight bytes written for `v` gives `v`.
pub proof fn lemma_le64_round_trip(v: u64, rest: Seq<u8>, front: Seq<u8>)
    ensures
        read_le64(front + le64(v) + rest, front.len() as int) == v,
{
    let b = front + le64(v) + rest;
    let k = front.len() as int;
    assert(b[k] == v as u8);
    assert(b[k + 1] == (v >> 8u64) as u8);
    assert(b[k + 2] == (v >> 16u64) as u8);
    assert(b[k + 3] == (v >> 24u64) as u8);
    assert(b[k + 4] == (v >> 32u64) as u8);
    assert(b[k + 5] == (v >> 40u64) as u8);
    assert(b[k + 6] == (v >> 48u64) as u8);
    assert(b[k + 7] == (v >> 56u64) as u8);
    assert(((v as u8) as u64) | (((v >> 8u64) as u8 as u64) << 8u64) | (((v >> 16u64) as u8
        as u64) << 16u64) | (((v >> 24u64) as u8 as u64) << 24u64) | (((v >> 32u64) as u8
        as u64) << 32u64) | (((v >> 40u64) as u8 as u64) << 40u64) | (((v >> 48u64) as u8
        as u64) << 48u64) | (((v >> 56u64) as u8 as u64) << 56u64) == v) by (bit_vector);
}

/// Reading back the four bytes written for `v` gives `v`.
pub proof fn lemma_le32_round_trip(v: u32, rest: Seq<u8>, front: Seq<u8>)
    ensures
        read_le32(front + le32(v) + rest, front.len() as int) == v,
{
    let b = front + le32(v) + rest;
    let k = front.len() as int;
    assert(b[k] == v as u8);
    assert(b[k + 1] == (v >> 8u32) as u8);
    assert(b[k + 2] == (v >> 16u32) as u8);
    assert(b[k + 3] == (v >> 24u32) as u8);
    assert(((v as u8) as u32) | (((v >> 8u32) as u8 as u32) << 8u32) | (((v >> 16u32) as u8
        as u32) << 16u32) | (((v >> 24u32) as u8 as u32) << 24u32) == v) by (bit_vector);
}

/// A text of `n` characters takes at most `4 * n` bytes of UTF-8.
pub proof fn lemma_utf8_length_bound(chars: Seq<char>)
    ensures
        encode_utf8(chars).len() <= 4 * chars.len(),
    decreases chars.len(),
{
    if chars.len() > 0 {
        lemma_utf8_length_bound(chars.drop_first());
        assert(encode_scalar(chars[0] as u32).len() <= 4);
    }
}

/// The first eight bytes of `b` are the encoding of the `u64` they store.
pub proof fn lemma_le64_of_read(b: Seq<u8>)
    requires
        b.len() >= 8,
    ensures
        b.subrange(0, 8) == le64(read_le64(b, 0)),
{
    let v = read_le64(b, 0);
    let (b0, b1, b2, b3, b4, b5, b6, b7) = (b[0], b[1], b[2], b[3], b[4], b[5], b[6], b[7]);
    assert(v == (b0 as u64) | ((b1 as u64) << 8u64) | ((b2 as u64) << 16u64) | ((b3 as u64)
        << 24u64) | ((b4 as u64) << 32u64) | ((b5 as u64) << 40u64) | ((b6 as u64) << 48u64) | ((
    b7 as u64) << 56u64));
    assert(v == (b0 as u64) | ((b1 as u64) << 8u64) | ((b2 as u64) << 16u64) | ((b3 as u64)
        << 24u64) | ((b4 as u64) << 32u64) | ((b5 as u64) << 40u64) | ((b6 as u64) << 48u64) | ((
    b7 as u64) << 56u64) ==> b0 == v as u8 && b1 == (v >> 8u64) as u8 && b2 == (v >> 16u64) as u8
        && b3 == (v >> 24u64) as u8 && b4 == (v >> 32u64) as u8 && b5 == (v >> 40u64) as u8 && b6
        == (v >> 48u64) as u8 && b7 == (v >> 56u64) as u8) by (bit_vector);
    assert(b.subrange(0, 8) =~= le64(v));
}

/// Two different discriminators never open the same buffer.
pub proof fn lemma_discriminators_exclusive(b: Seq<u8>, a: u64, c: u64)
    requires
        has_discriminator(b, a),
        a != c,
    ensures
        !has_discriminator(b, c),
{
    if has_discriminator(b, c) {
        lemma_le64_round_trip(a, Seq::empty(), Seq::empty());
        lemma_le64_round_trip(c, Seq::empty(), Seq::empty());
        assert(Seq::empty() + le64(a) + Seq::<u8>::empty() =~= le64(a));
        assert(Seq::empty() + le64(c) + Seq::<u8>::empty() =~= le64(c));
    }
}

/// Appends the little-endian bytes of `v`.
pub fn push_u64(out: &mut Vec<u8>, v: u64)
    ensures
        final(out)@ == old(out)@ + le64(v),
{
    out.push(v as u8);
    out.push((v >> 8u64) as u8);
    out.push((v >> 16u64) as u8);
    out.push((v >> 24u64) as u8);
    out.push((v >> 32u64) as u8);
    out.push((v >> 40u64) as u8);
    out.push((v >> 48u64) as u8);
    out.push((v >> 56u64) as u8);
    assert(final(out)@ =~= old(out)@ + le64(v));
}

/// Appends the little-endian bytes of `v`.
pub fn push_u32(out: &mut Vec<u8>, v: u32)
    ensures
        final(out)@ == old(out)@ + le32(v),
{
    out.push(v as u8);
    out.push((v >> 8u32) as u8);
    out.push((v >> 16u32) as u8);
    out.push((v >> 24u32) as u8);
    assert(final(out)@ =~= old(out)@ + le32(v));
}

/// Appends every byte of `bytes`.
pub fn push_bytes(out: &mut Vec<u8>, bytes: &[u8])
    ensures
        final(out)@ == old(out)@ + bytes@,
{
    let mut i: usize = 0;
    while i < bytes.len()
        invariant
            0 <= i <= bytes@.len(),
            out@ == old(out)@ + bytes@.subrange(0, i as int),
        decreases bytes@.len() - i,
    {
        out.push(bytes[i]);
        i = i + 1;
        assert(out@ =~= old(out)@ + bytes@.subrange(0, i as int));
    }
    assert(bytes@.subrange(0, i as int) =~= bytes@);
}

/// Reads the `u64` stored little-endian at `at`.
pub fn read_u64(b: &[u8], at: usize) -> (r: u64)
    requires
        at + 8 <= b@.len(),
    ensures
        r == read_le64(b@, at as int),
{
    (b[at] as u64) | ((b[at + 1] as u64) << 8u64) | ((b[at + 2] as u64) << 16u64) | ((b[at
        + 3] as u64) << 24u64) | ((b[at + 4] as u64) << 32u64) | ((b[at + 5] as u64) << 40u64)
        | ((b[at + 6] as u64) << 48u64) | ((b[at + 7] as u64) << 56u64)
}

/// Reads the `u32` stored little-endian at `at`.
pub fn read_u32(b: &[u8], at: usize) -> (r: u32)
    requires
        at + 4 <= b@.len(),
    ensures
        r == read_le32(b@, at as int),
{
    (b[at] as u32) | ((b[at + 1] as u32) << 8u32) | ((b[at + 2] as u32) << 16u32) | ((b[at
        + 3] as u32) << 24u32)
}

/// Checks that `b` opens with the discriminator `tag`.
pub fn check_discriminator(b: &[u8], tag: u64) -> (r: Result<(), ProgramError>)
    ensures
        r is Ok <==> has_discriminator(b@, tag),
        r is Err ==> r == Err::<(), ProgramError>(ProgramError::DiscriminatorMismatch),
{
    if b.len() < DISCRIMINATOR_SIZE {
        return Err(ProgramError::DiscriminatorMismatch);
    }
    let found = read_u64(b, 0);
    proof {
        let rest = b@.subrange(8, b@.len() as int);
        lemma_le64_of_read(b@);
        assert(b@ =~= le64(found) + rest);
        if has_discriminator(b@, tag) {
            lemma_le64_round_trip(tag, rest, Seq::empty());
            assert(Seq::empty() + le64(tag) + rest =~= b@);
        }
    }
    if found == tag {
        Ok(())
    } else {
        Err(ProgramError::DiscriminatorMismatch)
    }
}

/// A copy of `b[from..to]`.
pub fn copy_range(b: &[u8], from: usize, to: usize) -> (r: Vec<u8>)
    requires
        from <= to <= b@.len(),
    ensures
        r@ == b@.subrange(from as int, to as int),
{
    let mut r: Vec<u8> = Vec::new();
    let mut i: usize = from;
    while i < to
        invariant
            from <= i <= to <= b@.len(),
            r@ == b@.subrange(from as int, i as int),
        decreases to - i,
    {
        r.push(b[i]);
        i = i + 1;
        assert(r@ =~= b@.subrange(from as int, i as int));
    }
    r
}

/// Relies on `String::from_utf8`: it accepts exactly the well-formed UTF-8
/// byte strings, and yields the characters they encode.
#[verifier::external_body]
pub(crate) fn text_from_utf8(bytes: Vec<u8>) -> (r: Option<String>)
    ensures
        match r {
            Some(s) => valid_utf8(bytes@) && s@ == decode_utf8(bytes@),
            None => !valid_utf8(bytes@),
        },
{
    String::from_utf8(bytes).ok()
}

/// Writes `prefix` over the first bytes of `data`, keeping the rest.
pub fn write_prefix(data: &mut Vec<u8>, prefix: &[u8])
    requires
        prefix@.len() <= old(data)@.len(),
    ensures
        final(data)@ == overwrite_prefix(old(data)@, prefix@),
{
    let mut i: usize = 0;
    while i < prefix.len()
        invariant
            0 <= i <= prefix@.len(),
            prefix@.len() <= old(data)@.len(),
            data@.len() == old(data)@.len(),
            forall|j: int| 0 <= j < i ==> data@[j] == prefix@[j],
            forall|j: int| i <= j < data@.len() ==> data@[j] == old(data)@[j],
        decreases prefix@.len() - i,
    {
        data[i] = prefix[i];
        i = i + 1;
    }
    assert(data@ =~= overwrite_prefix(old(data)@, prefix@));
}

} // verus!
