//! Big-endian integers and byte copies, the building blocks of the wire
//! format.
use vstd::prelude::*;

verus! {

/// The byte at index `i` of `b`, or zero past its end. Frames are read
/// into zero-filled buffers, so a byte that never arrived reads as zero.
pub open spec fn byte_at(b: Seq<u8>, i: int) -> u8 {
    if 0 <= i < b.len() {
        b[i]
    } else {
        0
    }
}

/// The four bytes of `x`, most significant first.
pub open spec fn be_u32(x: u32) -> Seq<u8> {
    seq![(x >> 24u32) as u8, (x >> 16u32) as u8, (x >> 8u32) as u8, x as u8]
}

/// The eight bytes of `x`, most significant first.
pub open spec fn be_u64(x: u64) -> Seq<u8> {
    seq![
        (x >> 56u64) as u8,
        (x >> 48u64) as u8,
        (x >> 40u64) as u8,
        (x >> 32u64) as u8,
        (x >> 24u64) as u8,
        (x >> 16u64) as u8,
        (x >> 8u64) as u8,
        x as u8,
    ]
}

/// The number whose big-endian bytes are `b0 b1 b2 b3`.
pub open spec fn join_u32(b0: u8, b1: u8, b2: u8, b3: u8) -> u32 {
    ((b0 as u32) << 24u32) | ((b1 as u32) << 16u32) | ((b2 as u32) << 8u32) | (b3 as u32)
}

/// The number whose big-endian bytes are `b0 .. b7`.
pub open spec fn join_u64(b0: u8, b1: u8, b2: u8, b3: u8, b4: u8, b5: u8, b6: u8, b7: u8) -> u64 {
    ((b0 as u64) << 56u64) | ((b1 as u64) << 48u64) | ((b2 as u64) << 40u64) | ((b3 as u64)
        << 32u64) | ((b4 as u64) << 24u64) | ((b5 as u64) << 16u64) | ((b6 as u64) << 8u64) | (
    b7 as u64)
}

/// The big-endian `u32` that starts at `off` in `b` (zero-filled past the end).
pub open spec fn read_u32(b: Seq<u8>, off: int) -> u32 {
    join_u32(byte_at(b, off), byte_at(b, off + 1), byte_at(b, off + 2), byte_at(b, off + 3))
}

/// The big-endian `u64` that starts at `off` in `b` (zero-filled past the end).
pub open spec fn read_u64(b: Seq<u8>, off: int) -> u64 {
    join_u64(
        byte_at(b, off),
        byte_at(b, off + 1),
        byte_at(b, off + 2),
        byte_at(b, off + 3),
        byte_at(b, off + 4),
        byte_at(b, off + 5),
        byte_at(b, off + 6),
        byte_at(b, off + 7),
    )
}

/// Joining the bytes of a `u32` gives it back.
pub proof fn lemma_join_split_u32(x: u32)
    ensures
        join_u32((x >> 24u32) as u8, (x >> 16u32) as u8, (x >> 8u32) as u8, x as u8) == x,
{
    assert(((((x >> 24u32) as u8) as u32) << 24u32) | ((((x >> 16u32) as u8) as u32) << 16u32) | (
    (((x >> 8u32) as u8) as u32) << 8u32) | ((x as u8) as u32) == x) by (bit_vector);
}

/// Joining the bytes of a `u64` gives it back.
pub proof fn lemma_join_split_u64(x: u64)
    ensures
        join_u64(
            (x >> 56u64) as u8,
            (x >> 48u64) as u8,
            (x >> 40u64) as u8,
            (x >> 32u64) as u8,
            (x >> 24u64) as u8,
            (x >> 16u64) as u8,
            (x >> 8u64) as u8,
            x as u8,
        ) == x,
{
    assert(((((x >> 56u64) as u8) as u64) << 56u64) | ((((x >> 48u64) as u8) as u64) << 48u64) | (
    (((x >> 40u64) as u8) as u64) << 40u64) | ((((x >> 32u64) as u8) as u64) << 32u64) | ((((x
        >> 24u64) as u8) as u64) << 24u64) | ((((x >> 16u64) as u8) as u64) << 16u64) | ((((x
        >> 8u64) as u8) as u64) << 8u64) | ((x as u8) as u64) == x) by (bit_vector);
}

/// Reading a `u32` back at the place where its bytes were written gives it.
pub proof fn lemma_read_be_u32(pre: Seq<u8>, x: u32, post: Seq<u8>)
    ensures
        read_u32(pre + be_u32(x) + post, pre.len() as int) == x,
{
    let b = pre + be_u32(x) + post;
    let o = pre.len() as int;
    assert(byte_at(b, o) == (x >> 24u32) as u8);
    assert(byte_at(b, o + 1) == (x >> 16u32) as u8);
    assert(byte_at(b, o + 2) == (x >> 8u32) as u8);
    assert(byte_at(b, o + 3) == x as u8);
    lemma_join_split_u32(x);
}

/// Reading a `u64` back at the place where its bytes were written gives it.
pub proof fn lemma_read_be_u64(pre: Seq<u8>, x: u64, post: Seq<u8>)
    ensures
        read_u64(pre + be_u64(x) + post, pre.len() as int) == x,
{
    let b = pre + be_u64(x) + post;
    let o = pre.len() as int;
    assert(byte_at(b, o) == (x >> 56u64) as u8);
    assert(byte_at(b, o + 1) == (x >> 48u64) as u8);
    assert(byte_at(b, o + 2) == (x >> 40u64) as u8);
    assert(byte_at(b, o + 3) == (x >> 32u64) as u8);
    assert(byte_at(b, o + 4) == (x >> 24u64) as u8);
    assert(byte_at(b, o + 5) == (x >> 16u64) as u8);
    assert(byte_at(b, o + 6) == (x >> 8u64) as u8);
    assert(byte_at(b, o + 7) == x as u8);
    lemma_join_split_u64(x);
}

/// Appends the big-endian bytes of `x`.
pub fn push_u32(out: &mut Vec<u8>, x: u32)
    ensures
        final(out)@ == old(out)@ + be_u32(x),
{
    out.push((x >> 24u32) as u8);
    out.push((x >> 16u32) as u8);
    out.push((x >> 8u32) as u8);
    out.push(x as u8);
    assert(out@ =~= old(out)@ + be_u32(x));
}

/// Appends the big-endian bytes of `x`.
pub fn push_u64(out: &mut Vec<u8>, x: u64)
    ensures
        final(out)@ == old(out)@ + be_u64(x),
{
    out.push((x >> 56u64) as u8);
    out.push((x >> 48u64) as u8);
    out.push((x >> 40u64) as u8);
    out.push((x >> 32u64) as u8);
    out.push((x >> 24u64) as u8);
    out.push((x >> 16u64) as u8);
    out.push((x >> 8u64) as u8);
    out.push(x as u8);
    assert(out@ =~= old(out)@ + be_u64(x));
}

/// The byte at index `i`, or zero past the end.
pub fn get_byte(b: &[u8], i: usize) -> (r: u8)
    ensures
        r == byte_at(b@, i as int),
{
    if i < b.len() {
        b[i]
    } else {
        0
    }
}

/// The big-endian `u32` at `off`, zero-filled past the end.
pub fn get_u32(b: &[u8], off: usize) -> (r: u32)
    requires
        off + 4 <= usize::MAX,
    ensures
        r == read_u32(b@, off as int),
{
    let b0 = get_byte(b, off);
    let b1 = get_byte(b, off + 1);
    let b2 = get_byte(b, off + 2);
    let b3 = get_byte(b, off + 3);
    ((b0 as u32) << 24u32) | ((b1 as u32) << 16u32) | ((b2 as u32) << 8u32) | (b3 as u32)
}

/// The big-endian `u64` at `off`, zero-filled past the end.
pub fn get_u64(b: &[u8], off: usize) -> (r: u64)
    requires
        off + 8 <= usize::MAX,
    ensures
        r == read_u64(b@, off as int),
{
    let b0 = get_byte(b, off);
    let b1 = get_byte(b, off + 1);
    let b2 = get_byte(b, off + 2);
    let b3 = get_byte(b, off + 3);
    let b4 = get_byte(b, off + 4);
    let b5 = get_byte(b, off + 5);
    let b6 = get_byte(b, off + 6);
    let b7 = get_byte(b, off + 7);
    ((b0 as u64) << 56u64) | ((b1 as u64) << 48u64) | ((b2 as u64) << 40u64) | ((b3 as u64)
        << 32u64) | ((b4 as u64) << 24u64) | ((b5 as u64) << 16u64) | ((b6 as u64) << 8u64) | (
    b7 as u64)
}

/// Appends `src[from..to]`.
pub fn append_range(out: &mut Vec<u8>, src: &[u8], from: usize, to: usize)
    requires
        from <= to <= src@.len(),
    ensures
        final(out)@ == old(out)@ + src@.subrange(from as int, to as int),
{
    let mut i: usize = from;
    while i < to
        invariant
            from <= i <= to <= src@.len(),
            out@ == old(out)@ + src@.subrange(from as int, i as int),
        decreases to - i,
    {
        out.push(src[i]);
        i = i + 1;
        assert(out@ =~= old(out)@ + src@.subrange(from as int, i as int));
    }
}

} // verus!
