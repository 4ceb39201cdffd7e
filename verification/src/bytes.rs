//! Fixed-width integers as byte strings, little-endian and big-endian.

use vstd::prelude::*;

verus! {

/// Byte `i` of `x`, counted from the least significant one.
pub open spec fn byte_of(x: u64, i: int) -> u8 {
    ((x >> ((8 * i) as u64)) & 0xff) as u8
}

/// The eight bytes of `x`, least significant first.
pub open spec fn u64_le_bytes(x: u64) -> Seq<u8> {
    Seq::new(8, |i: int| byte_of(x, i))
}

/// The eight bytes of `x`, most significant first.
pub open spec fn u64_be_bytes(x: u64) -> Seq<u8> {
    Seq::new(8, |i: int| byte_of(x, 7 - i))
}

/// The four bytes of `x`, most significant first.
pub open spec fn u32_be_bytes(x: u32) -> Seq<u8> {
    Seq::new(4, |i: int| byte_of(x as u64, 3 - i))
}

/// The number that eight bytes denote, most significant first.
pub open spec fn u64_from_be(b: Seq<u8>) -> u64 {
    (b[0] as u64) << 56 | (b[1] as u64) << 48 | (b[2] as u64) << 40 | (b[3] as u64) << 32 | (
    b[4] as u64) << 24 | (b[5] as u64) << 16 | (b[6] as u64) << 8 | (b[7] as u64)
}

/// The number that four bytes denote, most significant first.
pub open spec fn u32_from_be(b: Seq<u8>) -> u32 {
    (b[0] as u32) << 24 | (b[1] as u32) << 16 | (b[2] as u32) << 8 | (b[3] as u32)
}

/// Byte `i` of `x`, counted from the least significant one.
pub fn nth_byte(x: u64, i: usize) -> (b: u8)
    requires
        i < 8,
    ensures
        b == byte_of(x, i as int),
{
    let shift: u64 = 8 * (i as u64);
    let masked: u64 = (x >> shift) & 0xff;
    assert(masked <= 0xff) by (bit_vector)
        requires
            masked == (x >> shift) & 0xff,
    ;
    masked as u8
}

/// Copies the `N` bytes from `at` on into an array.
pub fn take_array<const N: usize>(data: &[u8], at: usize) -> (out: [u8; N])
    requires
        at + N <= data@.len(),
    ensures
        out@ == data@.subrange(at as int, at + N),
{
    let mut out = [0u8; N];
    let len = data.len();
    let mut i: usize = 0;
    while i < N
        invariant
            i <= N,
            len == data@.len(),
            at + N <= data@.len(),
            forall|k: int| 0 <= k < i ==> out@[k] == data@[at + k],
        decreases N - i,
    {
        out[i] = data[at + i];
        i += 1;
    }
    assert(out@ =~= data@.subrange(at as int, at + N));
    out
}

/// Appends a run of bytes.
pub fn append_bytes(out: &mut Vec<u8>, data: &[u8])
    ensures
        final(out)@ == old(out)@ + data@,
{
    let mut i: usize = 0;
    while i < data.len()
        invariant
            i <= data@.len(),
            out@ == old(out)@ + data@.subrange(0, i as int),
        decreases data@.len() - i,
    {
        out.push(data[i]);
        assert(out@ =~= old(out)@ + data@.subrange(0, i + 1));
        i += 1;
    }
    assert(data@.subrange(0, i as int) =~= data@);
}

/// Appends `x` in little-endian order.
pub fn push_u64_le(out: &mut Vec<u8>, x: u64)
    ensures
        final(out)@ == old(out)@ + u64_le_bytes(x),
{
    let mut i: usize = 0;
    while i < 8
        invariant
            i <= 8,
            out@.len() == old(out)@.len() + i,
            forall|k: int| 0 <= k < old(out)@.len() ==> out@[k] == old(out)@[k],
            forall|k: int|
                old(out)@.len() <= k < out@.len() ==> out@[k] == byte_of(x, k - old(out)@.len()),
        decreases 8 - i,
    {
        out.push(nth_byte(x, i));
        i += 1;
    }
    assert(out@ =~= old(out)@ + u64_le_bytes(x));
}

/// Appends `x` in big-endian order.
pub fn push_u64_be(out: &mut Vec<u8>, x: u64)
    ensures
        final(out)@ == old(out)@ + u64_be_bytes(x),
{
    let mut i: usize = 0;
    while i < 8
        invariant
            i <= 8,
            out@.len() == old(out)@.len() + i,
            forall|k: int| 0 <= k < old(out)@.len() ==> out@[k] == old(out)@[k],
            forall|k: int|
                old(out)@.len() <= k < out@.len() ==> out@[k] == byte_of(
                    x,
                    7 - (k - old(out)@.len()),
                ),
        decreases 8 - i,
    {
        out.push(nth_byte(x, 7 - i));
        i += 1;
    }
    assert(out@ =~= old(out)@ + u64_be_bytes(x));
}

/// Appends `x` in big-endian order.
pub fn push_u32_be(out: &mut Vec<u8>, x: u32)
    ensures
        final(out)@ == old(out)@ + u32_be_bytes(x),
{
    let mut i: usize = 0;
    while i < 4
        invariant
            i <= 4,
            out@.len() == old(out)@.len() + i,
            forall|k: int| 0 <= k < old(out)@.len() ==> out@[k] == old(out)@[k],
            forall|k: int|
                old(out)@.len() <= k < out@.len() ==> out@[k] == byte_of(
                    x as u64,
                    3 - (k - old(out)@.len()),
                ),
        decreases 4 - i,
    {
        out.push(nth_byte(x as u64, 3 - i));
        i += 1;
    }
    assert(out@ =~= old(out)@ + u32_be_bytes(x));
}

/// Reads the big-endian number in the eight bytes from `at` on.
pub fn read_u64_be(data: &[u8], at: usize) -> (x: u64)
    requires
        at + 8 <= data@.len(),
    ensures
        x == u64_from_be(data@.subrange(at as int, at + 8)),
{
    let b0 = data[at] as u64;
    let b1 = data[at + 1] as u64;
    let b2 = data[at + 2] as u64;
    let b3 = data[at + 3] as u64;
    let b4 = data[at + 4] as u64;
    let b5 = data[at + 5] as u64;
    let b6 = data[at + 6] as u64;
    let b7 = data[at + 7] as u64;
    b0 << 56 | b1 << 48 | b2 << 40 | b3 << 32 | b4 << 24 | b5 << 16 | b6 << 8 | b7
}

/// Reads the big-endian number in the four bytes from `at` on.
pub fn read_u32_be(data: &[u8], at: usize) -> (x: u32)
    requires
        at + 4 <= data@.len(),
    ensures
        x == u32_from_be(data@.subrange(at as int, at + 4)),
{
    let b0 = data[at] as u32;
    let b1 = data[at + 1] as u32;
    let b2 = data[at + 2] as u32;
    let b3 = data[at + 3] as u32;
    b0 << 24 | b1 << 16 | b2 << 8 | b3
}

/// Reading back the big-endian bytes of a number gives the number.
pub proof fn lemma_u64_be_round_trip(x: u64)
    ensures
        u64_from_be(u64_be_bytes(x)) == x,
{
    let b = u64_be_bytes(x);
    let b0 = b[0];
    let b1 = b[1];
    let b2 = b[2];
    let b3 = b[3];
    let b4 = b[4];
    let b5 = b[5];
    let b6 = b[6];
    let b7 = b[7];
    assert(x == (b0 as u64) << 56 | (b1 as u64) << 48 | (b2 as u64) << 40 | (b3 as u64) << 32 | (
    b4 as u64) << 24 | (b5 as u64) << 16 | (b6 as u64) << 8 | (b7 as u64)) by (bit_vector)
        requires
            b0 == ((x >> 56u64) & 0xff) as u8,
            b1 == ((x >> 48u64) & 0xff) as u8,
            b2 == ((x >> 40u64) & 0xff) as u8,
            b3 == ((x >> 32u64) & 0xff) as u8,
            b4 == ((x >> 24u64) & 0xff) as u8,
            b5 == ((x >> 16u64) & 0xff) as u8,
            b6 == ((x >> 8u64) & 0xff) as u8,
            b7 == ((x >> 0u64) & 0xff) as u8,
    ;
}

/// Writing out the number that eight bytes denote gives the bytes.
pub proof fn lemma_u64_be_bytes_of_value(b: Seq<u8>)
    requires
        b.len() == 8,
    ensures
        u64_be_bytes(u64_from_be(b)) == b,
{
    let b0 = b[0];
    let b1 = b[1];
    let b2 = b[2];
    let b3 = b[3];
    let b4 = b[4];
    let b5 = b[5];
    let b6 = b[6];
    let b7 = b[7];
    let x = u64_from_be(b);
    assert(b0 == ((x >> 56u64) & 0xff) as u8 && b1 == ((x >> 48u64) & 0xff) as u8 && b2 == ((x
        >> 40u64) & 0xff) as u8 && b3 == ((x >> 32u64) & 0xff) as u8 && b4 == ((x >> 24u64)
        & 0xff) as u8 && b5 == ((x >> 16u64) & 0xff) as u8 && b6 == ((x >> 8u64) & 0xff) as u8
        && b7 == ((x >> 0u64) & 0xff) as u8) by (bit_vector)
        requires
            x == (b0 as u64) << 56 | (b1 as u64) << 48 | (b2 as u64) << 40 | (b3 as u64) << 32 | (
            b4 as u64) << 24 | (b5 as u64) << 16 | (b6 as u64) << 8 | (b7 as u64),
    ;
    assert(u64_be_bytes(x) =~= b);
}

/// Reading back the big-endian bytes of a number gives the number.
pub proof fn lemma_u32_be_round_trip(x: u32)
    ensures
        u32_from_be(u32_be_bytes(x)) == x,
{
    let b = u32_be_bytes(x);
    let b0 = b[0];
    let b1 = b[1];
    let b2 = b[2];
    let b3 = b[3];
    let w = x as u64;
    assert(x == (b0 as u32) << 24 | (b1 as u32) << 16 | (b2 as u32) << 8 | (b3 as u32))
        by (bit_vector)
        requires
            w == x as u64,
            b0 == ((w >> 24u64) & 0xff) as u8,
            b1 == ((w >> 16u64) & 0xff) as u8,
            b2 == ((w >> 8u64) & 0xff) as u8,
            b3 == ((w >> 0u64) & 0xff) as u8,
    ;
}

/// Writing out the number that four bytes denote gives the bytes.
pub proof fn lemma_u32_be_bytes_of_value(b: Seq<u8>)
    requires
        b.len() == 4,
    ensures
        u32_be_bytes(u32_from_be(b)) == b,
{
    let b0 = b[0];
    let b1 = b[1];
    let b2 = b[2];
    let b3 = b[3];
    let x = u32_from_be(b);
    let w = x as u64;
    assert(b0 == ((w >> 24u64) & 0xff) as u8 && b1 == ((w >> 16u64) & 0xff) as u8 && b2 == ((w
        >> 8u64) & 0xff) as u8 && b3 == ((w >> 0u64) & 0xff) as u8) by (bit_vector)
        requires
            w == x as u64,
            x == (b0 as u32) << 24 | (b1 as u32) << 16 | (b2 as u32) << 8 | (b3 as u32),
    ;
    assert(u32_be_bytes(x) =~= b);
}

} // verus!
