use vstd::prelude::*;

verus! {

/// The unsigned integer written by `s` in big-endian order.
pub open spec fn be_value(s: Seq<u8>) -> nat
    decreases s.len(),
{
    if s.len() == 0 {
        0
    } else {
        be_value(s.drop_last()) * 256 + s.last() as nat
    }
}

/// `10` to the power `n`.
pub open spec fn pow10(n: nat) -> nat
    decreases n,
{
    if n == 0 {
        1
    } else {
        10 * pow10((n - 1) as nat)
    }
}

/// `2^256`, the first value that a 256-bit unsigned integer cannot hold.
pub open spec fn u256_limit() -> nat {
    (u128::MAX as nat + 1) * (u128::MAX as nat + 1)
}

/// The `u64` written by the first eight bytes of `s`, least significant first.
pub open spec fn le_u64(s: Seq<u8>) -> u64 {
    (s[0] as u64) | ((s[1] as u64) << 8u64) | ((s[2] as u64) << 16u64) | ((s[3] as u64) << 24u64)
        | ((s[4] as u64) << 32u64) | ((s[5] as u64) << 40u64) | ((s[6] as u64) << 48u64) | ((
    s[7] as u64) << 56u64)
}

/// The eight bytes of `x`, least significant first.
pub open spec fn u64_le_bytes(x: u64) -> Seq<u8> {
    seq![
        x as u8,
        (x >> 8u64) as u8,
        (x >> 16u64) as u8,
        (x >> 24u64) as u8,
        (x >> 32u64) as u8,
        (x >> 40u64) as u8,
        (x >> 48u64) as u8,
        (x >> 56u64) as u8,
    ]
}

/// Writing a `u64` and reading it back gives the same value.
pub proof fn lemma_le_u64_round_trip(x: u64)
    ensures
        u64_le_bytes(x).len() == 8,
        le_u64(u64_le_bytes(x)) == x,
{
    let s = u64_le_bytes(x);
    assert(((x as u8) as u64) | ((((x >> 8u64) as u8) as u64) << 8u64) | ((((x >> 16u64) as u8)
        as u64) << 16u64) | ((((x >> 24u64) as u8) as u64) << 24u64) | ((((x >> 32u64) as u8)
        as u64) << 32u64) | ((((x >> 40u64) as u8) as u64) << 40u64) | ((((x >> 48u64) as u8)
        as u64) << 48u64) | ((((x >> 56u64) as u8) as u64) << 56u64) == x) by (bit_vector);
}

/// Reading eight bytes as a `u64` and writing it back gives the same bytes.
pub proof fn lemma_le_bytes_round_trip(s: Seq<u8>)
    requires
        s.len() == 8,
    ensures
        u64_le_bytes(le_u64(s)) == s,
{
    let (b0, b1, b2, b3, b4, b5, b6, b7) = (s[0], s[1], s[2], s[3], s[4], s[5], s[6], s[7]);
    let x = le_u64(s);
    assert(x == (b0 as u64) | ((b1 as u64) << 8u64) | ((b2 as u64) << 16u64) | ((b3 as u64)
        << 24u64) | ((b4 as u64) << 32u64) | ((b5 as u64) << 40u64) | ((b6 as u64) << 48u64) | ((
    b7 as u64) << 56u64));
    assert(x as u8 == b0 && (x >> 8u64) as u8 == b1 && (x >> 16u64) as u8 == b2 && (x >> 24u64)
        as u8 == b3 && (x >> 32u64) as u8 == b4 && (x >> 40u64) as u8 == b5 && (x >> 48u64) as u8
        == b6 && (x >> 56u64) as u8 == b7) by (bit_vector)
        requires
            x == (b0 as u64) | ((b1 as u64) << 8u64) | ((b2 as u64) << 16u64) | ((b3 as u64)
                << 24u64) | ((b4 as u64) << 32u64) | ((b5 as u64) << 40u64) | ((b6 as u64)
                << 48u64) | ((b7 as u64) << 56u64),
    ;
    assert(u64_le_bytes(x) =~= s);
}

/// Reads the `u64` stored little-endian at `src[off..off + 8]`.
pub fn read_u64_le(src: &[u8], off: usize) -> (r: u64)
    requires
        off + 8 <= src@.len(),
    ensures
        r == le_u64(src@.subrange(off as int, off + 8)),
{
    (src[off] as u64) | ((src[off + 1] as u64) << 8u64) | ((src[off + 2] as u64) << 16u64) | ((
    src[off + 3] as u64) << 24u64) | ((src[off + 4] as u64) << 32u64) | ((src[off + 5] as u64)
        << 40u64) | ((src[off + 6] as u64) << 48u64) | ((src[off + 7] as u64) << 56u64)
}

/// Writes `x` little-endian at `dst[off..off + 8]` and leaves every other byte.
pub fn write_u64_le(dst: &mut [u8], off: usize, x: u64)
    requires
        off + 8 <= old(dst)@.len(),
    ensures
        final(dst)@ == old(dst)@.subrange(0, off as int) + u64_le_bytes(x) + old(dst)@.subrange(
            off + 8,
            old(dst)@.len() as int,
        ),
{
    dst[off] = x as u8;
    dst[off + 1] = (x >> 8u64) as u8;
    dst[off + 2] = (x >> 16u64) as u8;
    dst[off + 3] = (x >> 24u64) as u8;
    dst[off + 4] = (x >> 32u64) as u8;
    dst[off + 5] = (x >> 40u64) as u8;
    dst[off + 6] = (x >> 48u64) as u8;
    dst[off + 7] = (x >> 56u64) as u8;
    assert(final(dst)@ =~= old(dst)@.subrange(0, off as int) + u64_le_bytes(x) + old(dst)@.subrange(
        off + 8,
        old(dst)@.len() as int,
    ));
}

/// Copies `src[off..off + 32]` into a new array.
pub fn read_array32(src: &[u8], off: usize) -> (r: [u8; 32])
    requires
        off + 32 <= src@.len(),
    ensures
        r@ == src@.subrange(off as int, off + 32),
{
    let mut r = [0u8; 32];
    let n: usize = src.len();
    let mut i: usize = 0;
    while i < 32
        invariant
            off + 32 <= src@.len(),
            n == src@.len(),
            i <= 32,
            r@.len() == 32,
            forall|j: int| 0 <= j < i ==> r@[j] == src@[off + j],
        decreases 32 - i,
    {
        r[i] = src[off + i];
        i = i + 1;
    }
    assert(r@ =~= src@.subrange(off as int, off + 32));
    r
}

/// Writes `a` at `dst[off..off + 32]` and leaves every other byte.
pub fn write_array32(dst: &mut [u8], off: usize, a: &[u8; 32])
    requires
        off + 32 <= old(dst)@.len(),
    ensures
        final(dst)@ == old(dst)@.subrange(0, off as int) + a@ + old(dst)@.subrange(
            off + 32,
            old(dst)@.len() as int,
        ),
{
    let n: usize = dst.len();
    let mut i: usize = 0;
    while i < 32
        invariant
            off + 32 <= dst@.len(),
            n == dst@.len(),
            dst@.len() == old(dst)@.len(),
            i <= 32,
            forall|j: int| 0 <= j < off ==> dst@[j] == old(dst)@[j],
            forall|j: int| off + 32 <= j < dst@.len() ==> dst@[j] == old(dst)@[j],
            forall|j: int| 0 <= j < i ==> dst@[off + j] == a@[j],
            forall|j: int| off + i <= j < off + 32 ==> dst@[j] == old(dst)@[j],
        decreases 32 - i,
    {
        dst[off + i] = a[i];
        i = i + 1;
    }
    assert(dst@ =~= old(dst)@.subrange(0, off as int) + a@ + old(dst)@.subrange(
        off + 32,
        old(dst)@.len() as int,
    ));
}

} // verus!
