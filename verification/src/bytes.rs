//! Numbers as bytes, in the byte orders of the wire (big-endian) and of Windows
//! bitmaps (little-endian).

use vstd::prelude::*;

verus! {

/// A 16-bit number, most significant byte first.
pub open spec fn u16_be(n: int) -> Seq<u8> {
    seq![(n / 256 % 256) as u8, (n % 256) as u8]
}

/// A 32-bit number, most significant byte first.
pub open spec fn u32_be(n: int) -> Seq<u8> {
    u16_be(n / 0x1_0000) + u16_be(n % 0x1_0000)
}

/// A 16-bit number, least significant byte first.
pub open spec fn u16_le(n: int) -> Seq<u8> {
    seq![(n % 256) as u8, (n / 256 % 256) as u8]
}

/// A 32-bit number, least significant byte first.
pub open spec fn u32_le(n: int) -> Seq<u8> {
    u16_le(n % 0x1_0000) + u16_le(n / 0x1_0000)
}

/// The number whose two bytes, most significant first, start at `i`.
pub open spec fn u16_at_be(s: Seq<u8>, i: int) -> int {
    s[i] * 256 + s[i + 1]
}

/// The number whose four bytes, most significant first, start at `i`.
pub open spec fn u32_at_be(s: Seq<u8>, i: int) -> int {
    u16_at_be(s, i) * 0x1_0000 + u16_at_be(s, i + 2)
}

/// The number whose two bytes, least significant first, start at `i`.
pub open spec fn u16_at_le(s: Seq<u8>, i: int) -> int {
    s[i] + s[i + 1] * 256
}

/// The number whose four bytes, least significant first, start at `i`.
pub open spec fn u32_at_le(s: Seq<u8>, i: int) -> int {
    u16_at_le(s, i) + u16_at_le(s, i + 2) * 0x1_0000
}

/// The signed number with the same 32 bits as `n`.
pub open spec fn as_signed(n: int) -> int {
    if n < 0x8000_0000 { n } else { n - 0x1_0000_0000 }
}

/// Appends `n`, most significant byte first.
pub fn push_u16_be(out: &mut Vec<u8>, n: u16)
    ensures
        final(out)@ == old(out)@ + u16_be(n as int),
{
    out.push((n / 256) as u8);
    out.push((n % 256) as u8);
    assert(out@ =~= old(out)@ + u16_be(n as int));
}

/// Appends `n`, most significant byte first.
pub fn push_u32_be(out: &mut Vec<u8>, n: u32)
    ensures
        final(out)@ == old(out)@ + u32_be(n as int),
{
    push_u16_be(out, (n / 0x1_0000) as u16);
    push_u16_be(out, (n % 0x1_0000) as u16);
    assert(out@ =~= old(out)@ + u32_be(n as int));
}

/// Appends `n`, least significant byte first.
pub fn push_u16_le(out: &mut Vec<u8>, n: u16)
    ensures
        final(out)@ == old(out)@ + u16_le(n as int),
{
    out.push((n % 256) as u8);
    out.push((n / 256) as u8);
    assert(out@ =~= old(out)@ + u16_le(n as int));
}

/// Appends `n`, least significant byte first.
pub fn push_u32_le(out: &mut Vec<u8>, n: u32)
    ensures
        final(out)@ == old(out)@ + u32_le(n as int),
{
    push_u16_le(out, (n % 0x1_0000) as u16);
    push_u16_le(out, (n / 0x1_0000) as u16);
    assert(out@ =~= old(out)@ + u32_le(n as int));
}

/// Reads two bytes, most significant first.
pub fn read_u16_be(s: &[u8], i: usize) -> (n: u16)
    requires
        i + 2 <= s.len(),
    ensures
        n as int == u16_at_be(s@, i as int),
{
    s[i] as u16 * 256 + s[i + 1] as u16
}

/// Reads four bytes, most significant first.
pub fn read_u32_be(s: &[u8], i: usize) -> (n: u32)
    requires
        i + 4 <= s.len(),
    ensures
        n as int == u32_at_be(s@, i as int),
{
    read_u16_be(s, i) as u32 * 0x1_0000 + read_u16_be(s, i + 2) as u32
}

/// Reads two bytes, least significant first.
pub fn read_u16_le(s: &[u8], i: usize) -> (n: u16)
    requires
        i + 2 <= s.len(),
    ensures
        n as int == u16_at_le(s@, i as int),
{
    s[i] as u16 + s[i + 1] as u16 * 256
}

/// Reads four bytes, least significant first.
pub fn read_u32_le(s: &[u8], i: usize) -> (n: u32)
    requires
        i + 4 <= s.len(),
    ensures
        n as int == u32_at_le(s@, i as int),
{
    read_u16_le(s, i) as u32 + read_u16_le(s, i + 2) as u32 * 0x1_0000
}

/// Appends all of `data`.
pub fn append_bytes(out: &mut Vec<u8>, data: &[u8])
    ensures
        final(out)@ == old(out)@ + data@,
{
    let n: usize = data.len();
    let mut i: usize = 0;
    while i < n
        invariant
            n == data@.len(),
            i <= n,
            out@ == old(out)@ + data@.subrange(0, i as int),
        decreases n - i,
    {
        out.push(data[i]);
        i += 1;
        assert(data@.subrange(0, i as int) =~= data@.subrange(0, i - 1).push(data@[i - 1]));
    }
    assert(data@.subrange(0, n as int) =~= data@);
}

/// Reading what was written gives the number back, in either byte order.
pub proof fn law_numbers_round_trip(n: int)
    ensures
        0 <= n < 0x1_0000 ==> u16_at_be(u16_be(n), 0) == n && u16_at_le(u16_le(n), 0) == n,
        0 <= n < 0x1_0000_0000 ==> u32_at_be(u32_be(n), 0) == n && u32_at_le(u32_le(n), 0) == n,
{
}

/// The most significant byte comes first on the wire, and last in bitmaps; four bytes
/// stand for a sum of powers of 256.
pub proof fn law_byte_orders(s: Seq<u8>, i: int, n: int)
    requires
        0 <= i,
        i + 4 <= s.len(),
        0 <= n < 0x1_0000_0000,
    ensures
        u16_at_be(s, i) == 256 * s[i] + s[i + 1],
        u32_at_be(s, i) == 16777216 * s[i] + 65536 * s[i + 1] + 256 * s[i + 2] + s[i + 3],
        u16_at_le(s, i) == s[i] + 256 * s[i + 1],
        u32_at_le(s, i) == s[i] + 256 * s[i + 1] + 65536 * s[i + 2] + 16777216 * s[i + 3],
        u32_be(n).len() == 4,
        u32_le(n).len() == 4,
        16777216 * u32_be(n)[0] + 65536 * u32_be(n)[1] + 256 * u32_be(n)[2] + u32_be(n)[3] == n,
        u32_le(n)[0] + 256 * u32_le(n)[1] + 65536 * u32_le(n)[2] + 16777216 * u32_le(n)[3] == n,
        n < 0x1_0000 ==> {
            &&& u16_be(n).len() == 2 && 256 * u16_be(n)[0] + u16_be(n)[1] == n
            &&& u16_le(n).len() == 2 && u16_le(n)[0] + 256 * u16_le(n)[1] == n
        },
{
}

/// A number with its highest bit set stands for a negative one: the two differ by the
/// whole range.
pub proof fn law_signed_numbers(n: int)
    requires
        0 <= n < 0x1_0000_0000,
    ensures
        -0x8000_0000 <= as_signed(n) < 0x8000_0000,
        (as_signed(n) - n) % 0x1_0000_0000 == 0,
        as_signed(n) < 0 <==> n >= 0x8000_0000,
{
}

} // verus!
