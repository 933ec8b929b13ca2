//! Integers as bytes.

use vstd::prelude::*;

verus! {

/// The two bytes of `x`, least significant first.
pub open spec fn le16(x: u16) -> Seq<u8> {
    seq![(x % 256) as u8, (x / 256) as u8]
}

/// The two bytes of `x`, most significant first.
pub open spec fn be16(x: u16) -> Seq<u8> {
    seq![(x / 256) as u8, (x % 256) as u8]
}

/// The four bytes of `x`, least significant first.
pub open spec fn le32(x: u32) -> Seq<u8> {
    seq![
        (x % 256) as u8,
        (x / 256 % 256) as u8,
        (x / 65536 % 256) as u8,
        (x / 16777216) as u8,
    ]
}

/// The four bytes of `x`, most significant first.
pub open spec fn be32(x: u32) -> Seq<u8> {
    seq![
        (x / 16777216) as u8,
        (x / 65536 % 256) as u8,
        (x / 256 % 256) as u8,
        (x % 256) as u8,
    ]
}

/// The eight bytes of `x`, least significant first.
pub open spec fn le64(x: u64) -> Seq<u8> {
    le32((x % 4294967296) as u32) + le32((x / 4294967296) as u32)
}

/// The eight bytes of `x`, most significant first.
pub open spec fn be64(x: u64) -> Seq<u8> {
    be32((x / 4294967296) as u32) + be32((x % 4294967296) as u32)
}

/// The order in which a machine keeps the bytes of a number.
#[derive(Debug, Clone, Copy, PartialEq, Eq, Structural)]
pub enum ByteOrder {
    /// Least significant first.
    Little,
    /// Most significant first.
    Big,
}

/// The two bytes of `x` in the order of the machine.
pub open spec fn ne16(order: ByteOrder, x: u16) -> Seq<u8> {
    match order {
        ByteOrder::Little => le16(x),
        ByteOrder::Big => be16(x),
    }
}

/// The four bytes of `x` in the order of the machine.
pub open spec fn ne32(order: ByteOrder, x: u32) -> Seq<u8> {
    match order {
        ByteOrder::Little => le32(x),
        ByteOrder::Big => be32(x),
    }
}

/// The eight bytes of `x` in the order of the machine.
pub open spec fn ne64(order: ByteOrder, x: u64) -> Seq<u8> {
    match order {
        ByteOrder::Little => le64(x),
        ByteOrder::Big => be64(x),
    }
}

/// The number whose bytes, in the order of the machine, are `a` and `b`.
pub open spec fn from_ne16(order: ByteOrder, a: u8, b: u8) -> u16 {
    match order {
        ByteOrder::Little => from_le16(a, b),
        ByteOrder::Big => from_be16(a, b),
    }
}

/// The number whose bytes, in the order of the machine, are `a` to `d`.
pub open spec fn from_ne32(order: ByteOrder, a: u8, b: u8, c: u8, d: u8) -> u32 {
    match order {
        ByteOrder::Little => from_le32(a, b, c, d),
        ByteOrder::Big => from_be32(a, b, c, d),
    }
}

/// The number whose bytes, least significant first, are `a` and `b`.
pub open spec fn from_le16(a: u8, b: u8) -> u16 {
    (a + 256 * b) as u16
}

/// The number whose bytes, most significant first, are `a` and `b`.
pub open spec fn from_be16(a: u8, b: u8) -> u16 {
    (256 * a + b) as u16
}

/// The number whose bytes, most significant first, are `a` to `d`.
pub open spec fn from_be32(a: u8, b: u8, c: u8, d: u8) -> u32 {
    (16777216 * a + 65536 * b + 256 * c + d) as u32
}

/// The number whose bytes, least significant first, are `a` to `d`.
pub open spec fn from_le32(a: u8, b: u8, c: u8, d: u8) -> u32 {
    from_be32(d, c, b, a)
}

/// `n` zero bytes.
pub open spec fn zeros(n: nat) -> Seq<u8> {
    Seq::new(n, |i: int| 0u8)
}

/// The four bytes of `x`, least significant first.
pub fn to_le32(x: u32) -> (bytes: [u8; 4])
    ensures
        bytes@ == le32(x),
{
    let bytes = [
        (x % 256) as u8,
        (x / 256 % 256) as u8,
        (x / 65536 % 256) as u8,
        (x / 16777216) as u8,
    ];
    assert(bytes@ =~= le32(x));
    bytes
}

/// The four bytes of `x`, most significant first.
pub fn to_be32(x: u32) -> (bytes: [u8; 4])
    ensures
        bytes@ == be32(x),
{
    let bytes = [
        (x / 16777216) as u8,
        (x / 65536 % 256) as u8,
        (x / 256 % 256) as u8,
        (x % 256) as u8,
    ];
    assert(bytes@ =~= be32(x));
    bytes
}

/// The two bytes of `x` in the order of the machine.
pub fn to_ne16(order: ByteOrder, x: u16) -> (bytes: [u8; 2])
    ensures
        bytes@ == ne16(order, x),
{
    let low: u8 = (x % 256) as u8;
    let high: u8 = (x / 256) as u8;
    let bytes = match order {
        ByteOrder::Little => [low, high],
        ByteOrder::Big => [high, low],
    };
    assert(bytes@ =~= ne16(order, x));
    bytes
}

/// The four bytes of `x` in the order of the machine.
pub fn to_ne32(order: ByteOrder, x: u32) -> (bytes: [u8; 4])
    ensures
        bytes@ == ne32(order, x),
{
    match order {
        ByteOrder::Little => to_le32(x),
        ByteOrder::Big => to_be32(x),
    }
}

/// Appends the bytes of `x` in the order of the machine to a buffer.
pub fn push_ne64(buf: &mut Vec<u8>, order: ByteOrder, x: u64)
    ensures
        final(buf)@ == old(buf)@ + ne64(order, x),
{
    let low: u32 = (x % 4294967296) as u32;
    let high: u32 = (x / 4294967296) as u32;
    match order {
        ByteOrder::Little => {
            push_bytes(buf, &to_le32(low));
            push_bytes(buf, &to_le32(high));
        },
        ByteOrder::Big => {
            push_bytes(buf, &to_be32(high));
            push_bytes(buf, &to_be32(low));
        },
    }
    assert(buf@ =~= old(buf)@ + ne64(order, x));
}

/// Appends bytes to a buffer.
pub fn push_bytes(buf: &mut Vec<u8>, bytes: &[u8])
    ensures
        final(buf)@ == old(buf)@ + bytes@,
{
    let mut i: usize = 0;
    while i < bytes.len()
        invariant
            i <= bytes.len(),
            buf@ == old(buf)@ + bytes@.take(i as int),
        decreases bytes.len() - i,
    {
        buf.push(bytes[i]);
        i = i + 1;
        assert(buf@ =~= old(buf)@ + bytes@.take(i as int));
    }
    assert(bytes@.take(i as int) =~= bytes@);
}

/// Appends `n` zero bytes to a buffer.
pub fn push_zeros(buf: &mut Vec<u8>, n: usize)
    ensures
        final(buf)@ == old(buf)@ + zeros(n as nat),
{
    let mut i: usize = 0;
    while i < n
        invariant
            i <= n,
            buf@ == old(buf)@ + zeros(i as nat),
        decreases n - i,
    {
        buf.push(0);
        i = i + 1;
        assert(buf@ =~= old(buf)@ + zeros(i as nat));
    }
}

/// Reading the bytes of a number gives the number back, in every order.
pub proof fn bytes_round_trip(order: ByteOrder, x: u16, y: u32)
    ensures
        from_ne16(order, ne16(order, x)[0], ne16(order, x)[1]) == x,
        from_be16(be16(x)[0], be16(x)[1]) == x,
        from_be32(be32(y)[0], be32(y)[1], be32(y)[2], be32(y)[3]) == y,
        from_ne32(
            order,
            ne32(order, y)[0],
            ne32(order, y)[1],
            ne32(order, y)[2],
            ne32(order, y)[3],
        ) == y,
{
}

/// In the bytes of a number each byte counts 256 times the one before it, from the first
/// byte on in a little-endian order and from the last byte back in a big-endian one.
pub proof fn bytes_count_by_256(x: u16, y: u32, z: u64, order: ByteOrder)
    ensures
        le16(x).len() == 2 && le32(y).len() == 4 && le64(z).len() == 8,
        le16(x)[0] + 256 * le16(x)[1] == x,
        le32(y)[0] + 256 * (le32(y)[1] + 256 * (le32(y)[2] + 256 * le32(y)[3])) == y,
        le64(z)[0] + 256 * (le64(z)[1] + 256 * (le64(z)[2] + 256 * (le64(z)[3] + 256 * (le64(z)[4]
            + 256 * (le64(z)[5] + 256 * (le64(z)[6] + 256 * le64(z)[7])))))) == z,
        be16(x) == le16(x).reverse(),
        be32(y) == le32(y).reverse(),
        be64(z) == le64(z).reverse(),
        order == ByteOrder::Little ==> ne16(order, x) == le16(x) && ne32(order, y) == le32(y)
            && ne64(order, z) == le64(z),
        order == ByteOrder::Big ==> ne16(order, x) == be16(x) && ne32(order, y) == be32(y)
            && ne64(order, z) == be64(z),
{
    assert(be16(x) =~= le16(x).reverse());
    assert(be32(y) =~= le32(y).reverse());
    assert(be64(z) =~= le64(z).reverse());
    let low = (z % 4294967296) as u32;
    let high = (z / 4294967296) as u32;
    assert(z == low + 4294967296 * high);
}

/// A number is read from its bytes by the same count.
pub proof fn numbers_are_read_by_256(a: u8, b: u8, c: u8, d: u8, order: ByteOrder)
    ensures
        from_le16(a, b) == a + 256 * b,
        from_be16(a, b) == from_le16(b, a),
        from_le32(a, b, c, d) == a + 256 * (b + 256 * (c + 256 * d)),
        from_be32(a, b, c, d) == from_le32(d, c, b, a),
        order == ByteOrder::Little ==> from_ne16(order, a, b) == from_le16(a, b) && from_ne32(
            order,
            a,
            b,
            c,
            d,
        ) == from_le32(a, b, c, d),
        order == ByteOrder::Big ==> from_ne16(order, a, b) == from_be16(a, b) && from_ne32(
            order,
            a,
            b,
            c,
            d,
        ) == from_be32(a, b, c, d),
{
}

/// Padding is made of zero bytes, as many as there have to be.
pub proof fn padding_is_zero(n: nat, i: int)
    requires
        0 <= i < n,
    ensures
        zeros(n).len() == n,
        zeros(n)[i] == 0,
{
}

} // verus!
