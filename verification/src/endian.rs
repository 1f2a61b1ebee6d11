//! Byte orders and the byte strings of fixed-width integers.

use vstd::prelude::*;

verus! {

/// The order in which the bytes of a multi-byte integer are written.
#[derive(Clone, Copy, Debug, PartialEq, Eq, Structural)]
pub enum ByteOrder {
    /// Most significant byte first (network order).
    BigEndian,
    /// Least significant byte first.
    LittleEndian,
}

/// The `width` low-order bytes of `v`, most significant first. A negative `v`
/// yields its two's complement representation.
pub open spec fn be_bytes(v: int, width: nat) -> Seq<u8>
    decreases width,
{
    if width == 0 {
        Seq::empty()
    } else {
        be_bytes(v / 256, (width - 1) as nat).push((v % 256) as u8)
    }
}

/// The `width` low-order bytes of `v`, least significant first.
pub open spec fn le_bytes(v: int, width: nat) -> Seq<u8>
    decreases width,
{
    if width == 0 {
        Seq::empty()
    } else {
        seq![(v % 256) as u8] + le_bytes(v / 256, (width - 1) as nat)
    }
}

/// The `width` low-order bytes of `v` in the given order.
pub open spec fn int_bytes(v: int, width: nat, order: ByteOrder) -> Seq<u8> {
    match order {
        ByteOrder::BigEndian => be_bytes(v, width),
        ByteOrder::LittleEndian => le_bytes(v, width),
    }
}

/// The number that the bytes of `s` spell, most significant first.
pub open spec fn be_value(s: Seq<u8>) -> nat
    decreases s.len(),
{
    if s.len() == 0 {
        0
    } else {
        be_value(s.drop_last()) * 256 + s.last() as nat
    }
}

/// An integer written in `width` bytes occupies `width` bytes, in either order.
pub proof fn lemma_int_bytes_len(v: int, width: nat, order: ByteOrder)
    ensures
        int_bytes(v, width, order).len() == width,
        be_bytes(v, width).len() == width,
        le_bytes(v, width).len() == width,
    decreases width,
{
    if width > 0 {
        lemma_int_bytes_len(v / 256, (width - 1) as nat, order);
    }
}

/// The big-endian bytes of `v` for the widths of one to four bytes, written out.
pub proof fn lemma_be_bytes_explicit(v: int)
    ensures
        be_bytes(v, 1) == seq![(v % 256) as u8],
        be_bytes(v, 2) == seq![(v / 256 % 256) as u8, (v % 256) as u8],
        be_bytes(v, 3) == seq![(v / 65536 % 256) as u8, (v / 256 % 256) as u8, (v % 256) as u8],
        be_bytes(v, 4) == seq![
            (v / 16777216 % 256) as u8,
            (v / 65536 % 256) as u8,
            (v / 256 % 256) as u8,
            (v % 256) as u8,
        ],
{
    reveal_with_fuel(be_bytes, 5);
    assert(v / 256 / 256 == v / 65536);
    assert(v / 256 / 256 / 256 == v / 16777216);
    assert(be_bytes(v, 1) =~= seq![(v % 256) as u8]);
    assert(be_bytes(v, 2) =~= seq![(v / 256 % 256) as u8, (v % 256) as u8]);
    assert(be_bytes(v, 3) =~= seq![
        (v / 65536 % 256) as u8,
        (v / 256 % 256) as u8,
        (v % 256) as u8,
    ]);
    assert(be_bytes(v, 4) =~= seq![
        (v / 16777216 % 256) as u8,
        (v / 65536 % 256) as u8,
        (v / 256 % 256) as u8,
        (v % 256) as u8,
    ]);
}

/// The value of one to four bytes read most significant first, written out.
pub proof fn lemma_be_value_explicit(s: Seq<u8>)
    ensures
        s.len() == 1 ==> be_value(s) == s[0],
        s.len() == 2 ==> be_value(s) == s[0] * 256 + s[1],
        s.len() == 3 ==> be_value(s) == s[0] * 65536 + s[1] * 256 + s[2],
        s.len() == 4 ==> be_value(s) == s[0] * 16777216 + s[1] * 65536 + s[2] * 256 + s[3],
{
    reveal_with_fuel(be_value, 5);
    if s.len() >= 1 {
        assert(s.drop_last().len() == s.len() - 1);
    }
    if s.len() >= 2 {
        assert(s.drop_last().drop_last().len() == s.len() - 2);
        assert(s.drop_last().last() == s[s.len() - 2]);
    }
    if s.len() >= 3 {
        assert(s.drop_last().drop_last().drop_last().len() == s.len() - 3);
        assert(s.drop_last().drop_last().last() == s[s.len() - 3]);
    }
    if s.len() >= 4 {
        assert(s.drop_last().drop_last().drop_last().last() == s[s.len() - 4]);
    }
}

/// Reading back the big-endian bytes of a number that fits in them gives the
/// number, for the widths of one to four bytes.
pub proof fn lemma_be_value_of_be_bytes(v: int)
    ensures
        0 <= v < 0x100 ==> be_value(be_bytes(v, 1)) == v,
        0 <= v < 0x1_0000 ==> be_value(be_bytes(v, 2)) == v,
        0 <= v < 0x100_0000 ==> be_value(be_bytes(v, 3)) == v,
        0 <= v < 0x1_0000_0000 ==> be_value(be_bytes(v, 4)) == v,
{
    lemma_be_bytes_explicit(v);
    lemma_be_value_explicit(be_bytes(v, 1));
    lemma_be_value_explicit(be_bytes(v, 2));
    lemma_be_value_explicit(be_bytes(v, 3));
    lemma_be_value_explicit(be_bytes(v, 4));
}

/// Dividing `hi * 256 + lo` by 256 gives `hi` and leaves `lo`.
proof fn lemma_div_mod_256(hi: int, lo: int)
    requires
        0 <= lo < 256,
    ensures
        (hi * 256 + lo) / 256 == hi,
        (hi * 256 + lo) % 256 == lo,
{
}

/// Writing the value of one to four bytes back in as many bytes gives the same
/// bytes.
pub proof fn lemma_be_bytes_of_be_value(s: Seq<u8>)
    requires
        1 <= s.len() <= 4,
    ensures
        be_bytes(be_value(s) as int, s.len()) == s,
    decreases s.len(),
{
    let v = be_value(s) as int;
    let front = s.drop_last();
    lemma_div_mod_256(be_value(front) as int, s.last() as int);
    if s.len() == 1 {
        assert(be_bytes(v / 256, 0) =~= front);
    } else {
        lemma_be_bytes_of_be_value(front);
    }
    assert(front.push(s.last()) =~= s);
}

/// The little-endian bytes of an integer are its big-endian bytes reversed.
pub proof fn lemma_le_bytes_reverse(v: int, width: nat)
    ensures
        le_bytes(v, width) == be_bytes(v, width).reverse(),
    decreases width,
{
    if width > 0 {
        lemma_le_bytes_reverse(v / 256, (width - 1) as nat);
        lemma_int_bytes_len(v / 256, (width - 1) as nat, ByteOrder::BigEndian);
        assert(le_bytes(v, width) =~= be_bytes(v, width).reverse());
    } else {
        assert(le_bytes(v, width) =~= be_bytes(v, width).reverse());
    }
}

/// Appends `n` with `byteorder::WriteBytesExt::write_u8`: the byte `n` is added
/// at the end of `out`.
#[verifier::external_body]
pub(crate) fn write_u8(out: &mut Vec<u8>, n: u8)
    ensures
        final(out)@ == old(out)@.push(n),
{
    byteorder::WriteBytesExt::write_u8(out, n).unwrap();
}

/// Appends `n` with `byteorder::WriteBytesExt::write_i8`: the byte that holds
/// `n` in two's complement is added at the end of `out`.
#[verifier::external_body]
pub(crate) fn write_i8(out: &mut Vec<u8>, n: i8)
    ensures
        final(out)@ == old(out)@ + be_bytes(n as int, 1),
{
    byteorder::WriteBytesExt::write_i8(out, n).unwrap();
}

/// Appends `n` with `byteorder::WriteBytesExt::write_u16::<BigEndian>`: the two
/// bytes of `n`, most significant first, are added at the end of `out`.
#[verifier::external_body]
pub(crate) fn write_u16_be(out: &mut Vec<u8>, n: u16)
    ensures
        final(out)@ == old(out)@ + be_bytes(n as int, 2),
{
    byteorder::WriteBytesExt::write_u16::<byteorder::BigEndian>(out, n).unwrap();
}

/// Appends `n` with `byteorder::WriteBytesExt::write_u16::<LittleEndian>`: the
/// two bytes of `n`, least significant first, are added at the end of `out`.
#[verifier::external_body]
pub(crate) fn write_u16_le(out: &mut Vec<u8>, n: u16)
    ensures
        final(out)@ == old(out)@ + le_bytes(n as int, 2),
{
    byteorder::WriteBytesExt::write_u16::<byteorder::LittleEndian>(out, n).unwrap();
}

/// Appends `n` with `byteorder::WriteBytesExt::write_i16::<BigEndian>`: the two
/// bytes of `n`, in two's complement, most significant first, are added at the
/// end of `out`.
#[verifier::external_body]
pub(crate) fn write_i16_be(out: &mut Vec<u8>, n: i16)
    ensures
        final(out)@ == old(out)@ + be_bytes(n as int, 2),
{
    byteorder::WriteBytesExt::write_i16::<byteorder::BigEndian>(out, n).unwrap();
}

/// Appends `n` with `byteorder::WriteBytesExt::write_i16::<LittleEndian>`: the
/// two bytes of `n`, in two's complement, least significant first, are added at
/// the end of `out`.
#[verifier::external_body]
pub(crate) fn write_i16_le(out: &mut Vec<u8>, n: i16)
    ensures
        final(out)@ == old(out)@ + le_bytes(n as int, 2),
{
    byteorder::WriteBytesExt::write_i16::<byteorder::LittleEndian>(out, n).unwrap();
}

/// Appends `n` with `byteorder::WriteBytesExt::write_u32::<BigEndian>`: the
/// four bytes of `n`, most significant first, are added at the end of `out`.
#[verifier::external_body]
pub(crate) fn write_u32_be(out: &mut Vec<u8>, n: u32)
    ensures
        final(out)@ == old(out)@ + be_bytes(n as int, 4),
{
    byteorder::WriteBytesExt::write_u32::<byteorder::BigEndian>(out, n).unwrap();
}

/// Appends `n` with `byteorder::WriteBytesExt::write_u32::<LittleEndian>`: the
/// four bytes of `n`, least significant first, are added at the end of `out`.
#[verifier::external_body]
pub(crate) fn write_u32_le(out: &mut Vec<u8>, n: u32)
    ensures
        final(out)@ == old(out)@ + le_bytes(n as int, 4),
{
    byteorder::WriteBytesExt::write_u32::<byteorder::LittleEndian>(out, n).unwrap();
}

/// Appends `n` with `byteorder::WriteBytesExt::write_i32::<BigEndian>`: the
/// four bytes of `n`, in two's complement, most significant first, are added at
/// the end of `out`.
#[verifier::external_body]
pub(crate) fn write_i32_be(out: &mut Vec<u8>, n: i32)
    ensures
        final(out)@ == old(out)@ + be_bytes(n as int, 4),
{
    byteorder::WriteBytesExt::write_i32::<byteorder::BigEndian>(out, n).unwrap();
}

/// Appends `n` with `byteorder::WriteBytesExt::write_i32::<LittleEndian>`: the
/// four bytes of `n`, in two's complement, least significant first, are added
/// at the end of `out`.
#[verifier::external_body]
pub(crate) fn write_i32_le(out: &mut Vec<u8>, n: i32)
    ensures
        final(out)@ == old(out)@ + le_bytes(n as int, 4),
{
    byteorder::WriteBytesExt::write_i32::<byteorder::LittleEndian>(out, n).unwrap();
}

/// Appends `n` with `byteorder::WriteBytesExt::write_u64::<BigEndian>`: the
/// eight bytes of `n`, most significant first, are added at the end of `out`.
#[verifier::external_body]
pub(crate) fn write_u64_be(out: &mut Vec<u8>, n: u64)
    ensures
        final(out)@ == old(out)@ + be_bytes(n as int, 8),
{
    byteorder::WriteBytesExt::write_u64::<byteorder::BigEndian>(out, n).unwrap();
}

/// Appends `n` with `byteorder::WriteBytesExt::write_u64::<LittleEndian>`: the
/// eight bytes of `n`, least significant first, are added at the end of `out`.
#[verifier::external_body]
pub(crate) fn write_u64_le(out: &mut Vec<u8>, n: u64)
    ensures
        final(out)@ == old(out)@ + le_bytes(n as int, 8),
{
    byteorder::WriteBytesExt::write_u64::<byteorder::LittleEndian>(out, n).unwrap();
}

/// Appends `n` with `byteorder::WriteBytesExt::write_i64::<BigEndian>`: the
/// eight bytes of `n`, in two's complement, most significant first, are added
/// at the end of `out`.
#[verifier::external_body]
pub(crate) fn write_i64_be(out: &mut Vec<u8>, n: i64)
    ensures
        final(out)@ == old(out)@ + be_bytes(n as int, 8),
{
    byteorder::WriteBytesExt::write_i64::<byteorder::BigEndian>(out, n).unwrap();
}

/// Appends `n` with `byteorder::WriteBytesExt::write_i64::<LittleEndian>`: the
/// eight bytes of `n`, in two's complement, least significant first, are added
/// at the end of `out`.
#[verifier::external_body]
pub(crate) fn write_i64_le(out: &mut Vec<u8>, n: i64)
    ensures
        final(out)@ == old(out)@ + le_bytes(n as int, 8),
{
    byteorder::WriteBytesExt::write_i64::<byteorder::LittleEndian>(out, n).unwrap();
}

/// Appends `n` with `byteorder::WriteBytesExt::write_u128::<BigEndian>`: the
/// sixteen bytes of `n`, most significant first, are added at the end of `out`.
#[verifier::external_body]
pub(crate) fn write_u128_be(out: &mut Vec<u8>, n: u128)
    ensures
        final(out)@ == old(out)@ + be_bytes(n as int, 16),
{
    byteorder::WriteBytesExt::write_u128::<byteorder::BigEndian>(out, n).unwrap();
}

/// Appends `n` with `byteorder::WriteBytesExt::write_u128::<LittleEndian>`: the
/// sixteen bytes of `n`, least significant first, are added at the end of
/// `out`.
#[verifier::external_body]
pub(crate) fn write_u128_le(out: &mut Vec<u8>, n: u128)
    ensures
        final(out)@ == old(out)@ + le_bytes(n as int, 16),
{
    byteorder::WriteBytesExt::write_u128::<byteorder::LittleEndian>(out, n).unwrap();
}

/// Appends `n` with `byteorder::WriteBytesExt::write_i128::<BigEndian>`: the
/// sixteen bytes of `n`, in two's complement, most significant first, are added
/// at the end of `out`.
#[verifier::external_body]
pub(crate) fn write_i128_be(out: &mut Vec<u8>, n: i128)
    ensures
        final(out)@ == old(out)@ + be_bytes(n as int, 16),
{
    byteorder::WriteBytesExt::write_i128::<byteorder::BigEndian>(out, n).unwrap();
}

/// Appends `n` with `byteorder::WriteBytesExt::write_i128::<LittleEndian>`: the
/// sixteen bytes of `n`, in two's complement, least significant first, are
/// added at the end of `out`.
#[verifier::external_body]
pub(crate) fn write_i128_le(out: &mut Vec<u8>, n: i128)
    ensures
        final(out)@ == old(out)@ + le_bytes(n as int, 16),
{
    byteorder::WriteBytesExt::write_i128::<byteorder::LittleEndian>(out, n).unwrap();
}

} // verus!
