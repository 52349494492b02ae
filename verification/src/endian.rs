//! Integers as little-endian bytes.

use byteorder::{ByteOrder, LittleEndian, WriteBytesExt};
use vstd::prelude::*;

verus! {

/// The number of values that `width` bytes can spell.
pub open spec fn span(width: nat) -> nat
    decreases width,
{
    if width == 0 {
        1
    } else {
        256 * span((width - 1) as nat)
    }
}

/// The `width` low bytes of `value`, the least significant first.
pub open spec fn le_bytes(value: nat, width: nat) -> Seq<u8>
    decreases width,
{
    if width == 0 {
        Seq::empty()
    } else {
        seq![(value % 256) as u8] + le_bytes(value / 256, (width - 1) as nat)
    }
}

/// The number that `bytes` spell, the least significant first.
pub open spec fn le_value(bytes: Seq<u8>) -> nat
    decreases bytes.len(),
{
    if bytes.len() == 0 {
        0
    } else {
        bytes[0] as nat + 256 * le_value(bytes.drop_first())
    }
}

/// The number that stands for `value` in two's complement of `width` bytes.
pub open spec fn unsigned(value: int, width: nat) -> nat {
    if value < 0 {
        (value + span(width)) as nat
    } else {
        value as nat
    }
}

/// `le_bytes` gives as many bytes as it is asked for.
pub proof fn lemma_le_bytes_len(value: nat, width: nat)
    ensures
        le_bytes(value, width).len() == width,
    decreases width,
{
    if width > 0 {
        lemma_le_bytes_len(value / 256, (width - 1) as nat);
    }
}

/// A number that fits into `width` bytes is what its bytes spell.
pub proof fn lemma_le_value_of_bytes(value: nat, width: nat)
    requires
        value < span(width),
    ensures
        le_value(le_bytes(value, width)) == value,
    decreases width,
{
    if width > 0 {
        let rest = le_bytes(value / 256, (width - 1) as nat);
        let all = le_bytes(value, width);
        assert(all.drop_first() =~= rest);
        assert(value / 256 < span((width - 1) as nat)) by (nonlinear_arith)
            requires
                value < 256 * span((width - 1) as nat),
        ;
        lemma_le_value_of_bytes(value / 256, (width - 1) as nat);
        assert(value % 256 + 256 * (value / 256) == value) by (nonlinear_arith);
    }
}

/// Bytes spell a number that fits into as many bytes, and whose bytes they
/// are.
pub proof fn lemma_le_bytes_of_value(bytes: Seq<u8>)
    ensures
        le_value(bytes) < span(bytes.len()),
        le_bytes(le_value(bytes), bytes.len()) == bytes,
    decreases bytes.len(),
{
    if bytes.len() > 0 {
        let rest = bytes.drop_first();
        lemma_le_bytes_of_value(rest);
        let value = le_value(bytes);
        let first = bytes[0] as nat;
        assert(value == first + 256 * le_value(rest));
        assert(value % 256 == first && value / 256 == le_value(rest)) by (nonlinear_arith)
            requires
                value == first + 256 * le_value(rest),
                first < 256,
        ;
        assert(value < 256 * span(rest.len())) by (nonlinear_arith)
            requires
                value == first + 256 * le_value(rest),
                first < 256,
                le_value(rest) < span(rest.len()),
        ;
        assert(le_bytes(value, bytes.len()) =~= bytes);
    } else {
        assert(le_bytes(le_value(bytes), bytes.len()) =~= bytes);
    }
}

/// Calls `byteorder::LittleEndian::write_u16` on a buffer of two bytes,
/// which it fills with the number's bytes, the least significant first.
#[verifier::external_body]
pub(crate) fn write_u16(n: u16) -> (bytes: [u8; 2])
    ensures
        bytes@ == le_bytes(n as nat, 2),
{
    let mut buf = [0u8;2];
    LittleEndian::write_u16(&mut buf, n);
    buf
}

/// Calls `byteorder::LittleEndian::write_u32` on a buffer of four bytes,
/// which it fills with the number's bytes, the least significant first.
#[verifier::external_body]
pub(crate) fn write_u32(n: u32) -> (bytes: [u8; 4])
    ensures
        bytes@ == le_bytes(n as nat, 4),
{
    let mut buf = [0u8;4];
    LittleEndian::write_u32(&mut buf, n);
    buf
}

/// Calls `byteorder::LittleEndian::write_u64` on a buffer of eight bytes,
/// which it fills with the number's bytes, the least significant first.
#[verifier::external_body]
pub(crate) fn write_u64(n: u64) -> (bytes: [u8; 8])
    ensures
        bytes@ == le_bytes(n as nat, 8),
{
    let mut buf = [0u8;8];
    LittleEndian::write_u64(&mut buf, n);
    buf
}

/// Calls `byteorder::WriteBytesExt::write_i8` on a buffer of one byte, which
/// it fills with the number's two's complement. A buffer with room for the
/// byte takes it without an error.
#[verifier::external_body]
pub(crate) fn write_i8(n: i8) -> (bytes: [u8; 1])
    ensures
        bytes@ == le_bytes(unsigned(n as int, 1), 1),
{
    let mut buf = [0u8;1];
    let _ = (&mut buf[..]).write_i8(n);
    buf
}

/// Calls `byteorder::LittleEndian::write_i16` on a buffer of two bytes. It
/// writes the number as `write_u16` writes its two's complement.
#[verifier::external_body]
pub(crate) fn write_i16(n: i16) -> (bytes: [u8; 2])
    ensures
        bytes@ == le_bytes(unsigned(n as int, 2), 2),
{
    let mut buf = [0u8;2];
    LittleEndian::write_i16(&mut buf, n);
    buf
}

/// Calls `byteorder::LittleEndian::write_i32` on a buffer of four bytes. It
/// writes the number as `write_u32` writes its two's complement.
#[verifier::external_body]
pub(crate) fn write_i32(n: i32) -> (bytes: [u8; 4])
    ensures
        bytes@ == le_bytes(unsigned(n as int, 4), 4),
{
    let mut buf = [0u8;4];
    LittleEndian::write_i32(&mut buf, n);
    buf
}

/// Calls `byteorder::LittleEndian::write_i64` on a buffer of eight bytes. It
/// writes the number as `write_u64` writes its two's complement.
#[verifier::external_body]
pub(crate) fn write_i64(n: i64) -> (bytes: [u8; 8])
    ensures
        bytes@ == le_bytes(unsigned(n as int, 8), 8),
{
    let mut buf = [0u8;8];
    LittleEndian::write_i64(&mut buf, n);
    buf
}

/// Calls `byteorder::LittleEndian::read_u32`, which reads the number that
/// the first four bytes spell, the least significant first. It panics on
/// fewer than four bytes.
#[verifier::external_body]
pub(crate) fn read_u32(buf: &[u8]) -> (n: u32)
    requires
        buf@.len() >= 4,
    ensures
        n as nat == le_value(buf@.take(4)),
{
    LittleEndian::read_u32(buf)
}

} // verus!
