//! Byte and halfword stores and loads on a small little-endian buffer, with
//! the sign- and zero-extension of the RISC-V load instructions.
use vstd::prelude::*;
use crate::bytes::{le_bytes, push_le};

verus! {

/// Stores the low byte of `value` at `off`.
pub fn store_byte(data: &mut [u8; 8], off: usize, value: u32)
    requires
        off < 8,
    ensures
        final(data)@ == old(data)@.update(off as int, (value % 256) as u8),
{
    data[off] = (value % 256) as u8;
}

/// Stores the low halfword of `value` at `off`, least significant byte first.
pub fn store_half(data: &mut [u8; 8], off: usize, value: u32)
    requires
        off + 1 < 8,
    ensures
        final(data)@ == old(data)@.update(off as int, (value % 256) as u8).update(
            off + 1,
            ((value / 256) % 256) as u8,
        ),
{
    data[off] = (value % 256) as u8;
    data[off + 1] = ((value / 256) % 256) as u8;
}

/// Loads the byte at `off`, sign-extended.
pub fn load_byte_signed(data: &[u8; 8], off: usize) -> (v: i32)
    requires
        off < 8,
    ensures
        v == (if data@[off as int] >= 128 { data@[off as int] - 256 } else { data@[off as int] as int }),
{
    let b = data[off] as i32;
    if b >= 128 {
        b - 256
    } else {
        b
    }
}

/// Loads the byte at `off`, zero-extended.
pub fn load_byte_unsigned(data: &[u8; 8], off: usize) -> (v: u32)
    requires
        off < 8,
    ensures
        v == data@[off as int],
{
    data[off] as u32
}

/// Loads the halfword at `off`, sign-extended.
pub fn load_half_signed(data: &[u8; 8], off: usize) -> (v: i32)
    requires
        off + 1 < 8,
    ensures
        ({
            let h = data@[off as int] + 256 * data@[off + 1];
            v == (if h >= 32768 { h - 65536 } else { h })
        }),
{
    let h = data[off] as i32 + 256 * (data[off + 1] as i32);
    if h >= 32768 {
        h - 65536
    } else {
        h
    }
}

/// Loads the halfword at `off`, zero-extended.
pub fn load_half_unsigned(data: &[u8; 8], off: usize) -> (v: u32)
    requires
        off + 1 < 8,
    ensures
        v == data@[off as int] + 256 * data@[off + 1],
{
    data[off] as u32 + 256 * (data[off + 1] as u32)
}

/// Stores `0x12` at byte 0 and `0x3456` at byte 2 of a zeroed buffer, then
/// loads byte 0 signed, byte 1 unsigned, halfword 2 signed, halfword 4 unsigned.
pub fn memory_ops() -> (loaded: (i32, u32, i32, u32))
    ensures
        loaded == (0x12i32, 0u32, 0x3456i32, 0u32),
{
    let mut data: [u8; 8] = [0; 8];
    store_byte(&mut data, 0, 0x12);
    let val_lb = load_byte_signed(&data, 0);
    let val_lbu = load_byte_unsigned(&data, 1);
    store_half(&mut data, 2, 0x3456);
    let val_lh = load_half_signed(&data, 2);
    let val_lhu = load_half_unsigned(&data, 4);
    (val_lb, val_lbu, val_lh, val_lhu)
}

/// The harness ignores its input and encodes the four loaded values in four
/// bytes each.
pub fn harness(input: Vec<u8>) -> (out: Vec<u8>)
    ensures
        out@ == le_bytes(0x12, 4) + le_bytes(0, 4) + le_bytes(0x3456, 4) + le_bytes(0, 4),
{
    let _ = &input;
    let (val_lb, val_lbu, val_lh, val_lhu) = memory_ops();
    let mut out: Vec<u8> = Vec::new();
    push_le(&mut out, val_lb as u32 as u128, 4);
    push_le(&mut out, val_lbu as u128, 4);
    push_le(&mut out, val_lh as u32 as u128, 4);
    push_le(&mut out, val_lhu as u128, 4);
    out
}

} // verus!
