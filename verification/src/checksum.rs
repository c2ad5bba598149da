//! The two checksums used by the address codec.
//!
//! Scheme B frames an address with CRC-16-CCITT (polynomial 0x1021, initial
//! value 0xFFFF, no reflection, no final xor).  Scheme A frames it with the
//! standard CRC-32 (reflected polynomial 0xEDB88320, initial value 0xFFFFFFFF,
//! final xor 0xFFFFFFFF).  Both are implemented bit by bit and proved equal to
//! their specification folds.

use vstd::prelude::*;

verus! {

/// One shift of the CRC-16 register: multiply by x modulo the polynomial.
pub open spec fn crc16_shift1(c: u16) -> u16 {
    if c & 0x8000 != 0 {
        (c << 1u16) ^ 0x1021
    } else {
        c << 1u16
    }
}

/// Eight register shifts: one input byte's worth of division steps.
pub open spec fn crc16_shift8(c: u16) -> u16 {
    crc16_shift1(
        crc16_shift1(
            crc16_shift1(
                crc16_shift1(crc16_shift1(crc16_shift1(crc16_shift1(crc16_shift1(c))))),
            ),
        ),
    )
}

/// Feed one byte into the CRC-16 register.
pub open spec fn crc16_byte(c: u16, b: u8) -> u16 {
    crc16_shift8(c ^ ((b as u16) << 8u16))
}

/// Fold a byte sequence into the CRC-16 register, front to back.
pub open spec fn crc16_fold(c: u16, s: Seq<u8>) -> u16
    decreases s.len(),
{
    if s.len() == 0 {
        c
    } else {
        crc16_fold(crc16_byte(c, s[0]), s.drop_first())
    }
}

/// CRC-16-CCITT of a byte sequence: fold from the initial value 0xFFFF.
pub open spec fn crc16_of(s: Seq<u8>) -> u16 {
    crc16_fold(0xFFFF, s)
}

fn crc16_step(c: u16, b: u8) -> (r: u16)
    ensures
        r == crc16_byte(c, b),
{
    let c0: u16 = c ^ ((b as u16) << 8u16);
    let c1: u16 = crc16_step1(c0);
    let c2: u16 = crc16_step1(c1);
    let c3: u16 = crc16_step1(c2);
    let c4: u16 = crc16_step1(c3);
    let c5: u16 = crc16_step1(c4);
    let c6: u16 = crc16_step1(c5);
    let c7: u16 = crc16_step1(c6);
    crc16_step1(c7)
}

fn crc16_step1(c: u16) -> (r: u16)
    ensures
        r == crc16_shift1(c),
{
    if c & 0x8000 != 0 {
        (c << 1u16) ^ 0x1021
    } else {
        c << 1u16
    }
}

/// CRC-16-CCITT (XMODEM polynomial 0x1021, initial value 0xFFFF) of `data`.
pub fn crc16_ccitt(data: &Vec<u8>) -> (r: u16)
    ensures
        r == crc16_of(data@),
{
    let mut crc: u16 = 0xFFFF;
    let mut i: usize = 0;
    proof {
        assert(data@.skip(0) =~= data@);
    }
    while i < data.len()
        invariant
            i <= data.len(),
            crc16_fold(crc, data@.skip(i as int)) == crc16_of(data@),
        decreases data.len() - i,
    {
        let ghost before = data@.skip(i as int);
        crc = crc16_step(crc, data[i]);
        proof {
            assert(before.drop_first() =~= data@.skip(i as int + 1));
        }
        i = i + 1;
    }
    proof {
        assert(data@.skip(i as int) =~= Seq::<u8>::empty());
    }
    crc
}

/// One reflected shift of the CRC-32 register.
pub open spec fn crc32_shift1(c: u32) -> u32 {
    if c & 1 != 0 {
        (c >> 1u32) ^ 0xEDB88320
    } else {
        c >> 1u32
    }
}

/// Eight reflected register shifts: one input byte's worth of division steps.
pub open spec fn crc32_shift8(c: u32) -> u32 {
    crc32_shift1(
        crc32_shift1(
            crc32_shift1(
                crc32_shift1(crc32_shift1(crc32_shift1(crc32_shift1(crc32_shift1(c))))),
            ),
        ),
    )
}

/// Feed one byte into the CRC-32 register.
pub open spec fn crc32_byte(c: u32, b: u8) -> u32 {
    crc32_shift8(c ^ (b as u32))
}

/// Fold a byte sequence into the CRC-32 register, front to back.
pub open spec fn crc32_fold(c: u32, s: Seq<u8>) -> u32
    decreases s.len(),
{
    if s.len() == 0 {
        c
    } else {
        crc32_fold(crc32_byte(c, s[0]), s.drop_first())
    }
}

/// CRC-32 of a byte sequence: fold from 0xFFFFFFFF, then invert.
pub open spec fn crc32_of(s: Seq<u8>) -> u32 {
    crc32_fold(0xFFFFFFFF, s) ^ 0xFFFFFFFF
}

fn crc32_step(c: u32, b: u8) -> (r: u32)
    ensures
        r == crc32_byte(c, b),
{
    let c0: u32 = c ^ (b as u32);
    let c1: u32 = crc32_step1(c0);
    let c2: u32 = crc32_step1(c1);
    let c3: u32 = crc32_step1(c2);
    let c4: u32 = crc32_step1(c3);
    let c5: u32 = crc32_step1(c4);
    let c6: u32 = crc32_step1(c5);
    let c7: u32 = crc32_step1(c6);
    crc32_step1(c7)
}

fn crc32_step1(c: u32) -> (r: u32)
    ensures
        r == crc32_shift1(c),
{
    if c & 1 != 0 {
        (c >> 1u32) ^ 0xEDB88320
    } else {
        c >> 1u32
    }
}

/// CRC-32 (reflected polynomial 0xEDB88320) of `data`.
pub fn crc32(data: &Vec<u8>) -> (r: u32)
    ensures
        r == crc32_of(data@),
{
    let mut crc: u32 = 0xFFFFFFFF;
    let mut i: usize = 0;
    proof {
        assert(data@.skip(0) =~= data@);
    }
    while i < data.len()
        invariant
            i <= data.len(),
            crc32_fold(crc, data@.skip(i as int)) == crc32_fold(0xFFFFFFFF, data@),
        decreases data.len() - i,
    {
        let ghost before = data@.skip(i as int);
        crc = crc32_step(crc, data[i]);
        proof {
            assert(before.drop_first() =~= data@.skip(i as int + 1));
        }
        i = i + 1;
    }
    proof {
        assert(data@.skip(i as int) =~= Seq::<u8>::empty());
    }
    crc ^ 0xFFFFFFFF
}

} // verus!
