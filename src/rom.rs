use vstd::prelude::*;

use crate::error::ProtocolError;

verus! {

/// Family code of the DS18B20 temperature sensor.
pub const SENSOR_FAMILY: u8 = 0x28;

/// Mask of the 56 low bits of a ROM: family code and serial number.
pub const PAYLOAD_MASK: u64 = 0x00ff_ffff_ffff_ffff;

/// Bit `i` of `data`, as 0 or 1.
pub open spec fn bit_of(data: u64, i: nat) -> u8 {
    ((data >> (i as u64)) & 1) as u8
}

/// One input bit through the CRC-8 (Dallas/Maxim, polynomial 0x31) register, in its
/// reflected form: the register shifts right and 0x8c is folded in when the bit that
/// leaves it differs from the input bit.
pub open spec fn crc_step(crc: u8, bit: u8) -> u8 {
    if (crc ^ bit) & 1 == 1 {
        (crc >> 1u8) ^ 0x8c
    } else {
        crc >> 1u8
    }
}

/// CRC-8 (Dallas/Maxim) of the low `n` bits of `data`, least-significant bit first,
/// from a zero register.
pub open spec fn crc_of_bits(data: u64, n: nat) -> u8
    decreases n,
{
    if n == 0 {
        0
    } else {
        crc_step(crc_of_bits(data, (n - 1) as nat), bit_of(data, (n - 1) as nat))
    }
}

/// The check byte that belongs to a ROM: the CRC-8 of its 56 low bits.
pub open spec fn rom_crc(raw: u64) -> u8 {
    crc_of_bits(raw, 56)
}

/// The most-significant byte of a ROM, where it carries its check byte.
pub open spec fn check_byte(raw: u64) -> u8 {
    (raw >> 56u64) as u8
}

/// A ROM whose check byte matches its payload.
pub open spec fn crc_matches(raw: u64) -> bool {
    check_byte(raw) == rom_crc(raw)
}

/// The least-significant byte of a ROM: the family code.
pub open spec fn family_of(raw: u64) -> u8 {
    (raw & 0xff) as u8
}

/// The 48-bit serial number between family code and check byte.
pub open spec fn serial_of(raw: u64) -> u64 {
    (raw >> 8u64) & 0xffff_ffff_ffff
}

/// A validated 64-bit device ROM.
#[derive(Clone, Copy, Debug, PartialEq, Eq, Structural)]
pub struct DeviceRom {
    /// Device family code, the ROM's least-significant byte.
    pub family: u8,
    /// The 48-bit serial number.
    pub serial: u64,
    /// The check byte, the ROM's most-significant byte.
    pub crc: u8,
}

/// The outcome of validating the 64 bits read from a device.
pub open spec fn rom_outcome(raw: u64) -> Result<DeviceRom, ProtocolError> {
    if !crc_matches(raw) {
        Err(ProtocolError::Crc)
    } else if family_of(raw) != SENSOR_FAMILY {
        Err(ProtocolError::UnexpectedFamily)
    } else {
        Ok(DeviceRom { family: family_of(raw), serial: serial_of(raw), crc: check_byte(raw) })
    }
}

fn crc_step_exec(crc: u8, bit: u8) -> (r: u8)
    ensures
        r == crc_step(crc, bit),
{
    if (crc ^ bit) & 1 == 1 {
        (crc >> 1u8) ^ 0x8c
    } else {
        crc >> 1u8
    }
}

/// CRC-8 (Dallas/Maxim) of the 56 low bits of `raw`, taken least-significant bit first.
pub fn crc8(raw: u64) -> (r: u8)
    ensures
        r == rom_crc(raw),
{
    let mut crc: u8 = 0;
    let mut i: u64 = 0;
    while i < 56
        invariant
            i <= 56,
            crc == crc_of_bits(raw, i as nat),
        decreases 56 - i,
    {
        let bit = ((raw >> i) & 1) as u8;
        crc = crc_step_exec(crc, bit);
        i = i + 1;
    }
    crc
}

/// Completes a 56-bit payload (family code and serial; higher bits are ignored) into a
/// ROM by appending its CRC-8 as the most-significant byte.
pub fn seal_rom(payload: u64) -> (raw: u64)
    ensures
        raw & PAYLOAD_MASK == payload & PAYLOAD_MASK,
        check_byte(raw) == rom_crc(payload),
        crc_matches(raw),
{
    let low = payload & PAYLOAD_MASK;
    let crc = crc8(payload);
    let raw = low | ((crc as u64) << 56u64);
    proof {
        assert(raw & PAYLOAD_MASK == low) by (bit_vector)
            requires
                low == payload & 0x00ff_ffff_ffff_ffff,
                raw == low | ((crc as u64) << 56u64),
        ;
        assert((raw >> 56u64) as u8 == crc) by (bit_vector)
            requires
                low == payload & 0x00ff_ffff_ffff_ffff,
                raw == low | ((crc as u64) << 56u64),
        ;
        lemma_crc_depends_on_payload(raw, payload);
    }
    raw
}

impl DeviceRom {
    /// Validates the 64 bits read from a device: the check byte must be the CRC-8 of the
    /// other seven, and the family code must be the temperature sensor's.
    pub fn parse(raw: u64) -> (r: Result<DeviceRom, ProtocolError>)
        ensures
            r == rom_outcome(raw),
    {
        let crc = crc8(raw);
        let check = (raw >> 56u64) as u8;
        if check != crc {
            return Err(ProtocolError::Crc);
        }
        let family = (raw & 0xff) as u8;
        if family != SENSOR_FAMILY {
            return Err(ProtocolError::UnexpectedFamily);
        }
        Ok(DeviceRom { family, serial: (raw >> 8u64) & 0xffff_ffff_ffff, crc: check })
    }
}

proof fn lemma_crc_step_linear(c1: u8, b1: u8, c2: u8, b2: u8)
    ensures
        crc_step(c1 ^ c2, b1 ^ b2) == crc_step(c1, b1) ^ crc_step(c2, b2),
{
    let l = crc_step(c1 ^ c2, b1 ^ b2);
    let r1 = crc_step(c1, b1);
    let r2 = crc_step(c2, b2);
    assert(l == r1 ^ r2) by (bit_vector)
        requires
            l == (if ((c1 ^ c2) ^ (b1 ^ b2)) & 1 == 1 {
                ((c1 ^ c2) >> 1u8) ^ 0x8c
            } else {
                (c1 ^ c2) >> 1u8
            }),
            r1 == (if (c1 ^ b1) & 1 == 1 {
                (c1 >> 1u8) ^ 0x8c
            } else {
                c1 >> 1u8
            }),
            r2 == (if (c2 ^ b2) & 1 == 1 {
                (c2 >> 1u8) ^ 0x8c
            } else {
                c2 >> 1u8
            }),
    ;
}

proof fn lemma_bit_of_xor(a: u64, b: u64, i: nat)
    requires
        i < 64,
    ensures
        bit_of(a ^ b, i) == bit_of(a, i) ^ bit_of(b, i),
{
    let s = i as u64;
    assert((((a ^ b) >> s) & 1) as u8 == (((a >> s) & 1) as u8) ^ (((b >> s) & 1) as u8))
        by (bit_vector);
}

/// The CRC is linear: the CRC of the exclusive or of two values is the exclusive or
/// of their CRCs.
proof fn lemma_crc_linear(a: u64, b: u64, n: nat)
    requires
        n <= 64,
    ensures
        crc_of_bits(a ^ b, n) == crc_of_bits(a, n) ^ crc_of_bits(b, n),
    decreases n,
{
    if n > 0 {
        let m = (n - 1) as nat;
        lemma_crc_linear(a, b, m);
        lemma_bit_of_xor(a, b, m);
        lemma_crc_step_linear(crc_of_bits(a, m), bit_of(a, m), crc_of_bits(b, m), bit_of(b, m));
        assert(0u8 ^ 0u8 == 0u8) by (bit_vector);
    } else {
        assert(0u8 ^ 0u8 == 0u8) by (bit_vector);
    }
}

/// Two values that agree on their `n` low bits have the same CRC over those bits.
proof fn lemma_crc_depends_on_low_bits(a: u64, b: u64, n: nat)
    requires
        n <= 64,
        forall|i: nat| i < n ==> bit_of(a, i) == bit_of(b, i),
    ensures
        crc_of_bits(a, n) == crc_of_bits(b, n),
    decreases n,
{
    if n > 0 {
        lemma_crc_depends_on_low_bits(a, b, (n - 1) as nat);
    }
}

/// The CRC over the payload sees only the 56 low bits.
proof fn lemma_crc_depends_on_payload(a: u64, b: u64)
    requires
        a & PAYLOAD_MASK == b & PAYLOAD_MASK,
    ensures
        rom_crc(a) == rom_crc(b),
{
    assert forall|i: nat| i < 56 implies bit_of(a, i) == bit_of(b, i) by {
        let s = i as u64;
        assert(((a >> s) & 1) as u8 == ((b >> s) & 1) as u8) by (bit_vector)
            requires
                a & 0x00ff_ffff_ffff_ffff == b & 0x00ff_ffff_ffff_ffff,
                s < 56,
        ;
    }
    lemma_crc_depends_on_low_bits(a, b, 56);
}

/// Once the register holds a nonzero value, zero input bits never clear it.
proof fn lemma_crc_zero_bits_keep_nonzero(e: u64, k: nat, n: nat)
    requires
        k < n <= 64,
        crc_of_bits(e, k + 1) != 0,
        forall|i: nat| k < i < n ==> bit_of(e, i) == 0,
    ensures
        crc_of_bits(e, n) != 0,
    decreases n,
{
    if n > k + 1 {
        let m = (n - 1) as nat;
        lemma_crc_zero_bits_keep_nonzero(e, k, m);
        let c = crc_of_bits(e, m);
        assert(c != 0 ==> crc_step(c, 0) != 0) by (bit_vector);
    }
}

/// The CRC of a single set bit among the 56 payload bits is nonzero.
proof fn lemma_crc_single_bit_nonzero(k: nat)
    requires
        k < 56,
    ensures
        rom_crc(1u64 << (k as u64)) != 0,
{
    let e = 1u64 << (k as u64);
    let s = k as u64;
    assert forall|i: nat| i < 64 && i != k implies bit_of(e, i) == 0 by {
        let t = i as u64;
        assert((((1u64 << s) >> t) & 1) as u8 == 0) by (bit_vector)
            requires
                s < 64,
                t < 64,
                s != t,
        ;
    }
    assert(((1u64 << s) >> s) & 1 == 1) by (bit_vector)
        requires
            s < 64,
    ;
    assert forall|i: nat| i < 64 implies bit_of(0u64, i) == 0 by {
        let t = i as u64;
        assert((((0u64 >> t) & 1) as u8) == 0) by (bit_vector);
    }
    assert(crc_of_bits(e, k) == 0) by {
        lemma_crc_depends_on_low_bits(e, 0, k);
        lemma_crc_of_zero(k);
    }
    assert(crc_step(0, 1) == 0x8c) by (bit_vector);
    lemma_crc_zero_bits_keep_nonzero(e, k, 56);
}

proof fn lemma_crc_of_zero(n: nat)
    requires
        n <= 64,
    ensures
        crc_of_bits(0, n) == 0,
    decreases n,
{
    if n > 0 {
        lemma_crc_of_zero((n - 1) as nat);
        let m = (n - 1) as nat;
        let t = m as u64;
        assert((((0u64 >> t) & 1) as u8) == 0) by (bit_vector);
        assert(crc_step(0, 0) == 0) by (bit_vector);
    }
}

/// A payload completed with its CRC passes the check, and flipping any single one of the
/// 64 bits of that ROM makes the check fail: every single-bit error is detected.
pub proof fn lemma_crc_detects_single_bit_errors(payload: u64, k: nat)
    requires
        k < 64,
    ensures
        crc_matches((payload & PAYLOAD_MASK) | ((rom_crc(payload) as u64) << 56u64)),
        !crc_matches(((payload & PAYLOAD_MASK) | ((rom_crc(payload) as u64) << 56u64)) ^ (1u64
            << (k as u64))),
        rom_outcome(((payload & PAYLOAD_MASK) | ((rom_crc(payload) as u64) << 56u64)) ^ (1u64
            << (k as u64))) == Err::<DeviceRom, ProtocolError>(ProtocolError::Crc),
{
    let low = payload & PAYLOAD_MASK;
    let crc = rom_crc(payload);
    let raw = low | ((crc as u64) << 56u64);
    let s = k as u64;
    let e = 1u64 << s;
    let flipped = raw ^ e;
    assert(raw & PAYLOAD_MASK == low) by (bit_vector)
        requires
            low == payload & 0x00ff_ffff_ffff_ffff,
            raw == low | ((crc as u64) << 56u64),
    ;
    assert((raw >> 56u64) as u8 == crc) by (bit_vector)
        requires
            low == payload & 0x00ff_ffff_ffff_ffff,
            raw == low | ((crc as u64) << 56u64),
    ;
    assert(low & PAYLOAD_MASK == payload & PAYLOAD_MASK) by (bit_vector)
        requires
            low == payload & 0x00ff_ffff_ffff_ffff,
    ;
    lemma_crc_depends_on_payload(raw, payload);
    lemma_crc_linear(raw, e, 56);
    if k < 56 {
        lemma_crc_single_bit_nonzero(k);
        assert((flipped >> 56u64) as u8 == (raw >> 56u64) as u8) by (bit_vector)
            requires
                flipped == raw ^ (1u64 << s),
                s < 56,
        ;
        let c = rom_crc(raw);
        let d = rom_crc(e);
        assert(d != 0 ==> c ^ d != c) by (bit_vector);
    } else {
        assert(e & PAYLOAD_MASK == 0u64 & PAYLOAD_MASK) by (bit_vector)
            requires
                e == 1u64 << s,
                56 <= s < 64,
        ;
        lemma_crc_depends_on_payload(e, 0);
        lemma_crc_of_zero(56);
        let t = (s - 56) as u64;
        assert((flipped >> 56u64) as u8 == ((raw >> 56u64) as u8) ^ ((1u64 << t) as u8))
            by (bit_vector)
            requires
                flipped == raw ^ (1u64 << s),
                56 <= s < 64,
                t == s - 56,
        ;
        let c = rom_crc(raw);
        let h = (raw >> 56u64) as u8;
        assert(h ^ ((1u64 << t) as u8) != h) by (bit_vector)
            requires
                t < 8,
        ;
        assert(c ^ 0u8 == c) by (bit_vector);
    }
}

} // verus!
