use barbecue_burner::rom::{crc8, seal_rom, DeviceRom, PAYLOAD_MASK, SENSOR_FAMILY};
use barbecue_burner::ProtocolError;

#[test]
fn crc_matches_published_example() {
    // ROM 02 1C B8 01 00 00 00, least-significant byte first, has check byte A2.
    assert_eq!(crc8(0x0000_0000_01b8_1c02), 0xa2);
    assert_eq!(crc8(0xa200_0000_01b8_1c02), 0xa2);
    assert_eq!(crc8(0), 0);
}

#[test]
fn sealed_rom_appends_crc() {
    let raw = seal_rom(0xff00_0000_01b8_1c02);
    assert_eq!(raw, 0xa200_0000_01b8_1c02);
}

#[test]
fn sealed_payload_passes_and_every_single_bit_flip_fails() {
    let payloads = [
        0u64,
        SENSOR_FAMILY as u64,
        0x00ab_cdef_0123_4528,
        PAYLOAD_MASK,
        0x0012_3456_789a_bc28,
    ];
    for payload in payloads {
        let raw = seal_rom(payload);
        assert_eq!(crc8(raw), (raw >> 56) as u8);
        for k in 0..64 {
            assert_eq!(DeviceRom::parse(raw ^ (1u64 << k)), Err(ProtocolError::Crc));
        }
    }
}

#[test]
fn parse_accepts_sensor_rom() {
    let raw = seal_rom(0x0000_0a0b_0c0d_0e28);
    let rom = DeviceRom::parse(raw).unwrap();
    assert_eq!(rom.family, 0x28);
    assert_eq!(rom.serial, 0x0a0b_0c0d_0e);
    assert_eq!(rom.crc, (raw >> 56) as u8);
}

#[test]
fn parse_rejects_other_family() {
    assert_eq!(DeviceRom::parse(0xa200_0000_01b8_1c02), Err(ProtocolError::UnexpectedFamily));
}

#[test]
fn parse_rejects_bad_check_byte() {
    assert_eq!(DeviceRom::parse(0xa300_0000_01b8_1c02), Err(ProtocolError::Crc));
}
