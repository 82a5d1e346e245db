use barbecue_burner::onewire::{
    decode_byte, encode_byte, Command, PowerMode, Reply, Slot, SlotTiming, Step, Thermometer,
    READ_POWER_SUPPLY, READ_ROM,
};
use barbecue_burner::rom::{seal_rom, DeviceRom, SENSOR_FAMILY};
use barbecue_burner::ProtocolError;

/// A single sensor on the line, answering each slot as the real device would.
struct SimulatedSensor {
    present: bool,
    line_stuck_low: bool,
    rom: u64,
    parasite: bool,
    written: Vec<bool>,
    reads: u32,
}

impl SimulatedSensor {
    fn new(rom: u64) -> SimulatedSensor {
        SimulatedSensor {
            present: true,
            line_stuck_low: false,
            rom,
            parasite: false,
            written: Vec::new(),
            reads: 0,
        }
    }

    fn command(&self) -> u8 {
        let mut byte: u8 = 0;
        for (i, bit) in self.written.iter().take(8).enumerate() {
            if *bit {
                byte |= 1 << i;
            }
        }
        byte
    }

    /// The level sampled in the slot: true when the line is high.
    fn respond(&mut self, slot: Slot) -> bool {
        match slot {
            Slot::Reset => {
                self.written.clear();
                self.reads = 0;
                !self.present
            }
            Slot::WriteOne => {
                self.written.push(true);
                !self.line_stuck_low
            }
            Slot::WriteZero => {
                self.written.push(false);
                !self.line_stuck_low
            }
            Slot::Read => {
                let level = match self.command() {
                    READ_ROM => (self.rom >> self.reads) & 1 == 1,
                    READ_POWER_SUPPLY => !self.parasite,
                    _ => true,
                };
                self.reads += 1;
                level
            }
        }
    }
}

/// Runs a transaction to its end; gives its outcome and the slots it took.
fn run(
    master: &mut Thermometer,
    first: Slot,
    sensor: &mut SimulatedSensor,
) -> (Result<Reply, ProtocolError>, Vec<Slot>) {
    let mut slots = vec![first];
    let mut slot = first;
    loop {
        let high = sensor.respond(slot);
        match master.advance(high) {
            Step::Run(next) => {
                slots.push(next);
                slot = next;
            }
            Step::Done(outcome) => return (outcome, slots),
        }
    }
}

fn sensor_rom() -> u64 {
    seal_rom(0x0000_0123_4567_8900 | SENSOR_FAMILY as u64)
}

#[test]
fn reset_succeeds_on_every_call() {
    let mut sensor = SimulatedSensor::new(sensor_rom());
    let mut master = Thermometer::new();
    for _ in 0..5 {
        let first = master.is_parasite_mode();
        assert_eq!(first, Slot::Reset);
        let (outcome, _) = run(&mut master, first, &mut sensor);
        assert_eq!(outcome, Ok(Reply::Power(PowerMode::External)));
        assert!(!master.is_busy());
    }
}

#[test]
fn missing_device_gives_no_presence() {
    let mut sensor = SimulatedSensor::new(sensor_rom());
    sensor.present = false;
    let mut master = Thermometer::new();
    let first = master.read_rom();
    let (outcome, slots) = run(&mut master, first, &mut sensor);
    assert_eq!(outcome, Err(ProtocolError::NoPresence));
    assert_eq!(slots, vec![Slot::Reset]);
    assert!(!master.is_busy());
}

#[test]
fn line_held_low_gives_bus_contention() {
    let mut sensor = SimulatedSensor::new(sensor_rom());
    sensor.line_stuck_low = true;
    let mut master = Thermometer::new();
    let first = master.read_rom();
    let (outcome, slots) = run(&mut master, first, &mut sensor);
    assert_eq!(outcome, Err(ProtocolError::BusContention));
    // 0x33 starts with a 1 bit: the first write slot already fails.
    assert_eq!(slots, vec![Slot::Reset, Slot::WriteOne]);
}

#[test]
fn read_rom_sends_command_and_reads_64_bits() {
    let rom = sensor_rom();
    let mut sensor = SimulatedSensor::new(rom);
    let mut master = Thermometer::new();
    let first = master.read_rom();
    let (outcome, slots) = run(&mut master, first, &mut sensor);
    assert_eq!(sensor.command(), READ_ROM);
    assert_eq!(slots.len(), 1 + 8 + 64);
    assert_eq!(
        outcome,
        Ok(Reply::Rom(DeviceRom {
            family: SENSOR_FAMILY,
            serial: 0x0123_4567_89,
            crc: (rom >> 56) as u8,
        }))
    );
}

#[test]
fn read_rom_with_corrupted_bit_gives_crc_error() {
    let mut sensor = SimulatedSensor::new(sensor_rom() ^ (1 << 20));
    let mut master = Thermometer::new();
    let first = master.read_rom();
    let (outcome, _) = run(&mut master, first, &mut sensor);
    assert_eq!(outcome, Err(ProtocolError::Crc));
}

#[test]
fn read_rom_of_other_family_is_rejected() {
    let mut sensor = SimulatedSensor::new(seal_rom(0x0000_0123_4567_8910));
    let mut master = Thermometer::new();
    let first = master.read_rom();
    let (outcome, _) = run(&mut master, first, &mut sensor);
    assert_eq!(outcome, Err(ProtocolError::UnexpectedFamily));
}

#[test]
fn power_supply_mode_follows_sampled_level() {
    let mut sensor = SimulatedSensor::new(sensor_rom());
    sensor.parasite = true;
    let mut master = Thermometer::new();
    let first = master.is_parasite_mode();
    let (outcome, slots) = run(&mut master, first, &mut sensor);
    assert_eq!(sensor.command(), READ_POWER_SUPPLY);
    assert_eq!(slots.len(), 1 + 8 + 1);
    assert_eq!(outcome, Ok(Reply::Power(PowerMode::Parasite)));

    sensor.parasite = false;
    let first = master.start(Command::ReadPowerSupply);
    let (outcome, _) = run(&mut master, first, &mut sensor);
    assert_eq!(outcome, Ok(Reply::Power(PowerMode::External)));
}

#[test]
fn command_byte_goes_least_significant_bit_first() {
    let slots = encode_byte(0xb4);
    let expected = vec![
        Slot::WriteZero,
        Slot::WriteZero,
        Slot::WriteOne,
        Slot::WriteZero,
        Slot::WriteOne,
        Slot::WriteOne,
        Slot::WriteZero,
        Slot::WriteOne,
    ];
    assert_eq!(slots, expected);
}

#[test]
fn byte_round_trips_through_loopback() {
    for byte in 0..=255u8 {
        let levels: Vec<bool> = encode_byte(byte).iter().map(|s| *s == Slot::WriteOne).collect();
        assert_eq!(decode_byte(&levels), byte);
    }
}

#[test]
fn decode_takes_first_level_as_lowest_bit() {
    let levels = vec![true, false, false, false, false, false, false, true];
    assert_eq!(decode_byte(&levels), 0x81);
    let levels = vec![false, true, true, false, false, false, false, false];
    assert_eq!(decode_byte(&levels), 0x06);
}

#[test]
fn slot_timings_are_fixed() {
    assert_eq!(
        Slot::Reset.timing(),
        SlotTiming { low_us: 480, sample_after_us: 70, recover_us: 410 }
    );
    assert_eq!(
        Slot::Read.timing(),
        SlotTiming { low_us: 1, sample_after_us: 9, recover_us: 51 }
    );
    let one = Slot::WriteOne.timing();
    let zero = Slot::WriteZero.timing();
    assert_eq!(one.low_us, 10);
    assert_eq!(zero.low_us, 60);
    assert_eq!(
        one.low_us + one.sample_after_us + one.recover_us,
        zero.low_us + zero.sample_after_us + zero.recover_us
    );
}
