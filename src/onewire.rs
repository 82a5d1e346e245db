use vstd::prelude::*;

use crate::error::ProtocolError;
use crate::rom::{rom_outcome, DeviceRom};

verus! {

/// Command byte that asks the only device on the bus for its 64-bit ROM.
pub const READ_ROM: u8 = 0x33;

/// Command byte that asks the devices how they are powered.
pub const READ_POWER_SUPPLY: u8 = 0xb4;

/// Master reset pulse: the line is held low this long.
pub const RESET_LOW_US: u32 = 480;

/// Wait after the reset pulse before the line is sampled for a presence pulse.
pub const PRESENCE_SAMPLE_US: u32 = 70;

/// Rest of the presence window after the sample.
pub const RESET_RECOVER_US: u32 = 410;

/// Low pulse that opens a write-1 slot.
pub const WRITE_ONE_LOW_US: u32 = 10;

/// Low pulse of a write-0 slot, which covers most of the slot.
pub const WRITE_ZERO_LOW_US: u32 = 60;

/// Wait after a write slot releases the line before the line is sampled.
pub const WRITE_SAMPLE_US: u32 = 1;

/// Rest of a write-1 slot after the sample.
pub const WRITE_ONE_RECOVER_US: u32 = 59;

/// Rest of a write-0 slot after the sample, so that both write slots last equally long.
pub const WRITE_ZERO_RECOVER_US: u32 = 9;

/// Low pulse that opens a read slot.
pub const READ_LOW_US: u32 = 1;

/// Offset after the release of a read slot at which the device's bit is sampled.
pub const READ_SAMPLE_US: u32 = 9;

/// Rest of a read slot after the sample, inter-slot recovery included.
pub const READ_RECOVER_US: u32 = 51;

/// One time slot on the bus. Every slot is run the same way: drive the line low, wait,
/// release it to the pull-up, wait, sample the line, wait out the rest of the slot.
#[derive(Clone, Copy, Debug, PartialEq, Eq, Structural)]
pub enum Slot {
    /// Reset pulse and presence detection; the sample is low when a device answered.
    Reset,
    /// Transmits a 1 bit; the sample must be high, else the line is held by someone else.
    WriteOne,
    /// Transmits a 0 bit; the sample carries no meaning.
    WriteZero,
    /// Receives one bit: the sampled level.
    Read,
}

/// The three waits of a slot, in microseconds.
#[derive(Clone, Copy, Debug, PartialEq, Eq, Structural)]
pub struct SlotTiming {
    /// How long the line is driven low.
    pub low_us: u32,
    /// How long after the release the line is sampled.
    pub sample_after_us: u32,
    /// How long the slot goes on after the sample.
    pub recover_us: u32,
}

/// The fixed waits of each kind of slot, set by the protocol's timing windows.
pub open spec fn slot_timing(slot: Slot) -> SlotTiming {
    match slot {
        Slot::Reset => SlotTiming {
            low_us: RESET_LOW_US,
            sample_after_us: PRESENCE_SAMPLE_US,
            recover_us: RESET_RECOVER_US,
        },
        Slot::WriteOne => SlotTiming {
            low_us: WRITE_ONE_LOW_US,
            sample_after_us: WRITE_SAMPLE_US,
            recover_us: WRITE_ONE_RECOVER_US,
        },
        Slot::WriteZero => SlotTiming {
            low_us: WRITE_ZERO_LOW_US,
            sample_after_us: WRITE_SAMPLE_US,
            recover_us: WRITE_ZERO_RECOVER_US,
        },
        Slot::Read => SlotTiming {
            low_us: READ_LOW_US,
            sample_after_us: READ_SAMPLE_US,
            recover_us: READ_RECOVER_US,
        },
    }
}

/// Whole length of a slot, in microseconds.
pub open spec fn slot_duration(slot: Slot) -> int {
    let t = slot_timing(slot);
    t.low_us + t.sample_after_us + t.recover_us
}

impl Slot {
    /// The waits with which this slot is run.
    pub fn timing(&self) -> (r: SlotTiming)
        ensures
            r == slot_timing(*self),
    {
        match self {
            Slot::Reset => SlotTiming {
                low_us: RESET_LOW_US,
                sample_after_us: PRESENCE_SAMPLE_US,
                recover_us: RESET_RECOVER_US,
            },
            Slot::WriteOne => SlotTiming {
                low_us: WRITE_ONE_LOW_US,
                sample_after_us: WRITE_SAMPLE_US,
                recover_us: WRITE_ONE_RECOVER_US,
            },
            Slot::WriteZero => SlotTiming {
                low_us: WRITE_ZERO_LOW_US,
                sample_after_us: WRITE_SAMPLE_US,
                recover_us: WRITE_ZERO_RECOVER_US,
            },
            Slot::Read => SlotTiming {
                low_us: READ_LOW_US,
                sample_after_us: READ_SAMPLE_US,
                recover_us: READ_RECOVER_US,
            },
        }
    }
}

/// Both write slots last equally long, so the device samples them at the same offset.
pub proof fn lemma_write_slots_same_duration()
    ensures
        slot_duration(Slot::WriteOne) == slot_duration(Slot::WriteZero),
{
}

/// The slot that transmits bit `i` of `byte`; bytes go least-significant bit first.
pub open spec fn write_slot(byte: u8, i: nat) -> Slot {
    if (byte >> (i as u8)) & 1 == 1 {
        Slot::WriteOne
    } else {
        Slot::WriteZero
    }
}

/// `value` with bit `i` set when the sampled level was high.
pub open spec fn set_read_bit(value: u64, i: nat, high: bool) -> u64 {
    if high {
        value | (1u64 << (i as u64))
    } else {
        value
    }
}

/// The number that a run of read slots carries: the first sampled level is the
/// least-significant bit, a high level is a 1.
pub open spec fn levels_value(levels: Seq<bool>) -> u64
    decreases levels.len(),
{
    if levels.len() == 0 {
        0
    } else {
        set_read_bit(
            levels_value(levels.drop_last()),
            (levels.len() - 1) as nat,
            levels.last(),
        )
    }
}

fn write_slot_exec(byte: u8, i: u8) -> (r: Slot)
    requires
        i < 8,
    ensures
        r == write_slot(byte, i as nat),
{
    if (byte >> i) & 1 == 1 {
        Slot::WriteOne
    } else {
        Slot::WriteZero
    }
}

/// The eight write slots that transmit `byte`, least-significant bit first.
pub fn encode_byte(byte: u8) -> (r: Vec<Slot>)
    ensures
        r@.len() == 8,
        forall|i: int| 0 <= i < 8 ==> r@[i] == write_slot(byte, i as nat),
{
    let mut r: Vec<Slot> = Vec::new();
    let mut i: u8 = 0;
    while i < 8
        invariant
            i <= 8,
            r@.len() == i,
            forall|j: int| 0 <= j < i ==> r@[j] == write_slot(byte, j as nat),
        decreases 8 - i,
    {
        r.push(write_slot_exec(byte, i));
        i = i + 1;
    }
    r
}

proof fn lemma_set_read_bit_bound(v: u64, i: nat, high: bool)
    requires
        i < 64,
        v < (1u64 << (i as u64)),
    ensures
        i < 63 ==> set_read_bit(v, i, high) < (1u64 << ((i + 1) as u64)),
        high ==> set_read_bit(v, i, high) == v + (1u64 << (i as u64)),
{
    let s = i as u64;
    if high {
        assert(v | (1u64 << s) == v + (1u64 << s)) by (bit_vector)
            requires
                s < 64,
                v < (1u64 << s),
        ;
        if i < 63 {
            assert(v | (1u64 << s) < (1u64 << ((s + 1) as u64))) by (bit_vector)
                requires
                    s < 63,
                    v < (1u64 << s),
            ;
        }
    } else if i < 63 {
        assert(v < (1u64 << ((s + 1) as u64))) by (bit_vector)
            requires
                s < 63,
                v < (1u64 << s),
        ;
    }
}

/// A run of `n` levels carries a number below `2^n`.
proof fn lemma_levels_value_bound(levels: Seq<bool>)
    requires
        levels.len() < 64,
    ensures
        levels_value(levels) < (1u64 << (levels.len() as u64)),
    decreases levels.len(),
{
    if levels.len() == 0 {
        assert(0u64 < (1u64 << 0u64)) by (bit_vector);
    } else {
        let rest = levels.drop_last();
        lemma_levels_value_bound(rest);
        lemma_set_read_bit_bound(levels_value(rest), rest.len(), levels.last());
    }
}

/// The byte that eight read slots carry, the first sampled level being its
/// least-significant bit.
pub fn decode_byte(levels: &Vec<bool>) -> (r: u8)
    requires
        levels@.len() == 8,
    ensures
        r as u64 == levels_value(levels@),
{
    let mut value: u64 = 0;
    let mut i: usize = 0;
    assert(0u64 < (1u64 << 0u64)) by (bit_vector);
    while i < 8
        invariant
            i <= 8,
            levels@.len() == 8,
            value == levels_value(levels@.subrange(0, i as int)),
            value < (1u64 << (i as u64)),
        decreases 8 - i,
    {
        let ghost prefix = levels@.subrange(0, i as int);
        let ghost next = levels@.subrange(0, i + 1);
        assert(next.drop_last() =~= prefix);
        proof {
            lemma_set_read_bit_bound(value, i as nat, levels@[i as int]);
        }
        if levels[i] {
            value = value | (1u64 << i);
        }
        i = i + 1;
    }
    assert(levels@.subrange(0, 8) =~= levels@);
    assert(1u64 << 8u64 == 256) by (bit_vector);
    value as u8
}

/// The levels that a device echoing every written bit would give back for `byte`.
pub open spec fn loopback_levels(byte: u8) -> Seq<bool> {
    Seq::new(8, |i: int| write_slot(byte, i as nat) == Slot::WriteOne)
}

/// Writing a byte and reading back, from a device that echoes each bit, the levels its
/// write slots carried gives the byte again, for every byte.
pub proof fn lemma_byte_round_trip(byte: u8)
    ensures
        levels_value(loopback_levels(byte)) == byte as u64,
{
    let levels = loopback_levels(byte);
    let b = byte as u64;
    assert forall|k: nat| k <= 8 implies levels_value(levels.subrange(0, k as int)) == b & (((1u64
        << (k as u64)) - 1) as u64) by {
        lemma_round_trip_prefix(byte, k);
    }
    assert(levels.subrange(0, 8) =~= levels);
    assert(b & (((1u64 << 8u64) - 1) as u64) == b) by (bit_vector)
        requires
            b < 256,
    ;
}

proof fn lemma_round_trip_prefix(byte: u8, k: nat)
    requires
        k <= 8,
    ensures
        levels_value(loopback_levels(byte).subrange(0, k as int)) == (byte as u64) & (((1u64 << (
        k as u64)) - 1) as u64),
    decreases k,
{
    let levels = loopback_levels(byte);
    let b = byte as u64;
    if k == 0 {
        assert(b & (((1u64 << 0u64) - 1) as u64) == 0) by (bit_vector);
    } else {
        let m = (k - 1) as nat;
        lemma_round_trip_prefix(byte, m);
        assert(levels.subrange(0, k as int).drop_last() =~= levels.subrange(0, m as int));
        let s = m as u64;
        let t = m as u8;
        let high = (byte >> t) & 1 == 1;
        assert(levels[m as int] == high);
        let v = b & (((1u64 << s) - 1) as u64);
        let r = set_read_bit(v, m, high);
        assert(r == b & (((1u64 << ((s + 1) as u64)) - 1) as u64))
            by (bit_vector)
            requires
                s < 8,
                t == s,
                b == byte as u64,
                v == b & (((1u64 << s) - 1) as u64),
                high == ((byte >> t) & 1 == 1),
                r == (if high {
                    v | (1u64 << s)
                } else {
                    v
                }),
        ;
    }
}

/// The transactions the bus master runs.
#[derive(Clone, Copy, Debug, PartialEq, Eq, Structural)]
pub enum Command {
    /// Reads the 64-bit ROM of the only device on the bus.
    ReadRom,
    /// Asks whether the device draws its power from the data line.
    ReadPowerSupply,
}

/// How the device is powered.
#[derive(Clone, Copy, Debug, PartialEq, Eq, Structural)]
pub enum PowerMode {
    /// From the data line itself.
    Parasite,
    /// From its own supply pin.
    External,
}

/// What a completed transaction gives back.
#[derive(Clone, Copy, Debug, PartialEq, Eq, Structural)]
pub enum Reply {
    /// The validated ROM of a Read-ROM transaction.
    Rom(DeviceRom),
    /// The answer of a Read-Power-Supply transaction.
    Power(PowerMode),
}

/// What the bus master asks for next.
#[derive(Clone, Copy, Debug, PartialEq, Eq)]
pub enum Step {
    /// Run this slot on the line and hand back the level sampled in it.
    Run(Slot),
    /// The transaction is over, with this outcome.
    Done(Result<Reply, ProtocolError>),
}

/// The byte sent after the reset to select the transaction.
pub open spec fn command_code(command: Command) -> u8 {
    match command {
        Command::ReadRom => READ_ROM,
        Command::ReadPowerSupply => READ_POWER_SUPPLY,
    }
}

/// How many read slots follow the command byte.
pub open spec fn read_count(command: Command) -> nat {
    match command {
        Command::ReadRom => 64,
        Command::ReadPowerSupply => 1,
    }
}

/// Slots in a whole transaction: the reset, eight command bits, the reads.
pub open spec fn slot_count(command: Command) -> nat {
    9 + read_count(command)
}

/// The slot at position `pos` of a transaction: the reset first, then the command byte,
/// then the read slots.
pub open spec fn slot_at(command: Command, pos: nat) -> Slot {
    if pos == 0 {
        Slot::Reset
    } else if pos <= 8 {
        write_slot(command_code(command), (pos - 1) as nat)
    } else {
        Slot::Read
    }
}

/// The outcome of a transaction whose read slots all sampled `reads`.
pub open spec fn reply_of(command: Command, reads: Seq<bool>) -> Result<Reply, ProtocolError> {
    match command {
        Command::ReadRom => match rom_outcome(levels_value(reads)) {
            Ok(rom) => Ok(Reply::Rom(rom)),
            Err(e) => Err(e),
        },
        Command::ReadPowerSupply => Ok(
            Reply::Power(
                if reads[0] {
                    PowerMode::External
                } else {
                    PowerMode::Parasite
                },
            ),
        ),
    }
}

/// The state of the bus master: whether a transaction is in flight, which one, the
/// position of the slot just handed out, and the levels its read slots sampled so far.
pub struct Session {
    pub busy: bool,
    pub command: Command,
    pub pos: nat,
    pub reads: Seq<bool>,
}

/// The state after the slot at `s.pos` sampled the level `high`, and what the master asks
/// for next. A reset that nobody answers and a write-1 slot whose line stays low end the
/// transaction with an error; after the last read slot it ends with its outcome.
pub open spec fn next_step(s: Session, high: bool) -> (Session, Step) {
    if s.pos == 0 {
        if high {
            (Session { busy: false, ..s }, Step::Done(Err(ProtocolError::NoPresence)))
        } else {
            (Session { pos: 1, ..s }, Step::Run(slot_at(s.command, 1)))
        }
    } else if s.pos <= 8 {
        if slot_at(s.command, s.pos) == Slot::WriteOne && !high {
            (Session { busy: false, ..s }, Step::Done(Err(ProtocolError::BusContention)))
        } else {
            (Session { pos: s.pos + 1, ..s }, Step::Run(slot_at(s.command, s.pos + 1)))
        }
    } else {
        let reads = s.reads.push(high);
        if s.pos + 1 < slot_count(s.command) {
            (Session { pos: s.pos + 1, reads, ..s }, Step::Run(Slot::Read))
        } else {
            (
                Session { busy: false, pos: s.pos + 1, reads, ..s },
                Step::Done(reply_of(s.command, reads)),
            )
        }
    }
}

/// The bus master. It never touches the line itself: it says which slot to run next,
/// and is told the level sampled in it.
pub struct Thermometer {
    busy: bool,
    command: Command,
    pos: u32,
    data: u64,
    reads: Ghost<Seq<bool>>,
}

impl View for Thermometer {
    type V = Session;

    closed spec fn view(&self) -> Session {
        Session { busy: self.busy, command: self.command, pos: self.pos as nat, reads: self.reads@ }
    }
}

impl Thermometer {
    /// Slots handed out so far stay within the transaction, every read slot past the
    /// command byte has its level recorded, and the data word holds what they carry.
    pub closed spec fn wf(&self) -> bool {
        &&& self.pos <= slot_count(self.command)
        &&& self.busy ==> self.pos < slot_count(self.command)
        &&& self.reads@.len() == if self.pos >= 9 {
            self.pos - 9
        } else {
            0
        }
        &&& self.data == levels_value(self.reads@)
    }

    /// A bus master with no transaction in flight.
    pub fn new() -> (r: Thermometer)
        ensures
            r.wf(),
            !r@.busy,
    {
        Thermometer {
            busy: false,
            command: Command::ReadRom,
            pos: 0,
            data: 0,
            reads: Ghost(Seq::empty()),
        }
    }

    /// Whether a transaction is in flight.
    pub fn is_busy(&self) -> (r: bool)
        ensures
            r == self@.busy,
    {
        self.busy
    }

    /// Opens a transaction; its first slot, the reset, is returned.
    pub fn start(&mut self, command: Command) -> (r: Slot)
        requires
            !old(self)@.busy,
        ensures
            final(self).wf(),
            final(self)@ == (Session { busy: true, command, pos: 0, reads: Seq::empty() }),
            r == Slot::Reset,
            r == slot_at(command, 0),
    {
        self.busy = true;
        self.command = command;
        self.pos = 0;
        self.data = 0;
        self.reads = Ghost(Seq::empty());
        Slot::Reset
    }

    /// Opens a Read-ROM transaction: reset, the command byte, then 64 read slots whose
    /// bits are checked as a ROM.
    pub fn read_rom(&mut self) -> (r: Slot)
        requires
            !old(self)@.busy,
        ensures
            final(self).wf(),
            final(self)@ == (Session {
                busy: true,
                command: Command::ReadRom,
                pos: 0,
                reads: Seq::empty(),
            }),
            r == Slot::Reset,
    {
        self.start(Command::ReadRom)
    }

    /// Opens a Read-Power-Supply transaction: reset, the command byte, then one read slot,
    /// low when the device is parasite-powered.
    pub fn is_parasite_mode(&mut self) -> (r: Slot)
        requires
            !old(self)@.busy,
        ensures
            final(self).wf(),
            final(self)@ == (Session {
                busy: true,
                command: Command::ReadPowerSupply,
                pos: 0,
                reads: Seq::empty(),
            }),
            r == Slot::Reset,
    {
        self.start(Command::ReadPowerSupply)
    }

    /// Takes the level sampled in the slot last handed out, and says what comes next.
    pub fn advance(&mut self, line_high: bool) -> (r: Step)
        requires
            old(self).wf(),
            old(self)@.busy,
        ensures
            final(self).wf(),
            (final(self)@, r) == next_step(old(self)@, line_high),
    {
        let code = match self.command {
            Command::ReadRom => READ_ROM,
            Command::ReadPowerSupply => READ_POWER_SUPPLY,
        };
        let pos = self.pos;
        if pos == 0 {
            if line_high {
                self.busy = false;
                return Step::Done(Err(ProtocolError::NoPresence));
            }
            self.pos = 1;
            return Step::Run(write_slot_exec(code, 0));
        }
        if pos <= 8 {
            let slot = write_slot_exec(code, (pos - 1) as u8);
            if slot == Slot::WriteOne && !line_high {
                self.busy = false;
                return Step::Done(Err(ProtocolError::BusContention));
            }
            self.pos = pos + 1;
            if pos < 8 {
                return Step::Run(write_slot_exec(code, pos as u8));
            }
            return Step::Run(Slot::Read);
        }
        let i = pos - 9;
        if line_high {
            self.data = self.data | (1u64 << i);
        }
        let ghost reads = self.reads@.push(line_high);
        assert(reads.drop_last() =~= self.reads@);
        self.reads = Ghost(reads);
        self.pos = pos + 1;
        let last = match self.command {
            Command::ReadRom => 73,
            Command::ReadPowerSupply => 10,
        };
        if pos + 1 < last {
            return Step::Run(Slot::Read);
        }
        self.busy = false;
        match self.command {
            Command::ReadRom => match DeviceRom::parse(self.data) {
                Ok(rom) => Step::Done(Ok(Reply::Rom(rom))),
                Err(e) => Step::Done(Err(e)),
            },
            Command::ReadPowerSupply => {
                let mode = if line_high {
                    PowerMode::External
                } else {
                    PowerMode::Parasite
                };
                Step::Done(Ok(Reply::Power(mode)))
            },
        }
    }
}

/// A reset succeeds whenever the device answers with its presence pulse, whatever came
/// before: the transaction goes on to the command byte. Without an answer it fails.
pub proof fn lemma_reset_answered(s: Session)
    requires
        s.pos == 0,
    ensures
        next_step(s, false) == (Session { pos: 1, ..s }, Step::Run(slot_at(s.command, 1))),
        next_step(s, true).1 == Step::Done(Err(ProtocolError::NoPresence)),
{
}

} // verus!
