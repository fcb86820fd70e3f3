//! The register-level protocol of the chip: addresses, the configuration
//! byte, the conversion of a raw sample, and the framing of a register access
//! by chip-select.

use vstd::prelude::*;

verus! {

/// The high bit of the address byte for a read access.
pub const READ_FLAG: u8 = 0x00;

/// The high bit of the address byte for a write access.
pub const WRITE_FLAG: u8 = 0x80;

/// The mains frequency whose noise the chip's notch filter rejects.
#[derive(Clone, Copy, Debug, PartialEq, Eq)]
pub enum FilterMode {
    Filter60Hz,
    Filter50Hz,
}

/// How the sensor is wired to the chip.
#[derive(Clone, Copy, Debug, PartialEq, Eq)]
pub enum SensorType {
    TwoOrFourWire,
    ThreeWire,
}

/// The registers of the chip.
#[derive(Clone, Copy, Debug, PartialEq, Eq)]
pub enum Register {
    Config,
    RtdMsb,
    RtdLsb,
    HighFaultThresholdMsb,
    HighFaultThresholdLsb,
    LowFaultThresholdMsb,
    LowFaultThresholdLsb,
    FaultStatus,
}

impl Register {
    /// The offset of the register in the chip's register map.
    pub open spec fn offset(self) -> u8 {
        match self {
            Register::Config => 0x00,
            Register::RtdMsb => 0x01,
            Register::RtdLsb => 0x02,
            Register::HighFaultThresholdMsb => 0x03,
            Register::HighFaultThresholdLsb => 0x04,
            Register::LowFaultThresholdMsb => 0x05,
            Register::LowFaultThresholdLsb => 0x06,
            Register::FaultStatus => 0x07,
        }
    }

    /// The address byte that starts a read of the register.
    pub open spec fn read_frame_address(self) -> u8 {
        self.offset()
    }

    /// The address byte that starts a write to the register.
    pub open spec fn write_frame_address(self) -> u8 {
        (self.offset() + 0x80) as u8
    }

    fn index(&self) -> (offset: u8)
        ensures
            offset == self.offset(),
    {
        match self {
            Register::Config => 0x00,
            Register::RtdMsb => 0x01,
            Register::RtdLsb => 0x02,
            Register::HighFaultThresholdMsb => 0x03,
            Register::HighFaultThresholdLsb => 0x04,
            Register::LowFaultThresholdMsb => 0x05,
            Register::LowFaultThresholdLsb => 0x06,
            Register::FaultStatus => 0x07,
        }
    }

    /// The address byte that starts a read of the register: its offset with
    /// the high bit clear.
    pub fn read_address(&self) -> (address: u8)
        ensures
            address == self.read_frame_address(),
    {
        let offset: u8 = self.index();
        assert(offset | 0x00 == offset) by (bit_vector);
        offset | READ_FLAG
    }

    /// The address byte that starts a write to the register: its offset with
    /// the high bit set.
    pub fn write_address(&self) -> (address: u8)
        ensures
            address == self.write_frame_address(),
    {
        let offset: u8 = self.index();
        assert(offset | 0x80 == offset + 0x80) by (bit_vector)
            requires
                offset <= 7,
        ;
        offset | WRITE_FLAG
    }
}

/// The configuration byte: bit 7 enables the bias voltage, bit 6 the
/// continuous conversion, bit 5 starts a single conversion, bit 4 selects the
/// three-wire mode and bit 0 the 50 Hz filter.
pub open spec fn config_bits(
    vbias: bool,
    conversion_mode: bool,
    one_shot: bool,
    sensor_type: SensorType,
    filter_mode: FilterMode,
) -> int {
    (if vbias { 0x80int } else { 0 })
    + (if conversion_mode { 0x40int } else { 0 })
    + (if one_shot { 0x20int } else { 0 })
    + (if sensor_type is ThreeWire { 0x10int } else { 0 })
    + (if filter_mode is Filter50Hz { 0x01int } else { 0 })
}

/// Packs the five settings into the byte of the configuration register.
pub fn config_byte(
    vbias: bool,
    conversion_mode: bool,
    one_shot: bool,
    sensor_type: SensorType,
    filter_mode: FilterMode,
) -> (conf: u8)
    ensures
        conf == config_bits(vbias, conversion_mode, one_shot, sensor_type, filter_mode),
{
    let bias: u8 = if vbias { 1 } else { 0 };
    let continuous: u8 = if conversion_mode { 1 } else { 0 };
    let single: u8 = if one_shot { 1 } else { 0 };
    let wiring: u8 = match sensor_type {
        SensorType::TwoOrFourWire => 0,
        SensorType::ThreeWire => 1,
    };
    let filter: u8 = match filter_mode {
        FilterMode::Filter60Hz => 0,
        FilterMode::Filter50Hz => 1,
    };
    assert((bias << 7) | (continuous << 6) | (single << 5) | (wiring << 4) | filter == bias * 0x80
        + continuous * 0x40 + single * 0x20 + wiring * 0x10 + filter) by (bit_vector)
        requires
            bias <= 1,
            continuous <= 1,
            single <= 1,
            wiring <= 1,
            filter <= 1,
    ;
    (bias << 7) | (continuous << 6) | (single << 5) | (wiring << 4) | filter
}

/// The raw sample: the byte of the MSB register above the byte of the LSB
/// register. Its lowest bit is the fault flag.
pub open spec fn raw_sample(msb: u8, lsb: u8) -> int {
    msb * 256 + lsb
}

/// Joins the bytes of the two RTD registers.
pub fn raw_value(msb: u8, lsb: u8) -> (raw: u16)
    ensures
        raw == raw_sample(msb, lsb),
{
    let high: u16 = msb as u16;
    let low: u16 = lsb as u16;
    assert((high << 8) | low == high * 256 + low) by (bit_vector)
        requires
            high <= 0xff,
            low <= 0xff,
    ;
    (high << 8) | low
}

/// The resistance that a raw sample stands for: the fault flag is dropped,
/// and the 15 bits that remain scale the reference resistance `calibration`.
pub open spec fn sample_ohms(raw: int, calibration: int) -> int {
    ((raw / 2) * calibration) / 0x8000
}

/// Converts a raw sample to a resistance in hundredths of an ohm.
pub fn ohms_from_raw(raw: u16, calibration: u32) -> (ohms: u32)
    ensures
        ohms == sample_ohms(raw as int, calibration as int),
        ohms <= calibration,
{
    let ratio: u64 = (raw >> 1) as u64;
    assert(raw >> 1 == raw / 2) by (bit_vector);
    let reference: u64 = calibration as u64;
    assert(ratio * reference <= 0x7fff * reference && ratio * reference / 0x8000 <= reference)
        by (nonlinear_arith)
        requires
            0 <= ratio <= 0x7fff,
            0 <= reference,
    ;
    let scaled: u64 = ratio * reference;
    assert(scaled >> 15 == scaled / 0x8000) by (bit_vector);
    (scaled >> 15) as u32
}

/// Why an operation of the driver failed.
#[derive(Debug)]
pub enum Error<E> {
    /// The bus reported the error that is enclosed.
    SPIError(E),
    /// A pin could not be driven.
    PinError,
}

/// The kind of line that failed.
pub enum Fault {
    Pin,
    Bus,
}

/// One operation on the lines to the chip, with what the line reported of
/// it.
pub enum LineEvent {
    /// Chip-select was driven low to assert it, or high to release it; `done`
    /// tells whether the pin accepted that.
    ChipSelect { asserted: bool, done: bool },
    /// The bytes of `frame` were written in their order; `done` tells whether
    /// the bus accepted them.
    Write { frame: Seq<u8>, done: bool },
    /// The bytes of `sent` were sent in their order. Unless the bus failed,
    /// as many bytes came back meanwhile, and `received` holds them in the
    /// order in which they came.
    Transfer { sent: Seq<u8>, received: Option<Seq<u8>> },
}

impl LineEvent {
    /// The fault that the operation met, if it met one.
    pub open spec fn fault(self) -> Option<Fault> {
        match self {
            LineEvent::ChipSelect { done, .. } => if done {
                None
            } else {
                Some(Fault::Pin)
            },
            LineEvent::Write { done, .. } => if done {
                None
            } else {
                Some(Fault::Bus)
            },
            LineEvent::Transfer { received, .. } => if received is Some {
                None
            } else {
                Some(Fault::Bus)
            },
        }
    }

    /// The operation is an attempt to release chip-select.
    pub open spec fn releases(self) -> bool {
        self matches LineEvent::ChipSelect { asserted, .. } && !asserted
    }
}

/// The fault of the first operation among `events` that met one.
pub open spec fn first_fault(events: Seq<LineEvent>) -> Option<Fault>
    decreases events.len(),
{
    if events.len() == 0 {
        None
    } else if events[0].fault() is Some {
        events[0].fault()
    } else {
        first_fault(events.skip(1))
    }
}

/// The fault that a result of the driver reports.
pub open spec fn fault_of<T, E>(result: Result<T, Error<E>>) -> Option<Fault> {
    match result {
        Ok(_) => None,
        Err(Error::PinError) => Some(Fault::Pin),
        Err(Error::SPIError(_)) => Some(Fault::Bus),
    }
}

/// The operations of one register access. Chip-select is asserted first. If
/// the pin accepted that, the one bus operation `exchange` follows. An
/// attempt to release chip-select comes last in every case.
pub open spec fn framed(events: Seq<LineEvent>, exchange: spec_fn(LineEvent) -> bool) -> bool {
    &&& events.len() >= 2
    &&& events.first() matches LineEvent::ChipSelect { asserted: true, done }
    &&& if done {
        events.len() == 3 && exchange(events[1])
    } else {
        events.len() == 2
    }
    &&& events.last().releases()
}

/// The frame that writes `value` to the register at `address`: the address
/// byte, then the value.
pub open spec fn write_frame_bytes(address: u8, value: u8) -> Seq<u8> {
    seq![address, value]
}

/// The frame that reads the register at `address`: the address byte, then a
/// zero byte, during which the chip sends the register's value.
pub open spec fn read_frame_bytes(address: u8) -> Seq<u8> {
    seq![address, 0u8]
}

/// The operations of a write of `value` to the register at `address`.
pub open spec fn write_access(events: Seq<LineEvent>, address: u8, value: u8) -> bool {
    framed(
        events,
        |e: LineEvent| e matches LineEvent::Write { frame, .. } && frame == write_frame_bytes(address, value),
    )
}

/// The operations of a read of the register at `address`.
pub open spec fn read_access(events: Seq<LineEvent>, address: u8) -> bool {
    framed(
        events,
        |e: LineEvent| e matches LineEvent::Transfer { sent, .. } && sent == read_frame_bytes(address),
    )
}

/// The byte that a read access without a fault brought: of the two bytes
/// received, the one that came after the address byte had gone out.
pub open spec fn reply_of(events: Seq<LineEvent>) -> u8 {
    events[1]->received->0[1]
}

/// The operations of a read of the raw sample: a read of the MSB register
/// and, unless that met a fault, a read of the LSB register after it.
pub open spec fn sample_access(events: Seq<LineEvent>) -> bool {
    ||| {
        &&& read_access(events, Register::RtdMsb.read_frame_address())
        &&& first_fault(events) is Some
    }
    ||| {
        &&& events.len() > 3
        &&& read_access(events.take(3), Register::RtdMsb.read_frame_address())
        &&& first_fault(events.take(3)) is None
        &&& read_access(events.skip(3), Register::RtdLsb.read_frame_address())
    }
}

/// The raw sample that a read of it without a fault brought.
pub open spec fn sample_of(events: Seq<LineEvent>) -> int {
    raw_sample(reply_of(events.take(3)), reply_of(events.skip(3)))
}

/// The frame that writes `value` to the register `reg`.
pub fn write_frame(reg: Register, value: u8) -> (frame: [u8; 2])
    ensures
        frame@ == write_frame_bytes(reg.write_frame_address(), value),
{
    [reg.write_address(), value]
}

/// The frame that reads the register `reg`.
pub fn read_frame(reg: Register) -> (frame: [u8; 2])
    ensures
        frame@ == read_frame_bytes(reg.read_frame_address()),
{
    [reg.read_address(), 0]
}

/// The value of the register in the two bytes that a read brought: the
/// second byte, which came after the address byte had gone out.
pub fn reply_byte(received: &[u8; 2]) -> (byte: u8)
    ensures
        byte == received@[1],
{
    received[1]
}

/// The result of a register access from the result of its bus operation and
/// that of the release of chip-select after it: the first error of the two,
/// and the value of the bus operation if there is none.
pub fn conclude<T, E>(exchanged: Result<T, Error<E>>, released: Result<(), Error<E>>) -> (result:
    Result<T, Error<E>>)
    ensures
        result == match exchanged {
            Ok(value) => match released {
                Ok(_) => Ok(value),
                Err(e) => Err(e),
            },
            Err(e) => Err(e),
        },
{
    match exchanged {
        Ok(value) => match released {
            Ok(()) => Ok(value),
            Err(e) => Err(e),
        },
        Err(e) => Err(e),
    }
}

/// The first fault among the operations of `a` followed by those of `b` is
/// the first fault in `a`, or else the first fault in `b`.
pub proof fn lemma_first_fault_concat(a: Seq<LineEvent>, b: Seq<LineEvent>)
    ensures
        first_fault(a + b) == if first_fault(a) is Some {
            first_fault(a)
        } else {
            first_fault(b)
        },
    decreases a.len(),
{
    if a.len() == 0 {
        assert(a + b =~= b);
    } else {
        assert((a + b).skip(1) =~= a.skip(1) + b);
        lemma_first_fault_concat(a.skip(1), b);
    }
}

/// A register access ends with an attempt to release chip-select, whatever
/// its operations reported, and so does a read of the raw sample.
pub proof fn lemma_access_ends_released(
    events: Seq<LineEvent>,
    exchange: spec_fn(LineEvent) -> bool,
)
    ensures
        framed(events, exchange) ==> events.last().releases(),
        sample_access(events) ==> events.last().releases(),
{
    if events.len() > 3 {
        assert(events.skip(3).last() == events.last());
    }
}

} // verus!
