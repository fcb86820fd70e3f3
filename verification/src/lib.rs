//! A generic driver for the MAX31865 RTD to Digital converter
//!
//! The driver talks to the chip over a serial bus in SPI mode 3, frames each
//! register access by the chip-select line, and converts the raw sample of
//! the chip to a resistance and to a temperature.
//!
//! # References
//! - Datasheet: https://datasheets.maximintegrated.com/en/ds/MAX31865.pdf

use vstd::prelude::*;

pub mod bus;
pub mod protocol;
pub mod temp_conversion;

pub use bus::{InputPin, Lines, OutputPin, SpiBus};
pub use protocol::{Error, FilterMode, Register, SensorType};

use protocol::{
    conclude, config_bits, config_byte, fault_of, first_fault, lemma_first_fault_concat,
    ohms_from_raw, raw_value, read_access, read_frame, reply_byte, reply_of, sample_access,
    sample_of, sample_ohms, write_access, write_frame, LineEvent,
};
use temp_conversion::{
    lemma_pt100_saturates, lookup_vec_pt100, ohms_pt100, saturate, table_temperature, LookupToI32,
};

verus! {

/// The reference resistance of a new driver, in hundredths of an ohm.
pub const DEFAULT_CALIBRATION: u32 = 40000;

/// The driver of one chip.
pub struct Max31865<SPI, NCS, RDY> {
    lines: Lines<SPI, NCS, RDY>,
    calibration: u32,
}

impl<E, SPI, NCS, RDY> Max31865<SPI, NCS, RDY> where
    SPI: SpiBus<Error = E>,
    NCS: OutputPin,
    RDY: InputPin,
 {
    /// The reference resistance, in hundredths of an ohm.
    pub closed spec fn calibration(&self) -> u32 {
        self.calibration
    }

    /// The operations on chip-select and on the bus that the driver has
    /// issued so far, in their order.
    pub closed spec fn journal(&self) -> Seq<LineEvent> {
        self.lines.journal()
    }

    /// The pin on which the chip signals that a conversion is ready.
    pub closed spec fn ready_line(&self) -> &RDY {
        self.lines.ready_line()
    }

    /// The last operation that the driver issued was an attempt to release
    /// chip-select.
    pub open spec fn released(&self) -> bool {
        self.journal().len() > 0 && self.journal().last().releases()
    }

    /// The driver has gone on from the state `before`: it has the same
    /// reference resistance, and has added operations to the journal.
    pub open spec fn continues(&self, before: &Self) -> bool {
        &&& self.calibration() == before.calibration()
        &&& before.journal().is_prefix_of(self.journal())
    }

    /// The operations that the driver has issued since the state `before`.
    pub open spec fn added(&self, before: &Self) -> Seq<LineEvent> {
        self.journal().skip(before.journal().len() as int)
    }

    /// Create a new MAX31865 module.
    ///
    /// # Arguments
    ///
    /// * `spi` - The SPI module to communicate on.
    /// * `ncs` - The chip select pin which should be set to a push pull output
    ///           pin.
    /// * `rdy` - The ready pin which is set low by the MAX31865 controller
    ///           whenever it has finished converting the output.
    ///
    /// Chip-select is driven high at once. If the pin refuses, the result is
    /// `PinError`.
    pub fn new(spi: SPI, ncs: NCS, rdy: RDY) -> (created: Result<Max31865<SPI, NCS, RDY>, Error<E>>)
        ensures
            match created {
                Ok(driver) => {
                    &&& driver.calibration() == DEFAULT_CALIBRATION
                    &&& driver.journal() == Seq::<LineEvent>::empty().push(
                        LineEvent::ChipSelect { asserted: false, done: true },
                    )
                    &&& driver.released()
                },
                Err(e) => e is PinError,
            },
    {
        let mut lines = Lines::open(spi, ncs, rdy);
        let released = lines.release();
        Max31865::started(lines, released)
    }

    /// The driver on `lines`, once the release of chip-select has been
    /// attempted on them with the result `released`. If the pin took the
    /// release, the driver holds the lines and the default reference
    /// resistance. If it did not, there is no driver, and the result is
    /// `PinError`.
    pub fn started(lines: Lines<SPI, NCS, RDY>, released: Result<(), Error<E>>) -> (created: Result<
        Max31865<SPI, NCS, RDY>,
        Error<E>,
    >)
        ensures
            released is Ok ==> (created matches Ok(driver) && driver.calibration()
                == DEFAULT_CALIBRATION && driver.journal() == lines.journal()
                && driver.ready_line() == lines.ready_line()),
            released is Err ==> (created matches Err(e) && e is PinError),
    {
        match released {
            Ok(()) => Ok(Max31865 { lines, calibration: DEFAULT_CALIBRATION }),
            Err(_) => Err(Error::PinError),
        }
    }

    /// Updates the devices configuration.
    ///
    /// # Arguments
    /// * `vbias` - Set to `true` to enable V_BIAS voltage, which is required to
    ///             correctly perform conversion.
    /// * `conversion_mode` - `true` to automatically perform conversion,
    ///                       otherwise normally off.
    /// * `one_shot` - Only perform detection once if set to `true`, otherwise
    ///             repeats conversion.
    /// * `sensor_type` - Define whether a two, three or four wire sensor is
    ///                   used.
    /// * `filter_mode` - Specify the mains frequency that should be used to
    ///                   filter out noise, e.g. 50Hz in Europe.
    ///
    /// # Remarks
    ///
    /// This will update the configuration register of the MAX31865 register. If
    /// the device doesn't properly react to this, add a delay after calling
    /// `new` to increase the time that the chip select line is set high.
    ///
    /// *Note*: The correct sensor configuration also requires changes to the
    /// PCB! Make sure to read the data sheet concerning this.
    pub fn configure(
        &mut self,
        vbias: bool,
        conversion_mode: bool,
        one_shot: bool,
        sensor_type: SensorType,
        filter_mode: FilterMode,
    ) -> (configured: Result<(), Error<E>>)
        ensures
            final(self).continues(old(self)),
            final(self).released(),
            write_access(
                final(self).added(old(self)),
                Register::Config.write_frame_address(),
                config_bits(vbias, conversion_mode, one_shot, sensor_type, filter_mode) as u8,
            ),
            fault_of(configured) == first_fault(final(self).added(old(self))),
    {
        let conf: u8 = config_byte(vbias, conversion_mode, one_shot, sensor_type, filter_mode);
        self.write(Register::Config, conf)
    }

    /// Set the calibration reference resistance. This can be used to calibrate
    /// inaccuracies of both the reference resistor and the PT100 element.
    ///
    /// # Arguments
    ///
    /// * `calib` - A 32 bit integer specifying the reference resistance in ohms
    ///             multiplied by 100, e.g. `40000` for 400 Ohms
    ///
    /// # Remarks
    ///
    /// You can perform calibration by putting the sensor in boiling (100
    /// degrees Celsius) water and then measuring the raw value using
    /// `read_raw`. Calculate `calib` as `(13851 << 15) / raw >> 1`.
    pub fn set_calibration(&mut self, calib: u32)
        ensures
            final(self).calibration() == calib,
            final(self).journal() == old(self).journal(),
    {
        self.calibration = calib;
    }

    /// Read the raw resistance value.
    ///
    /// # Remarks
    ///
    /// The output value is the value in Ohms multiplied by 100.
    pub fn read_ohms(&mut self) -> (ohms: Result<u32, Error<E>>)
        ensures
            final(self).continues(old(self)),
            final(self).released(),
            sample_access(final(self).added(old(self))),
            fault_of(ohms) == first_fault(final(self).added(old(self))),
            ohms matches Ok(value) ==> value == sample_ohms(
                sample_of(final(self).added(old(self))),
                old(self).calibration() as int,
            ),
    {
        match self.read_raw() {
            Ok(raw) => Ok(ohms_from_raw(raw, self.calibration)),
            Err(e) => Err(e),
        }
    }

    /// Read the raw resistance value and then perform conversion to degrees Celsius.
    ///
    /// # Remarks
    ///
    /// The output value is the value in degrees Celsius multiplied by 100.
    pub fn read_default_conversion(&mut self) -> (celsius: Result<i32, Error<E>>)
        ensures
            final(self).continues(old(self)),
            final(self).released(),
            sample_access(final(self).added(old(self))),
            fault_of(celsius) == first_fault(final(self).added(old(self))),
            celsius matches Ok(value) ==> value == saturate(
                table_temperature(
                    ohms_pt100(),
                    -200,
                    20,
                    sample_ohms(
                        sample_of(final(self).added(old(self))),
                        old(self).calibration() as int,
                    ),
                ),
            ),
    {
        match self.read_ohms() {
            Ok(ohms) => Ok(default_conversion(ohms)),
            Err(e) => Err(e),
        }
    }

    /// Read the raw RTD value.
    ///
    /// # Remarks
    ///
    /// The raw value is the value of the combined MSB and LSB registers.
    /// The first 15 bits specify the ohmic value in relation to the reference
    /// resistor (i.e. 2^15 - 1 would be the exact same resistance as the reference
    /// resistor). See manual for further information.
    /// The last bit specifies if the conversion was successful.
    pub fn read_raw(&mut self) -> (raw: Result<u16, Error<E>>)
        ensures
            final(self).continues(old(self)),
            final(self).released(),
            sample_access(final(self).added(old(self))),
            fault_of(raw) == first_fault(final(self).added(old(self))),
            raw matches Ok(sample) ==> sample == sample_of(final(self).added(old(self))),
    {
        let ghost before = self.journal();
        let msb: u8 = match self.read(Register::RtdMsb) {
            Ok(byte) => byte,
            Err(e) => {
                return Err(e);
            },
        };
        let ghost between = self.journal();
        let read_lsb = self.read(Register::RtdLsb);
        proof {
            let first = between.skip(before.len() as int);
            let second = self.journal().skip(between.len() as int);
            let both = self.journal().skip(before.len() as int);
            assert(both =~= first + second);
            assert(both.take(3) =~= first);
            assert(both.skip(3) =~= second);
            lemma_first_fault_concat(first, second);
        }
        match read_lsb {
            Ok(lsb) => Ok(raw_value(msb, lsb)),
            Err(e) => Err(e),
        }
    }

    /// Determine if a new conversion is available
    ///
    /// # Remarks
    ///
    /// When the module is finished converting the temperature it sets the
    /// ready pin to low. It is automatically returned to high upon reading the
    /// RTD registers.
    ///
    /// The result is what the ready pin answers when asked whether it is low,
    /// an error of the pin included. No line is driven and nothing is sent on
    /// the bus.
    pub fn is_ready(&self) -> (ready: Result<bool, RDY::Error>)
        ensures
            call_ensures(RDY::is_low, (self.ready_line(),), ready),
    {
        self.lines.is_low()
    }

    /// Reads the register `reg`: chip-select is asserted, the address byte
    /// and a zero byte are exchanged for two bytes of the chip, and
    /// chip-select is released, whether or not the exchange succeeded. The
    /// value of the register is the second byte.
    pub fn read(&mut self, reg: Register) -> (value: Result<u8, Error<E>>)
        ensures
            final(self).continues(old(self)),
            final(self).released(),
            read_access(final(self).added(old(self)), reg.read_frame_address()),
            fault_of(value) == first_fault(final(self).added(old(self))),
            value matches Ok(byte) ==> byte == reply_of(final(self).added(old(self))),
    {
        let ghost before = self.journal();
        let frame: [u8; 2] = read_frame(reg);
        let exchanged = match self.lines.select() {
            Ok(()) => match self.lines.exchange(frame) {
                Ok(received) => Ok(reply_byte(&received)),
                Err(e) => Err(e),
            },
            Err(e) => Err(e),
        };
        let released = self.lines.release();
        proof {
            let events = self.journal().skip(before.len() as int);
            assert(events =~= self.journal().subrange(before.len() as int, self.journal().len() as int));
            reveal_with_fuel(first_fault, 4);
        }
        conclude(exchanged, released)
    }

    /// Writes `val` to the register `reg`: chip-select is asserted, the
    /// address byte and `val` are written, and chip-select is released,
    /// whether or not the write succeeded.
    pub fn write(&mut self, reg: Register, val: u8) -> (written: Result<(), Error<E>>)
        ensures
            final(self).continues(old(self)),
            final(self).released(),
            write_access(final(self).added(old(self)), reg.write_frame_address(), val),
            fault_of(written) == first_fault(final(self).added(old(self))),
    {
        let ghost before = self.journal();
        let frame: [u8; 2] = write_frame(reg, val);
        let exchanged = match self.lines.select() {
            Ok(()) => self.lines.send(frame),
            Err(e) => Err(e),
        };
        let released = self.lines.release();
        proof {
            let events = self.journal().skip(before.len() as int);
            assert(events =~= self.journal().subrange(before.len() as int, self.journal().len() as int));
            reveal_with_fuel(first_fault, 4);
        }
        conclude(exchanged, released)
    }
}

/// Converts a resistance to a temperature with the table for PT100 sensors.
pub fn default_conversion(ohms: u32) -> (celsius: i32)
    ensures
        celsius == saturate(table_temperature(ohms_pt100(), -200, 20, ohms as int)),
{
    let table = lookup_vec_pt100();
    if ohms > i32::MAX as u32 {
        proof {
            lemma_pt100_saturates(i32::MAX as int);
            lemma_pt100_saturates(ohms as int);
        }
        table.lookup_temperature(i32::MAX)
    } else {
        table.lookup_temperature(ohms as i32)
    }
}

} // verus!
