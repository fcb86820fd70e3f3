//! The lines that connect the driver to the chip: what the driver needs of a
//! bus and of a pin, and the one place from which it reaches them.

use vstd::prelude::*;

use crate::protocol::{Error, LineEvent};

verus! {

/// A serial bus in SPI mode 3: the clock idles high and data is captured on
/// its second transition.
pub trait SpiBus {
    /// What the bus reports when an operation fails.
    type Error;

    /// Sends `words` and ignores what comes back.
    fn write(&mut self, words: &[u8]) -> Result<(), Self::Error>;

    /// Sends `words` and overwrites them with the words received meanwhile.
    fn transfer(&mut self, words: &mut [u8]) -> Result<(), Self::Error>;
}

/// A digital output, such as the chip-select line.
pub trait OutputPin {
    /// What the pin reports when it cannot be driven.
    type Error;

    /// Drives the pin low.
    fn set_low(&mut self) -> Result<(), Self::Error>;

    /// Drives the pin high.
    fn set_high(&mut self) -> Result<(), Self::Error>;
}

/// A digital input, such as the ready line.
pub trait InputPin {
    /// What the pin reports when it cannot be read.
    type Error;

    /// Whether the pin is at the low level.
    fn is_low(&self) -> Result<bool, Self::Error>;
}

/// The lines to one chip: its bus, its chip-select and its ready line,
/// together with a journal of every operation made on the first two. Only
/// the methods of this type reach the lines and the journal, and each of
/// them enters what it did, and what the line answered, as it does it.
pub struct Lines<SPI, NCS, RDY> {
    spi: SPI,
    ncs: NCS,
    rdy: RDY,
    journal: Ghost<Seq<LineEvent>>,
}

impl<E, SPI, NCS, RDY> Lines<SPI, NCS, RDY> where
    SPI: SpiBus<Error = E>,
    NCS: OutputPin,
    RDY: InputPin,
 {
    /// The operations on chip-select and on the bus so far, in their order.
    pub closed spec fn journal(&self) -> Seq<LineEvent> {
        self.journal@
    }

    /// The pin on which the chip signals that a conversion is ready.
    pub closed spec fn ready_line(&self) -> &RDY {
        &self.rdy
    }

    /// Takes the lines, on which nothing has happened yet.
    pub fn open(spi: SPI, ncs: NCS, rdy: RDY) -> (lines: Self)
        ensures
            lines.journal() == Seq::<LineEvent>::empty(),
            lines.ready_line() == rdy,
    {
        Lines { spi, ncs, rdy, journal: Ghost(Seq::empty()) }
    }

    /// Drives chip-select low.
    pub fn select(&mut self) -> (selected: Result<(), Error<E>>)
        ensures
            final(self).journal() == old(self).journal().push(
                LineEvent::ChipSelect { asserted: true, done: selected is Ok },
            ),
            selected matches Err(e) ==> e is PinError,
    {
        let driven = self.ncs.set_low();
        proof {
            self.journal@ = self.journal@.push(
                LineEvent::ChipSelect { asserted: true, done: driven is Ok },
            );
        }
        match driven {
            Ok(()) => Ok(()),
            Err(_) => Err(Error::PinError),
        }
    }

    /// Drives chip-select high.
    pub fn release(&mut self) -> (released: Result<(), Error<E>>)
        ensures
            final(self).journal() == old(self).journal().push(
                LineEvent::ChipSelect { asserted: false, done: released is Ok },
            ),
            released matches Err(e) ==> e is PinError,
    {
        let driven = self.ncs.set_high();
        proof {
            self.journal@ = self.journal@.push(
                LineEvent::ChipSelect { asserted: false, done: driven is Ok },
            );
        }
        match driven {
            Ok(()) => Ok(()),
            Err(_) => Err(Error::PinError),
        }
    }

    /// Sends the two bytes of `frame` and returns the two bytes that came
    /// back meanwhile.
    pub fn exchange(&mut self, frame: [u8; 2]) -> (received: Result<[u8; 2], Error<E>>)
        ensures
            final(self).journal() == old(self).journal().push(
                LineEvent::Transfer {
                    sent: frame@,
                    received: match received {
                        Ok(bytes) => Some(bytes@),
                        Err(_) => None,
                    },
                },
            ),
            received matches Err(e) ==> e is SPIError,
    {
        let mut buffer: [u8; 2] = frame;
        let transferred = self.spi.transfer(&mut buffer);
        let received = match transferred {
            Ok(()) => Ok(buffer),
            Err(e) => Err(Error::SPIError(e)),
        };
        proof {
            self.journal@ = self.journal@.push(
                LineEvent::Transfer {
                    sent: frame@,
                    received: match received {
                        Ok(bytes) => Some(bytes@),
                        Err(_) => None,
                    },
                },
            );
        }
        received
    }

    /// Writes the two bytes of `frame`.
    pub fn send(&mut self, frame: [u8; 2]) -> (sent: Result<(), Error<E>>)
        ensures
            final(self).journal() == old(self).journal().push(
                LineEvent::Write { frame: frame@, done: sent is Ok },
            ),
            sent matches Err(e) ==> e is SPIError,
    {
        let written = self.spi.write(&frame);
        proof {
            self.journal@ = self.journal@.push(LineEvent::Write { frame: frame@, done: written is Ok });
        }
        match written {
            Ok(()) => Ok(()),
            Err(e) => Err(Error::SPIError(e)),
        }
    }

    /// Asks the ready line whether it is low. The result is the answer of
    /// the pin, an error of the pin included.
    pub fn is_low(&self) -> (low: Result<bool, RDY::Error>)
        ensures
            call_ensures(RDY::is_low, (self.ready_line(),), low),
    {
        self.rdy.is_low()
    }
}

} // verus!
