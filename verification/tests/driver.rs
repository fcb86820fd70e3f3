use std::cell::RefCell;
use std::collections::VecDeque;
use std::rc::Rc;

use max31865::protocol::{
    config_byte, conclude, ohms_from_raw, raw_value, read_frame, reply_byte, write_frame,
    READ_FLAG, WRITE_FLAG,
};
use max31865::{
    default_conversion, Error, FilterMode, InputPin, Lines, Max31865, OutputPin, Register,
    SensorType, SpiBus, DEFAULT_CALIBRATION,
};

/// What happened on the simulated lines.
#[derive(Debug, Clone, PartialEq, Eq)]
enum Op {
    Low,
    High,
    Write(Vec<u8>),
    Transfer(Vec<u8>),
}

#[derive(Debug, Clone, Copy, PartialEq, Eq)]
struct BusFault(u8);

#[derive(Debug, Clone, Copy, PartialEq, Eq)]
struct PinFault;

/// A simulated chip: it records every operation, answers transfers with the
/// bytes queued in `replies`, and fails where it is told to.
#[derive(Default)]
struct Board {
    ops: Vec<Op>,
    select_is_high: Option<bool>,
    replies: VecDeque<u8>,
    transfers_before_bus_fails: Option<usize>,
    writes_fail: bool,
    low_fails: bool,
    high_fails: bool,
    ready_is_low: bool,
    ready_fails: bool,
}

struct Bus(Rc<RefCell<Board>>);

struct Select(Rc<RefCell<Board>>);

struct Ready(Rc<RefCell<Board>>);

impl SpiBus for Bus {
    type Error = BusFault;

    fn write(&mut self, words: &[u8]) -> Result<(), BusFault> {
        let mut board = self.0.borrow_mut();
        board.ops.push(Op::Write(words.to_vec()));
        if board.writes_fail {
            Err(BusFault(1))
        } else {
            Ok(())
        }
    }

    fn transfer(&mut self, words: &mut [u8]) -> Result<(), BusFault> {
        let mut board = self.0.borrow_mut();
        board.ops.push(Op::Transfer(words.to_vec()));
        match board.transfers_before_bus_fails {
            Some(0) => return Err(BusFault(2)),
            Some(n) => board.transfers_before_bus_fails = Some(n - 1),
            None => {}
        }
        // the chip sends nothing useful while it receives the address
        words[0] = 0xA5;
        for word in words[1..].iter_mut() {
            *word = board.replies.pop_front().unwrap();
        }
        Ok(())
    }
}

impl OutputPin for Select {
    type Error = PinFault;

    fn set_low(&mut self) -> Result<(), PinFault> {
        let mut board = self.0.borrow_mut();
        board.ops.push(Op::Low);
        if board.low_fails {
            Err(PinFault)
        } else {
            board.select_is_high = Some(false);
            Ok(())
        }
    }

    fn set_high(&mut self) -> Result<(), PinFault> {
        let mut board = self.0.borrow_mut();
        board.ops.push(Op::High);
        if board.high_fails {
            Err(PinFault)
        } else {
            board.select_is_high = Some(true);
            Ok(())
        }
    }
}

impl InputPin for Ready {
    type Error = PinFault;

    fn is_low(&self) -> Result<bool, PinFault> {
        let board = self.0.borrow();
        if board.ready_fails {
            Err(PinFault)
        } else {
            Ok(board.ready_is_low)
        }
    }
}

fn board() -> Rc<RefCell<Board>> {
    Rc::new(RefCell::new(Board::default()))
}

fn driver(board: &Rc<RefCell<Board>>) -> Max31865<Bus, Select, Ready> {
    let created = Max31865::new(Bus(board.clone()), Select(board.clone()), Ready(board.clone()));
    match created {
        Ok(driver) => {
            board.borrow_mut().ops.clear();
            driver
        }
        Err(_) => panic!("chip-select could not be driven"),
    }
}

fn ops(board: &Rc<RefCell<Board>>) -> Vec<Op> {
    board.borrow().ops.clone()
}

fn reply(board: &Rc<RefCell<Board>>, bytes: &[u8]) {
    board.borrow_mut().replies.extend(bytes.iter().copied());
}

#[test]
fn new_releases_chip_select() {
    let board = board();
    let created = Max31865::new(Bus(board.clone()), Select(board.clone()), Ready(board.clone()));
    assert!(created.is_ok());
    assert_eq!(ops(&board), vec![Op::High]);
    assert_eq!(board.borrow().select_is_high, Some(true));
}

#[test]
fn new_fails_with_pin_error() {
    let board = board();
    board.borrow_mut().high_fails = true;
    let created = Max31865::new(Bus(board.clone()), Select(board.clone()), Ready(board.clone()));
    assert!(matches!(created, Err(Error::PinError)));
    assert_eq!(ops(&board), vec![Op::High]);
}

#[test]
fn new_starts_with_the_default_calibration() {
    assert_eq!(DEFAULT_CALIBRATION, 40_000);
    let board = board();
    let mut driver = driver(&board);
    reply(&board, &[0x80, 0x00]);
    // half of the scale is half of twice the reference: 16384 * 40000 >> 15
    assert_eq!(driver.read_ohms().unwrap(), 20_000);
}

#[test]
fn configure_writes_the_control_byte() {
    let board = board();
    let mut driver = driver(&board);
    let configured =
        driver.configure(true, true, false, SensorType::ThreeWire, FilterMode::Filter50Hz);
    assert!(configured.is_ok());
    assert_eq!(
        ops(&board),
        vec![Op::Low, Op::Write(vec![0x80, 0b1101_0001]), Op::High]
    );
    assert_eq!(board.borrow().select_is_high, Some(true));
}

#[test]
fn configure_encodes_each_field_in_its_bit() {
    let off = (SensorType::TwoOrFourWire, FilterMode::Filter60Hz);
    assert_eq!(config_byte(false, false, false, off.0, off.1), 0b0000_0000);
    assert_eq!(config_byte(true, false, false, off.0, off.1), 0b1000_0000);
    assert_eq!(config_byte(false, true, false, off.0, off.1), 0b0100_0000);
    assert_eq!(config_byte(false, false, true, off.0, off.1), 0b0010_0000);
    assert_eq!(config_byte(false, false, false, SensorType::ThreeWire, off.1), 0b0001_0000);
    assert_eq!(config_byte(false, false, false, off.0, FilterMode::Filter50Hz), 0b0000_0001);
    assert_eq!(
        config_byte(true, true, false, SensorType::ThreeWire, FilterMode::Filter50Hz),
        0b1101_0001
    );
    assert_eq!(
        config_byte(true, true, true, SensorType::ThreeWire, FilterMode::Filter50Hz),
        0b1111_0001
    );
}

#[test]
fn configure_reports_a_bus_failure_and_releases_chip_select() {
    let board = board();
    let mut driver = driver(&board);
    board.borrow_mut().writes_fail = true;
    let configured =
        driver.configure(true, false, true, SensorType::TwoOrFourWire, FilterMode::Filter60Hz);
    assert!(matches!(configured, Err(Error::SPIError(BusFault(1)))));
    assert_eq!(
        ops(&board),
        vec![Op::Low, Op::Write(vec![0x80, 0b1010_0000]), Op::High]
    );
    assert_eq!(board.borrow().select_is_high, Some(true));
}

#[test]
fn configure_reports_a_pin_failure_without_touching_the_bus() {
    let board = board();
    let mut driver = driver(&board);
    board.borrow_mut().low_fails = true;
    let configured =
        driver.configure(true, true, false, SensorType::ThreeWire, FilterMode::Filter50Hz);
    assert!(matches!(configured, Err(Error::PinError)));
    assert_eq!(ops(&board), vec![Op::Low, Op::High]);
    assert_eq!(board.borrow().select_is_high, Some(true));
}

#[test]
fn configure_reports_a_failed_release() {
    let board = board();
    let mut driver = driver(&board);
    board.borrow_mut().high_fails = true;
    let configured =
        driver.configure(true, true, false, SensorType::ThreeWire, FilterMode::Filter50Hz);
    assert!(matches!(configured, Err(Error::PinError)));
    assert_eq!(
        ops(&board),
        vec![Op::Low, Op::Write(vec![0x80, 0b1101_0001]), Op::High]
    );
}

#[test]
fn register_addresses_are_bit_exact() {
    assert_eq!(READ_FLAG, 0b0000_0000);
    assert_eq!(WRITE_FLAG, 0b1000_0000);
    let registers = [
        Register::Config,
        Register::RtdMsb,
        Register::RtdLsb,
        Register::HighFaultThresholdMsb,
        Register::HighFaultThresholdLsb,
        Register::LowFaultThresholdMsb,
        Register::LowFaultThresholdLsb,
        Register::FaultStatus,
    ];
    for (offset, register) in registers.iter().enumerate() {
        assert_eq!(register.read_address(), offset as u8);
        assert_eq!(register.write_address(), 0x80 | offset as u8);
    }
    assert_eq!(Register::Config.write_address(), 0x80);
    assert_eq!(Register::RtdMsb.read_address(), 0x01);
    assert_eq!(Register::RtdLsb.read_address(), 0x02);
    assert_eq!(Register::FaultStatus.read_address(), 0x07);
    assert_eq!(Register::FaultStatus.write_address(), 0x87);
}

#[test]
fn read_raw_joins_msb_and_lsb() {
    let board = board();
    let mut driver = driver(&board);
    reply(&board, &[0x12, 0x34]);
    assert_eq!(driver.read_raw().unwrap(), 0x1234);
    assert_eq!(
        ops(&board),
        vec![
            Op::Low,
            Op::Transfer(vec![0x01, 0x00]),
            Op::High,
            Op::Low,
            Op::Transfer(vec![0x02, 0x00]),
            Op::High,
        ]
    );
    assert_eq!(raw_value(0x12, 0x34), 0x1234);
    assert_eq!(raw_value(0xFF, 0xFF), 0xFFFF);
    assert_eq!(raw_value(0x00, 0x01), 0x0001);
    assert_eq!(raw_value(0x01, 0x00), 0x0100);
}

#[test]
fn read_raw_keeps_the_fault_bit() {
    let board = board();
    let mut driver = driver(&board);
    reply(&board, &[0x40, 0x01]);
    assert_eq!(driver.read_raw().unwrap(), 0x4001);
}

#[test]
fn read_ohms_at_full_scale() {
    let board = board();
    let mut driver = driver(&board);
    reply(&board, &[0xFF, 0xFF]);
    assert_eq!(driver.read_ohms().unwrap(), (0x7FFF * 40_000) >> 15);
    assert_eq!(ohms_from_raw(0xFFFF, 40_000), 39_998);
}

#[test]
fn ohms_drop_the_fault_bit() {
    assert_eq!(ohms_from_raw(0x8000, 40_000), 20_000);
    assert_eq!(ohms_from_raw(0x8001, 40_000), 20_000);
    assert_eq!(ohms_from_raw(0x0000, 40_000), 0);
    assert_eq!(ohms_from_raw(0x0001, 40_000), 0);
    assert_eq!(ohms_from_raw(0x0002, 40_000), 1);
    assert_eq!(ohms_from_raw(0xFFFE, 43_000), 42_998);
}

#[test]
fn ohms_do_not_overflow_with_a_large_reference() {
    assert_eq!(ohms_from_raw(0xFFFF, u32::MAX), 4_294_836_223);
    assert_eq!(
        ohms_from_raw(0xFFFF, u32::MAX) as u64,
        (0x7FFFu64 * u32::MAX as u64) >> 15
    );
    assert_eq!(ohms_from_raw(0x8000, 200_000), 100_000);
}

#[test]
fn set_calibration_takes_effect_on_the_next_read() {
    let board = board();
    let mut driver = driver(&board);
    reply(&board, &[0x80, 0x00, 0x80, 0x00]);
    assert_eq!(driver.read_ohms().unwrap(), 20_000);
    driver.set_calibration(43_000);
    assert_eq!(driver.read_ohms().unwrap(), 21_500);
    assert_eq!(ops(&board).len(), 12);
}

#[test]
fn read_default_conversion_looks_the_resistance_up() {
    let board = board();
    let mut driver = driver(&board);
    // 100.00 ohms are a quarter of the reference: raw 0x2000 << 1
    reply(&board, &[0x40, 0x00]);
    assert_eq!(driver.read_default_conversion().unwrap(), 0);
    // raw 0x5A78 >> 1 = 11580, 11580 * 40000 >> 15 = 14135 -> 107.51 C°
    reply(&board, &[0x5A, 0x78]);
    assert_eq!(driver.read_default_conversion().unwrap(), 10_751);
    assert_eq!(default_conversion(14_135), 10_751);
    assert_eq!(default_conversion(10_000), 0);
    assert_eq!(default_conversion(13_851), 10_000);
}

#[test]
fn default_conversion_saturates_above_i32() {
    assert_eq!(default_conversion(u32::MAX), i32::MAX);
    assert_eq!(default_conversion(i32::MAX as u32), i32::MAX);
    assert_eq!(default_conversion(i32::MAX as u32 + 1), i32::MAX);
    assert_eq!(default_conversion(0), -24_317);
}

#[test]
fn a_bus_failure_during_a_read_leaves_chip_select_released() {
    let board = board();
    let mut driver = driver(&board);
    board.borrow_mut().transfers_before_bus_fails = Some(0);
    let read = driver.read(Register::RtdMsb);
    assert!(matches!(read, Err(Error::SPIError(BusFault(2)))));
    assert_eq!(
        ops(&board),
        vec![Op::Low, Op::Transfer(vec![0x01, 0x00]), Op::High]
    );
    assert_eq!(board.borrow().select_is_high, Some(true));
}

#[test]
fn a_successful_read_leaves_chip_select_released() {
    let board = board();
    let mut driver = driver(&board);
    reply(&board, &[0x3C]);
    assert_eq!(driver.read(Register::FaultStatus).unwrap(), 0x3C);
    assert_eq!(
        ops(&board),
        vec![Op::Low, Op::Transfer(vec![0x07, 0x00]), Op::High]
    );
    assert_eq!(board.borrow().select_is_high, Some(true));
}

#[test]
fn read_raw_stops_after_a_failed_msb_read() {
    let board = board();
    let mut driver = driver(&board);
    board.borrow_mut().transfers_before_bus_fails = Some(0);
    assert!(matches!(driver.read_raw(), Err(Error::SPIError(BusFault(2)))));
    assert_eq!(
        ops(&board),
        vec![Op::Low, Op::Transfer(vec![0x01, 0x00]), Op::High]
    );
    assert_eq!(board.borrow().select_is_high, Some(true));
}

#[test]
fn read_raw_reports_a_failed_lsb_read() {
    let board = board();
    let mut driver = driver(&board);
    reply(&board, &[0x12]);
    board.borrow_mut().transfers_before_bus_fails = Some(1);
    assert!(matches!(driver.read_ohms(), Err(Error::SPIError(BusFault(2)))));
    assert_eq!(
        ops(&board),
        vec![
            Op::Low,
            Op::Transfer(vec![0x01, 0x00]),
            Op::High,
            Op::Low,
            Op::Transfer(vec![0x02, 0x00]),
            Op::High,
        ]
    );
    assert_eq!(board.borrow().select_is_high, Some(true));
}

#[test]
fn read_reports_a_pin_failure() {
    let board = board();
    let mut driver = driver(&board);
    board.borrow_mut().low_fails = true;
    assert!(matches!(driver.read_default_conversion(), Err(Error::PinError)));
    assert_eq!(ops(&board), vec![Op::Low, Op::High]);
}

#[test]
fn a_bus_failure_comes_before_a_failed_release() {
    let board = board();
    let mut driver = driver(&board);
    board.borrow_mut().transfers_before_bus_fails = Some(0);
    board.borrow_mut().high_fails = true;
    assert!(matches!(driver.read_raw(), Err(Error::SPIError(BusFault(2)))));
    assert_eq!(
        ops(&board),
        vec![Op::Low, Op::Transfer(vec![0x01, 0x00]), Op::High]
    );
}

#[test]
fn write_sends_address_and_value() {
    let board = board();
    let mut driver = driver(&board);
    assert!(driver.write(Register::HighFaultThresholdMsb, 0x7F).is_ok());
    assert_eq!(
        ops(&board),
        vec![Op::Low, Op::Write(vec![0x83, 0x7F]), Op::High]
    );
}

#[test]
fn conclude_returns_the_first_error() {
    let ok: Result<u8, Error<BusFault>> = conclude(Ok(7), Ok(()));
    assert!(matches!(ok, Ok(7)));
    let pin: Result<u8, Error<BusFault>> = conclude(Ok(7), Err(Error::PinError));
    assert!(matches!(pin, Err(Error::PinError)));
    let bus: Result<u8, Error<BusFault>> = conclude(Err(Error::SPIError(BusFault(9))), Ok(()));
    assert!(matches!(bus, Err(Error::SPIError(BusFault(9)))));
    let both: Result<u8, Error<BusFault>> =
        conclude(Err(Error::SPIError(BusFault(9))), Err(Error::PinError));
    assert!(matches!(both, Err(Error::SPIError(BusFault(9)))));
    let unselected: Result<u8, Error<BusFault>> = conclude(Err(Error::PinError), Ok(()));
    assert!(matches!(unselected, Err(Error::PinError)));
}

#[test]
fn is_ready_reads_the_ready_pin() {
    let board = board();
    let driver = driver(&board);
    assert_eq!(driver.is_ready(), Ok(false));
    board.borrow_mut().ready_is_low = true;
    assert_eq!(driver.is_ready(), Ok(true));
    board.borrow_mut().ready_fails = true;
    assert_eq!(driver.is_ready(), Err(PinFault));
    assert!(ops(&board).is_empty());
}

fn lines(board: &Rc<RefCell<Board>>) -> Lines<Bus, Select, Ready> {
    Lines::open(Bus(board.clone()), Select(board.clone()), Ready(board.clone()))
}

#[test]
fn frames_hold_the_address_byte_first() {
    assert_eq!(write_frame(Register::Config, 0xD1), [0x80, 0xD1]);
    assert_eq!(write_frame(Register::LowFaultThresholdLsb, 0x05), [0x86, 0x05]);
    assert_eq!(write_frame(Register::RtdMsb, 0x81), [0x81, 0x81]);
    assert_eq!(read_frame(Register::Config), [0x00, 0x00]);
    assert_eq!(read_frame(Register::RtdMsb), [0x01, 0x00]);
    assert_eq!(read_frame(Register::FaultStatus), [0x07, 0x00]);
}

#[test]
fn the_reply_is_the_second_byte_received() {
    assert_eq!(reply_byte(&[0xAA, 0x55]), 0x55);
    assert_eq!(reply_byte(&[0x00, 0xFF]), 0xFF);
    assert_eq!(reply_byte(&[0xFF, 0x00]), 0x00);

    let board = board();
    let mut driver = driver(&board);
    // the simulated chip answers the address byte with 0xA5
    reply(&board, &[0x55]);
    assert_eq!(driver.read(Register::RtdMsb).unwrap(), 0x55);
}

#[test]
fn opening_the_lines_touches_nothing() {
    let board = board();
    let _lines = lines(&board);
    assert!(ops(&board).is_empty());
    assert_eq!(board.borrow().select_is_high, None);
}

#[test]
fn lines_drive_chip_select() {
    let board = board();
    let mut lines = lines(&board);
    assert!(lines.select().is_ok());
    assert_eq!(board.borrow().select_is_high, Some(false));
    assert!(lines.release().is_ok());
    assert_eq!(board.borrow().select_is_high, Some(true));
    assert_eq!(ops(&board), vec![Op::Low, Op::High]);

    board.borrow_mut().low_fails = true;
    assert!(matches!(lines.select(), Err(Error::PinError)));
    board.borrow_mut().high_fails = true;
    assert!(matches!(lines.release(), Err(Error::PinError)));
}

#[test]
fn lines_send_and_exchange_whole_frames() {
    let board = board();
    let mut lines = lines(&board);
    assert!(lines.send([0x12, 0x34]).is_ok());
    reply(&board, &[0x77]);
    assert!(matches!(lines.exchange([0x56, 0x78]), Ok([0xA5, 0x77])));
    assert_eq!(
        ops(&board),
        vec![Op::Write(vec![0x12, 0x34]), Op::Transfer(vec![0x56, 0x78])]
    );

    board.borrow_mut().writes_fail = true;
    assert!(matches!(lines.send([0, 0]), Err(Error::SPIError(BusFault(1)))));
    board.borrow_mut().transfers_before_bus_fails = Some(0);
    assert!(matches!(lines.exchange([0, 0]), Err(Error::SPIError(BusFault(2)))));
}

#[test]
fn lines_read_the_ready_pin() {
    let board = board();
    let lines = lines(&board);
    assert_eq!(lines.is_low(), Ok(false));
    board.borrow_mut().ready_is_low = true;
    assert_eq!(lines.is_low(), Ok(true));
    board.borrow_mut().ready_fails = true;
    assert_eq!(lines.is_low(), Err(PinFault));
}

#[test]
fn a_driver_starts_exactly_when_the_release_was_taken() {
    let board = board();
    let started = Max31865::started(lines(&board), Ok(()));
    assert!(started.is_ok());
    let mut driver = started.unwrap();
    reply(&board, &[0x80, 0x00]);
    assert_eq!(driver.read_ohms().unwrap(), 20_000);

    let refused = Max31865::started(lines(&board), Err(Error::PinError));
    assert!(matches!(refused, Err(Error::PinError)));
    let refused = Max31865::started(lines(&board), Err(Error::SPIError(BusFault(3))));
    assert!(matches!(refused, Err(Error::PinError)));
}
