use max7219_driver::connectors::spi::SpiConnector;
use max7219_driver::connectors::traits::Connector;
use max7219_driver::enums::DigitRowAddress;
use max7219_driver::global::enums::{
    DecodeMode, DisplayTest, DriverError, Intensity, RegisterAddr, ScanLimit, Shutdown,
};
use max7219_driver::MAX7219;
use std::cell::RefCell;
use std::rc::Rc;

type Write = (usize, u8, u8);

/// A connector that records every write asked of it, and fails the write with a given
/// index (counted over its whole life) with a given error.
struct Recorder {
    devices: usize,
    writes: Rc<RefCell<Vec<Write>>>,
    fail: Option<(usize, DriverError)>,
}

impl Connector for Recorder {
    fn devices(&self) -> usize {
        self.devices
    }

    fn write_raw(&mut self, device_addr: usize, register_addr: u8, data: u8) -> Result<(), DriverError> {
        let index = self.writes.borrow().len();
        self.writes.borrow_mut().push((device_addr, register_addr, data));
        match self.fail {
            Some((at, e)) if at == index => Err(e),
            _ => Ok(()),
        }
    }
}

fn recorder(devices: usize, fail: Option<(usize, DriverError)>) -> (Recorder, Rc<RefCell<Vec<Write>>>) {
    let writes = Rc::new(RefCell::new(Vec::new()));
    (Recorder { devices, writes: writes.clone(), fail }, writes)
}

/// A driver on a recorder, made and initialised, with the record of the initialisation
/// thrown away.
fn driver(devices: usize) -> (MAX7219<Recorder>, Rc<RefCell<Vec<Write>>>) {
    let (connector, writes) = recorder(devices, None);
    let driver = MAX7219::new(connector).unwrap();
    writes.borrow_mut().clear();
    (driver, writes)
}

/// As `driver`, with the write of index `at` after initialisation failing with `e`.
fn failing_driver(devices: usize, at: usize, e: DriverError) -> (MAX7219<Recorder>, Rc<RefCell<Vec<Write>>>) {
    let (connector, writes) = recorder(devices, Some((12 * devices + at, e)));
    let driver = MAX7219::new(connector).unwrap();
    (driver, writes)
}

fn after_init(devices: usize, writes: &Rc<RefCell<Vec<Write>>>) -> Vec<Write> {
    writes.borrow()[12 * devices..].to_vec()
}

fn init_writes(devices: usize) -> Vec<Write> {
    let mut expected = Vec::new();
    for device in 0..devices {
        expected.push((device, 0x0F, 0x00));
        expected.push((device, 0x09, 0x00));
        expected.push((device, 0x0B, 0x07));
        for register in 1..=8u8 {
            expected.push((device, register, 0x00));
        }
    }
    for device in 0..devices {
        expected.push((device, 0x0C, 0x00));
    }
    expected
}

#[test]
fn new_initialises_a_single_device() {
    let (connector, writes) = recorder(1, None);
    let driver = MAX7219::new(connector).unwrap();
    assert_eq!(driver.devices(), 1);
    assert_eq!(
        *writes.borrow(),
        vec![
            (0, 0x0F, 0x00),
            (0, 0x09, 0x00),
            (0, 0x0B, 0x07),
            (0, 0x01, 0x00),
            (0, 0x02, 0x00),
            (0, 0x03, 0x00),
            (0, 0x04, 0x00),
            (0, 0x05, 0x00),
            (0, 0x06, 0x00),
            (0, 0x07, 0x00),
            (0, 0x08, 0x00),
            (0, 0x0C, 0x00),
        ]
    );
}

#[test]
fn new_initialises_each_device_then_shuts_the_chain_down() {
    for devices in 0..=8usize {
        let (connector, writes) = recorder(devices, None);
        let driver = MAX7219::new(connector).unwrap();
        assert_eq!(driver.devices(), devices);
        assert_eq!(*writes.borrow(), init_writes(devices));
        assert_eq!(writes.borrow().len(), 12 * devices);
    }
}

#[test]
fn new_stops_at_the_first_failed_write() {
    let expected = init_writes(3);
    for at in 0..expected.len() {
        for e in [DriverError::Spi, DriverError::Pin] {
            let (connector, writes) = recorder(3, Some((at, e)));
            match MAX7219::new(connector) {
                Ok(_) => panic!("a failed write went unnoticed"),
                Err(got) => assert_eq!(got, e),
            }
            assert_eq!(*writes.borrow(), expected[..=at].to_vec());
        }
    }
}

#[test]
fn init_can_be_run_again() {
    let (mut driver, writes) = driver(2);
    driver.power_on().unwrap();
    writes.borrow_mut().clear();
    driver.init().unwrap();
    assert_eq!(*writes.borrow(), init_writes(2));
}

#[test]
fn power_on_writes_shutdown_register_of_every_device() {
    let (mut driver, writes) = driver(3);
    driver.power_on().unwrap();
    assert_eq!(*writes.borrow(), vec![(0, 0x0C, 0x01), (1, 0x0C, 0x01), (2, 0x0C, 0x01)]);
}

#[test]
fn power_off_writes_shutdown_register_of_every_device() {
    let (mut driver, writes) = driver(2);
    driver.power_off().unwrap();
    assert_eq!(*writes.borrow(), vec![(0, 0x0C, 0x00), (1, 0x0C, 0x00)]);
}

#[test]
fn set_shutdown_mode_writes_the_mode() {
    let (mut driver, writes) = driver(2);
    driver.set_shutdown_mode(Shutdown::NormalOperation).unwrap();
    driver.set_shutdown_mode(Shutdown::ShutdownMode).unwrap();
    assert_eq!(
        *writes.borrow(),
        vec![(0, 0x0C, 0x01), (1, 0x0C, 0x01), (0, 0x0C, 0x00), (1, 0x0C, 0x00)]
    );
}

#[test]
fn set_decode_mode_writes_one_device() {
    let (mut driver, writes) = driver(4);
    driver.set_decode_mode(2, DecodeMode::CodeBDigits3_0).unwrap();
    driver.set_decode_mode(0, DecodeMode::CodeBDigit0).unwrap();
    driver.set_decode_mode(3, DecodeMode::CodeBDigits7_0).unwrap();
    driver.set_decode_mode(1, DecodeMode::NoDecode).unwrap();
    assert_eq!(
        *writes.borrow(),
        vec![(2, 0x09, 0x0F), (0, 0x09, 0x01), (3, 0x09, 0xFF), (1, 0x09, 0x00)]
    );
}

#[test]
fn set_intensity_writes_one_device() {
    let (mut driver, writes) = driver(2);
    driver.set_intensity(0, Intensity::Ratio25_32).unwrap();
    driver.set_intensity(1, Intensity::Ratio5_32).unwrap();
    assert_eq!(*writes.borrow(), vec![(0, 0x0A, 0x0C), (1, 0x0A, 0x02)]);
}

#[test]
fn set_intensity_all_writes_every_device() {
    let (mut driver, writes) = driver(3);
    driver.set_intensity_all(Intensity::Max).unwrap();
    assert_eq!(*writes.borrow(), vec![(0, 0x0A, 0x0F), (1, 0x0A, 0x0F), (2, 0x0A, 0x0F)]);
}

#[test]
fn set_scan_limit_writes_one_device() {
    let (mut driver, writes) = driver(2);
    driver.set_scan_limit(1, ScanLimit::Display0To3).unwrap();
    assert_eq!(*writes.borrow(), vec![(1, 0x0B, 0x03)]);
}

#[test]
fn set_display_test_mode_writes_one_device() {
    let (mut driver, writes) = driver(2);
    driver.set_display_test_mode(1, DisplayTest::DisplayTestMode).unwrap();
    driver.set_display_test_mode(1, DisplayTest::NormalOperationMode).unwrap();
    assert_eq!(*writes.borrow(), vec![(1, 0x0F, 0x01), (1, 0x0F, 0x00)]);
}

#[test]
fn set_display_test_mode_all_writes_every_device() {
    let (mut driver, writes) = driver(2);
    driver.set_display_test_mode_all(DisplayTest::DisplayTestMode).unwrap();
    assert_eq!(*writes.borrow(), vec![(0, 0x0F, 0x01), (1, 0x0F, 0x01)]);
}

#[test]
fn broadcast_to_an_empty_chain_writes_nothing() {
    let (mut driver, writes) = driver(0);
    assert_eq!(driver.power_on(), Ok(()));
    assert_eq!(driver.set_intensity_all(Intensity::Min), Ok(()));
    assert_eq!(driver.clear_display_all(), Ok(()));
    assert!(writes.borrow().is_empty());
}

#[test]
fn clear_display_writes_zero_to_registers_one_to_eight() {
    let (mut driver, writes) = driver(2);
    driver.clear_display(1).unwrap();
    assert_eq!(
        *writes.borrow(),
        vec![
            (1, 0x01, 0x00),
            (1, 0x02, 0x00),
            (1, 0x03, 0x00),
            (1, 0x04, 0x00),
            (1, 0x05, 0x00),
            (1, 0x06, 0x00),
            (1, 0x07, 0x00),
            (1, 0x08, 0x00),
        ]
    );
}

#[test]
fn clear_display_all_covers_each_digit_of_each_device_once() {
    for devices in 1..=8usize {
        let (mut driver, writes) = driver(devices);
        driver.clear_display_all().unwrap();
        let writes = writes.borrow();
        assert_eq!(writes.len(), 8 * devices);
        for device in 0..devices {
            for register in 1..=8u8 {
                let hits: Vec<usize> = writes
                    .iter()
                    .enumerate()
                    .filter(|(_, w)| **w == (device, register, 0x00))
                    .map(|(i, _)| i)
                    .collect();
                assert_eq!(hits, vec![8 * device + register as usize - 1]);
            }
        }
    }
}

#[test]
fn write_raw_writes_the_named_register() {
    let (mut driver, writes) = driver(2);
    driver.write_raw(1, RegisterAddr::Digit3, 0xAA).unwrap();
    driver.write_raw(0, RegisterAddr::NoOp, 0x12).unwrap();
    driver.write_raw(0, RegisterAddr::DisplayTest, 0xFF).unwrap();
    assert_eq!(*writes.borrow(), vec![(1, 0x04, 0xAA), (0, 0x00, 0x12), (0, 0x0F, 0xFF)]);
}

#[test]
fn write_raw_all_writes_rows_in_order() {
    let (mut driver, writes) = driver(2);
    let z = [
        0b0000_0000,
        0b0111_1110,
        0b0010_0000,
        0b0001_0000,
        0b0000_1000,
        0b0000_0100,
        0b0111_1110,
        0b0000_0000,
    ];
    driver.write_raw_all(1, &z).unwrap();
    assert_eq!(
        *writes.borrow(),
        vec![
            (1, 1, 0b0000_0000),
            (1, 2, 0b0111_1110),
            (1, 3, 0b0010_0000),
            (1, 4, 0b0001_0000),
            (1, 5, 0b0000_1000),
            (1, 6, 0b0000_0100),
            (1, 7, 0b0111_1110),
            (1, 8, 0b0000_0000),
        ]
    );
}

#[test]
fn write_str_writes_digits_in_reverse() {
    let (mut driver, writes) = driver(1);
    driver.write_str(0, b"12345678", 0b0000_0000).unwrap();
    let writes = writes.borrow();
    assert_eq!(writes[0], (0, 0x09, 0x00));
    assert_eq!(
        writes[1..].to_vec(),
        vec![
            (0, 8, 0b0011_0000),
            (0, 7, 0b0110_1101),
            (0, 6, 0b0111_1001),
            (0, 5, 0b0011_0011),
            (0, 4, 0b0101_1011),
            (0, 3, 0b0101_1111),
            (0, 2, 0b0111_0000),
            (0, 1, 0b0111_1111),
        ]
    );
    let mut by_register: Vec<Write> = writes[1..].to_vec();
    by_register.sort_by_key(|w| w.1);
    let patterns: Vec<u8> = by_register.iter().map(|w| w.2).collect();
    assert_eq!(
        patterns,
        vec![
            0b0111_1111, // 8
            0b0111_0000, // 7
            0b0101_1111, // 6
            0b0101_1011, // 5
            0b0011_0011, // 4
            0b0111_1001, // 3
            0b0110_1101, // 2
            0b0011_0000, // 1
        ]
    );
    assert!(patterns.iter().all(|p| p & 0x80 == 0));
}

#[test]
fn write_str_top_dot_bit_belongs_to_the_first_character() {
    let (mut driver, writes) = driver(1);
    driver.write_str(0, b"ABCDEFGH", 0b1000_0000).unwrap();
    let writes = writes.borrow();
    assert_eq!(
        writes[1..].to_vec(),
        vec![
            (0, 8, 0b1111_0111),
            (0, 7, 0b0001_1111),
            (0, 6, 0b0100_1110),
            (0, 5, 0b0011_1101),
            (0, 4, 0b0100_1111),
            (0, 3, 0b0100_0111),
            (0, 2, 0b0101_1110),
            (0, 1, 0b0011_0111),
        ]
    );
    for w in &writes[1..] {
        assert_eq!(w.2 & 0x80 != 0, w.1 == 8);
    }
}

#[test]
fn write_str_each_dot_bit_lights_one_digit() {
    for bit in 0..8u8 {
        let (mut driver, writes) = driver(1);
        driver.write_str(0, b"01234567", 1 << bit).unwrap();
        for w in &writes.borrow()[1..] {
            assert_eq!(w.2 & 0x80 != 0, w.1 == bit + 1);
        }
    }
    let (mut driver, writes) = driver(1);
    driver.write_str(0, b"12345678", 0b0001_0000).unwrap();
    assert_eq!(writes.borrow()[4], (0, 5, 0b1011_0011));
}

#[test]
fn write_str_shows_question_mark_for_what_cannot_be_rendered() {
    let (mut driver, writes) = driver(1);
    driver.write_str(0, b"K.M  x 1", 0).unwrap();
    let data: Vec<u8> = writes.borrow()[1..].iter().map(|w| w.2).collect();
    assert_eq!(data, vec![0xE5, 0xE5, 0xE5, 0x00, 0x00, 0xE5, 0x00, 0x30]);
}

#[test]
fn write_str_sets_decode_mode_on_the_addressed_device() {
    let (mut driver, writes) = driver(3);
    driver.write_str(2, b"        ", 0).unwrap();
    let writes = writes.borrow();
    assert_eq!(writes.len(), 9);
    assert_eq!(writes[0], (2, 0x09, 0x00));
    for (k, w) in writes[1..].iter().enumerate() {
        assert_eq!(*w, (2, 8 - k as u8, 0x00));
    }
}

#[test]
fn write_str_and_write_bcd_leave_other_devices_alone() {
    for device in 0..4usize {
        let (mut driver, writes) = driver(4);
        driver.write_str(device, b"12345678", 0xFF).unwrap();
        driver.write_bcd(device, b"12345678").unwrap();
        assert_eq!(writes.borrow().len(), 18);
        assert!(writes.borrow().iter().all(|w| w.0 == device));
        assert_eq!(writes.borrow()[0], (device, 0x09, 0x00));
        assert_eq!(writes.borrow()[9], (device, 0x09, 0xFF));
    }
}

#[test]
fn write_bcd_writes_codes_in_reverse() {
    let (mut driver, writes) = driver(2);
    driver.write_bcd(1, b"H_e_l_P?").unwrap();
    assert_eq!(
        *writes.borrow(),
        vec![
            (1, 0x09, 0xFF),
            (1, 8, 0b1000_1100),
            (1, 7, b'_'),
            (1, 6, 0b0000_1011),
            (1, 5, b'_'),
            (1, 4, 0b0000_1101),
            (1, 3, b'_'),
            (1, 2, 0b1000_1110),
            (1, 1, b'?'),
        ]
    );
}

#[test]
fn write_bcd_passes_digit_values() {
    let (mut driver, writes) = driver(1);
    driver.write_bcd(0, &[1, 2, 3, b'-', b' ', 9, 0, 0x85]).unwrap();
    let data: Vec<u8> = writes.borrow()[1..].iter().map(|w| w.2).collect();
    assert_eq!(data, vec![1, 2, 3, 0x0A, 0x0F, 9, 0, 0x85]);
}

#[test]
fn draw_row_or_digit_writes_the_first_device() {
    let (mut driver, writes) = driver(1);
    driver.draw_row_or_digit(DigitRowAddress::Digit0, 0x81).unwrap();
    driver.draw_row_or_digit(DigitRowAddress::Digit7, 0x18).unwrap();
    assert_eq!(*writes.borrow(), vec![(0, 0x01, 0x81), (0, 0x08, 0x18)]);
}

#[test]
fn clear_then_draw_leaves_one_row_lit() {
    let (mut driver, writes) = driver(1);
    driver.clear_display_all().unwrap();
    driver.draw_row_or_digit(DigitRowAddress::Digit4, 0x3C).unwrap();
    let mut registers = [0xFFu8; 8];
    for (_, register, data) in writes.borrow().iter() {
        registers[*register as usize - 1] = *data;
    }
    assert_eq!(registers, [0, 0, 0, 0, 0x3C, 0, 0, 0]);
}

#[test]
fn failed_write_is_returned_and_ends_the_operation() {
    for e in [DriverError::Spi, DriverError::Pin] {
        let (mut driver, writes) = failing_driver(2, 3, e);
        assert_eq!(driver.clear_display(1), Err(e));
        assert_eq!(
            after_init(2, &writes),
            vec![(1, 1, 0), (1, 2, 0), (1, 3, 0), (1, 4, 0)]
        );
    }
}

#[test]
fn failed_decode_mode_write_ends_write_str() {
    let (mut driver, writes) = failing_driver(1, 0, DriverError::Pin);
    assert_eq!(driver.write_str(0, b"12345678", 0), Err(DriverError::Pin));
    assert_eq!(after_init(1, &writes), vec![(0, 0x09, 0x00)]);
}

#[test]
fn failed_last_write_of_write_bcd_is_returned() {
    let (mut driver, writes) = failing_driver(1, 8, DriverError::Spi);
    assert_eq!(driver.write_bcd(0, b"--------"), Err(DriverError::Spi));
    assert_eq!(after_init(1, &writes).len(), 9);
}

#[test]
fn failed_broadcast_leaves_later_devices_untouched() {
    let (mut driver, writes) = failing_driver(4, 1, DriverError::Spi);
    assert_eq!(driver.power_on(), Err(DriverError::Spi));
    assert_eq!(after_init(4, &writes), vec![(0, 0x0C, 0x01), (1, 0x0C, 0x01)]);
    assert_eq!(driver.power_on(), Ok(()));
}

#[test]
fn failed_clear_display_all_stops_within_a_device() {
    let (mut driver, writes) = failing_driver(2, 10, DriverError::Pin);
    assert_eq!(driver.clear_display_all(), Err(DriverError::Pin));
    let done = after_init(2, &writes);
    assert_eq!(done.len(), 11);
    assert_eq!(done[10], (1, 3, 0));
}

#[test]
fn failed_write_raw_all_stops_at_the_row() {
    let (mut driver, writes) = failing_driver(1, 0, DriverError::Spi);
    assert_eq!(driver.write_raw_all(0, &[9, 8, 7, 6, 5, 4, 3, 2]), Err(DriverError::Spi));
    assert_eq!(after_init(1, &writes), vec![(0, 1, 9)]);
}

/// A connector that frames as the library does and keeps every frame put on the bus.
struct Wire {
    core: SpiConnector,
    frames: Rc<RefCell<Vec<Vec<u8>>>>,
}

impl Connector for Wire {
    fn devices(&self) -> usize {
        self.core.devices()
    }

    fn write_raw(&mut self, device_addr: usize, register_addr: u8, data: u8) -> Result<(), DriverError> {
        assert!(self.core.load(device_addr, register_addr, data));
        self.frames.borrow_mut().push(self.core.frame().to_vec());
        SpiConnector::finish(true)
    }
}

#[test]
fn frames_of_a_chain_of_two() {
    let frames = Rc::new(RefCell::new(Vec::new()));
    let wire = Wire { core: SpiConnector::new(2), frames: frames.clone() };
    let mut driver = MAX7219::new(wire).unwrap();
    assert_eq!(frames.borrow().len(), 24);
    assert_eq!(frames.borrow()[0], vec![0x0F, 0x00, 0x00, 0x00]);
    assert_eq!(frames.borrow()[11], vec![0x00, 0x00, 0x0F, 0x00]);
    assert_eq!(frames.borrow()[22], vec![0x0C, 0x00, 0x00, 0x00]);
    assert_eq!(frames.borrow()[23], vec![0x00, 0x00, 0x0C, 0x00]);
    frames.borrow_mut().clear();
    driver.set_intensity(1, Intensity::Ratio5_32).unwrap();
    driver.power_on().unwrap();
    assert_eq!(
        *frames.borrow(),
        vec![
            vec![0x00, 0x00, 0x0A, 0x02],
            vec![0x0C, 0x01, 0x00, 0x00],
            vec![0x00, 0x00, 0x0C, 0x01],
        ]
    );
}

#[test]
fn frames_of_a_full_clear_hold_one_nonzero_byte_each() {
    let frames = Rc::new(RefCell::new(Vec::new()));
    let wire = Wire { core: SpiConnector::new(3), frames: frames.clone() };
    let mut driver = MAX7219::new(wire).unwrap();
    frames.borrow_mut().clear();
    driver.clear_display_all().unwrap();
    let frames = frames.borrow();
    assert_eq!(frames.len(), 24);
    for (i, frame) in frames.iter().enumerate() {
        assert_eq!(frame.len(), 6);
        let nonzero: Vec<(usize, u8)> =
            frame.iter().enumerate().filter(|(_, b)| **b != 0).map(|(at, b)| (at, *b)).collect();
        assert_eq!(nonzero, vec![(2 * (i / 8), (i % 8) as u8 + 1)]);
    }
}
