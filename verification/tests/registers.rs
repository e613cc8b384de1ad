use max7219_driver::enums;
use max7219_driver::enums::{Command, DigitRowAddress, Power};
use max7219_driver::global::consts::{MAX_DIGITS, MAX_DISPLAYS, MAX_SERIAL_DATA_BYTES};
use max7219_driver::global::enums::{
    DecodeMode, DisplayTest, DriverError, Intensity, RegisterAddr, ScanLimit, Shutdown,
};

const REGISTERS: [(RegisterAddr, u8); 14] = [
    (RegisterAddr::NoOp, 0x00),
    (RegisterAddr::Digit0, 0x01),
    (RegisterAddr::Digit1, 0x02),
    (RegisterAddr::Digit2, 0x03),
    (RegisterAddr::Digit3, 0x04),
    (RegisterAddr::Digit4, 0x05),
    (RegisterAddr::Digit5, 0x06),
    (RegisterAddr::Digit6, 0x07),
    (RegisterAddr::Digit7, 0x08),
    (RegisterAddr::DecodeMode, 0x09),
    (RegisterAddr::Intensity, 0x0A),
    (RegisterAddr::ScanLimit, 0x0B),
    (RegisterAddr::Shutdown, 0x0C),
    (RegisterAddr::DisplayTest, 0x0F),
];

#[test]
fn limits() {
    assert_eq!(MAX_DISPLAYS, 8);
    assert_eq!(MAX_SERIAL_DATA_BYTES, 16);
    assert_eq!(MAX_DIGITS, 8);
}

#[test]
fn register_addresses() {
    for (register, addr) in REGISTERS {
        assert_eq!(register.addr(), addr);
    }
}

#[test]
fn register_addresses_are_four_bits_and_distinct() {
    for (i, (a, _)) in REGISTERS.iter().enumerate() {
        assert!(a.addr() <= 0x0F);
        for (j, (b, _)) in REGISTERS.iter().enumerate() {
            assert_eq!(a.addr() == b.addr(), i == j);
        }
    }
}

#[test]
fn shutdown_values() {
    assert_eq!(Shutdown::ShutdownMode.value(), 0x00);
    assert_eq!(Shutdown::NormalOperation.value(), 0x01);
}

#[test]
fn decode_mode_values() {
    assert_eq!(DecodeMode::NoDecode.value(), 0x00);
    assert_eq!(DecodeMode::CodeBDigit0.value(), 0x01);
    assert_eq!(DecodeMode::CodeBDigits3_0.value(), 0x0F);
    assert_eq!(DecodeMode::CodeBDigits7_0.value(), 0xFF);
}

#[test]
fn intensity_values() {
    let levels = [
        Intensity::Min,
        Intensity::Ratio3_32,
        Intensity::Ratio5_32,
        Intensity::Ratio7_32,
        Intensity::Ratio9_32,
        Intensity::Ratio11_32,
        Intensity::Ratio13_32,
        Intensity::Ratio15_32,
        Intensity::Ratio17_32,
        Intensity::Ratio19_32,
        Intensity::Ratio21_32,
        Intensity::Ratio23_32,
        Intensity::Ratio25_32,
        Intensity::Ratio27_32,
        Intensity::Ratio29_32,
        Intensity::Max,
    ];
    for (rank, level) in levels.iter().enumerate() {
        assert_eq!(level.value() as usize, rank);
    }
}

#[test]
fn scan_limit_values() {
    let limits = [
        ScanLimit::Display0Only,
        ScanLimit::Display0And1,
        ScanLimit::Display0To2,
        ScanLimit::Display0To3,
        ScanLimit::Display0To4,
        ScanLimit::Display0To5,
        ScanLimit::Display0To6,
        ScanLimit::Display0To7,
    ];
    for (last, limit) in limits.iter().enumerate() {
        assert_eq!(limit.value() as usize, last);
    }
}

#[test]
fn display_test_values() {
    assert_eq!(DisplayTest::NormalOperationMode.value(), 0x00);
    assert_eq!(DisplayTest::DisplayTestMode.value(), 0x01);
}

#[test]
fn driver_errors_differ() {
    assert_ne!(DriverError::Spi, DriverError::Pin);
    assert_ne!(enums::DriverError::SpiError, enums::DriverError::PinError);
}

#[test]
fn command_values() {
    assert_eq!(Command::NoOp.value(), 0x00);
    assert_eq!(Command::DecodeMode.value(), 0x09);
    assert_eq!(Command::Intensity.value(), 0x0A);
    assert_eq!(Command::ScanLimit.value(), 0x0B);
    assert_eq!(Command::Shutdown.value(), 0x0C);
    assert_eq!(Command::DisplayTest.value(), 0x0F);
}

#[test]
fn power_values() {
    assert_eq!(Power::ShutdownMode.value(), 0x00);
    assert_eq!(Power::NormalOperation.value(), 0x01);
}

#[test]
fn single_device_configuration_values() {
    assert_eq!(enums::DecodeMode::Nodecode.value(), 0x00);
    assert_eq!(enums::DecodeMode::CodeB0.value(), 0x01);
    assert_eq!(enums::DecodeMode::CodeB30.value(), 0x0F);
    assert_eq!(enums::DecodeMode::CodeB70.value(), 0xFF);
    assert_eq!(enums::Intensity::Min.value(), 0x00);
    assert_eq!(enums::Intensity::Ratio17_32.value(), 0x08);
    assert_eq!(enums::Intensity::Max.value(), 0x0F);
    assert_eq!(enums::ScanLimit::Display0Only.value(), 0x00);
    assert_eq!(enums::ScanLimit::Display0To3.value(), 0x03);
    assert_eq!(enums::ScanLimit::Display0To7.value(), 0x07);
    assert_eq!(enums::DisplayTest::NormalOperationMode.value(), 0x00);
    assert_eq!(enums::DisplayTest::DisplayTestMode.value(), 0x01);
}

#[test]
fn digit_row_address_values() {
    assert_eq!(DigitRowAddress::Digit0.value(), 0x01);
    assert_eq!(DigitRowAddress::Digit1.value(), 0x02);
    assert_eq!(DigitRowAddress::Digit2.value(), 0x03);
    assert_eq!(DigitRowAddress::Digit3.value(), 0x04);
    assert_eq!(DigitRowAddress::Digit4.value(), 0x05);
    assert_eq!(DigitRowAddress::Digit5.value(), 0x06);
    assert_eq!(DigitRowAddress::Digit6.value(), 0x07);
    assert_eq!(DigitRowAddress::Digit7.value(), 0x08);
}

#[test]
fn digit_row_address_from_byte() {
    assert_eq!(DigitRowAddress::try_from(0x01), Ok(DigitRowAddress::Digit0));
    assert_eq!(DigitRowAddress::try_from(0x02), Ok(DigitRowAddress::Digit1));
    assert_eq!(DigitRowAddress::try_from(0x03), Ok(DigitRowAddress::Digit2));
    assert_eq!(DigitRowAddress::try_from(0x04), Ok(DigitRowAddress::Digit3));
    assert_eq!(DigitRowAddress::try_from(0x05), Ok(DigitRowAddress::Digit4));
    assert_eq!(DigitRowAddress::try_from(0x06), Ok(DigitRowAddress::Digit5));
    assert_eq!(DigitRowAddress::try_from(0x07), Ok(DigitRowAddress::Digit6));
    assert_eq!(DigitRowAddress::try_from(0x08), Ok(DigitRowAddress::Digit7));
}

#[test]
fn digit_row_address_rejects_other_bytes() {
    assert_eq!(DigitRowAddress::try_from(0x00), Err(0x00));
    assert_eq!(DigitRowAddress::try_from(0x09), Err(0x09));
    assert_eq!(DigitRowAddress::try_from(0x0F), Err(0x0F));
    assert_eq!(DigitRowAddress::try_from(0xFF), Err(0xFF));
    for value in 0..=255u8 {
        match DigitRowAddress::try_from(value) {
            Ok(digit) => {
                assert!((1..=8).contains(&value));
                assert_eq!(digit.value(), value);
            }
            Err(invalid) => {
                assert!(!(1..=8).contains(&value));
                assert_eq!(invalid, value);
            }
        }
    }
}
