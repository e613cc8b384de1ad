use vstd::prelude::*;
use vstd::std_specs::convert::TryFromSpecImpl;

verus! {

/// What can go wrong while a single device is written to.
#[derive(Debug, Clone, Copy, PartialEq, Eq, Structural)]
pub enum DriverError {
    /// The serial bus reported a failed transfer.
    SpiError,
    /// The chip-select pin could not be driven.
    PinError,
}

/// The registers of the device that configure it.
#[derive(Debug, Clone, Copy, PartialEq, Eq, Structural)]
pub enum Command {
    NoOp,
    DecodeMode,
    Intensity,
    ScanLimit,
    Shutdown,
    DisplayTest,
}

impl Command {
    /// The address byte that selects this register on the wire.
    pub open spec fn spec_value(self) -> u8 {
        match self {
            Command::NoOp => 0x00,
            Command::DecodeMode => 0x09,
            Command::Intensity => 0x0A,
            Command::ScanLimit => 0x0B,
            Command::Shutdown => 0x0C,
            Command::DisplayTest => 0x0F,
        }
    }

    #[verifier::when_used_as_spec(spec_value)]
    pub fn value(self) -> (b: u8)
        ensures
            b == self.spec_value(),
    {
        match self {
            Command::NoOp => 0x00,
            Command::DecodeMode => 0x09,
            Command::Intensity => 0x0A,
            Command::ScanLimit => 0x0B,
            Command::Shutdown => 0x0C,
            Command::DisplayTest => 0x0F,
        }
    }
}

/// The registers of the device that hold what it shows: a digit of a seven-segment
/// display, or a row of a matrix.
#[derive(Debug, Clone, Copy, PartialEq, Eq, Structural)]
pub enum DigitRowAddress {
    Digit0,
    Digit1,
    Digit2,
    Digit3,
    Digit4,
    Digit5,
    Digit6,
    Digit7,
}

impl DigitRowAddress {
    /// The address byte that selects this register on the wire: 1 for `Digit0` up to 8 for
    /// `Digit7`.
    pub open spec fn spec_value(self) -> u8 {
        match self {
            DigitRowAddress::Digit0 => 0x01,
            DigitRowAddress::Digit1 => 0x02,
            DigitRowAddress::Digit2 => 0x03,
            DigitRowAddress::Digit3 => 0x04,
            DigitRowAddress::Digit4 => 0x05,
            DigitRowAddress::Digit5 => 0x06,
            DigitRowAddress::Digit6 => 0x07,
            DigitRowAddress::Digit7 => 0x08,
        }
    }

    #[verifier::when_used_as_spec(spec_value)]
    pub fn value(self) -> (b: u8)
        ensures
            b == self.spec_value(),
    {
        match self {
            DigitRowAddress::Digit0 => 0x01,
            DigitRowAddress::Digit1 => 0x02,
            DigitRowAddress::Digit2 => 0x03,
            DigitRowAddress::Digit3 => 0x04,
            DigitRowAddress::Digit4 => 0x05,
            DigitRowAddress::Digit5 => 0x06,
            DigitRowAddress::Digit6 => 0x07,
            DigitRowAddress::Digit7 => 0x08,
        }
    }

    /// The register that the address byte `value` selects, if it is a digit register.
    pub open spec fn of_value(value: u8) -> Option<DigitRowAddress> {
        if value == 0x01 {
            Some(DigitRowAddress::Digit0)
        } else if value == 0x02 {
            Some(DigitRowAddress::Digit1)
        } else if value == 0x03 {
            Some(DigitRowAddress::Digit2)
        } else if value == 0x04 {
            Some(DigitRowAddress::Digit3)
        } else if value == 0x05 {
            Some(DigitRowAddress::Digit4)
        } else if value == 0x06 {
            Some(DigitRowAddress::Digit5)
        } else if value == 0x07 {
            Some(DigitRowAddress::Digit6)
        } else if value == 0x08 {
            Some(DigitRowAddress::Digit7)
        } else {
            None
        }
    }

    /// Every digit register is found again from its address byte.
    pub proof fn lemma_value_round_trip(self)
        ensures
            1 <= self.value() <= 8,
            DigitRowAddress::of_value(self.value()) == Some(self),
    {
    }

    /// A byte is the address of a digit register exactly when it lies between 1 and 8, and
    /// the register found for it has that address.
    pub proof fn lemma_of_value(value: u8)
        ensures
            DigitRowAddress::of_value(value) is Some <==> 1 <= value <= 8,
            DigitRowAddress::of_value(value) matches Some(digit) ==> digit.value() == value,
    {
    }
}

impl TryFrom<u8> for DigitRowAddress {
    type Error = u8;

    /// The digit register with the address byte `value`; a byte that is none is handed back
    /// as the error.
    fn try_from(value: u8) -> (r: Result<Self, Self::Error>) {
        Ok(
            match value {
                0x01 => DigitRowAddress::Digit0,
                0x02 => DigitRowAddress::Digit1,
                0x03 => DigitRowAddress::Digit2,
                0x04 => DigitRowAddress::Digit3,
                0x05 => DigitRowAddress::Digit4,
                0x06 => DigitRowAddress::Digit5,
                0x07 => DigitRowAddress::Digit6,
                0x08 => DigitRowAddress::Digit7,
                invalid => return Err(invalid),
            },
        )
    }
}

impl TryFromSpecImpl<u8> for DigitRowAddress {
    open spec fn obeys_try_from_spec() -> bool {
        true
    }

    open spec fn try_from_spec(value: u8) -> Result<Self, Self::Error> {
        match DigitRowAddress::of_value(value) {
            Some(digit) => Ok(digit),
            None => Err(value),
        }
    }
}

/// The two power states of the device.
#[derive(Debug, Clone, Copy, PartialEq, Eq, Structural)]
pub enum Power {
    ShutdownMode,
    NormalOperation,
}

impl Power {
    /// The data byte that puts the Shutdown register in this state.
    pub open spec fn spec_value(self) -> u8 {
        match self {
            Power::ShutdownMode => 0x00,
            Power::NormalOperation => 0x01,
        }
    }

    #[verifier::when_used_as_spec(spec_value)]
    pub fn value(self) -> (b: u8)
        ensures
            b == self.spec_value(),
    {
        match self {
            Power::ShutdownMode => 0x00,
            Power::NormalOperation => 0x01,
        }
    }
}

/// Which digits the device decodes from Code B itself.
#[derive(Debug, Clone, Copy, PartialEq, Eq, Structural)]
pub enum DecodeMode {
    Nodecode,
    CodeB0,
    CodeB30,
    CodeB70,
}

impl DecodeMode {
    /// The data byte for the DecodeMode register: one bit per decoded digit.
    pub open spec fn spec_value(self) -> u8 {
        match self {
            DecodeMode::Nodecode => 0x00,
            DecodeMode::CodeB0 => 0x01,
            DecodeMode::CodeB30 => 0x0F,
            DecodeMode::CodeB70 => 0xFF,
        }
    }

    #[verifier::when_used_as_spec(spec_value)]
    pub fn value(self) -> (b: u8)
        ensures
            b == self.spec_value(),
    {
        match self {
            DecodeMode::Nodecode => 0x00,
            DecodeMode::CodeB0 => 0x01,
            DecodeMode::CodeB30 => 0x0F,
            DecodeMode::CodeB70 => 0xFF,
        }
    }
}

/// The sixteen brightness levels, named by their duty cycle.
#[derive(Debug, Clone, Copy, PartialEq, Eq, Structural)]
pub enum Intensity {
    Min,
    Ratio3_32,
    Ratio5_32,
    Ratio7_32,
    Ratio9_32,
    Ratio11_32,
    Ratio13_32,
    Ratio15_32,
    Ratio17_32,
    Ratio19_32,
    Ratio21_32,
    Ratio23_32,
    Ratio25_32,
    Ratio27_32,
    Ratio29_32,
    Max,
}

impl Intensity {
    /// The data byte for the Intensity register: the level's rank, `Min` being 0.
    pub open spec fn spec_value(self) -> u8 {
        match self {
            Intensity::Min => 0x00,
            Intensity::Ratio3_32 => 0x01,
            Intensity::Ratio5_32 => 0x02,
            Intensity::Ratio7_32 => 0x03,
            Intensity::Ratio9_32 => 0x04,
            Intensity::Ratio11_32 => 0x05,
            Intensity::Ratio13_32 => 0x06,
            Intensity::Ratio15_32 => 0x07,
            Intensity::Ratio17_32 => 0x08,
            Intensity::Ratio19_32 => 0x09,
            Intensity::Ratio21_32 => 0x0A,
            Intensity::Ratio23_32 => 0x0B,
            Intensity::Ratio25_32 => 0x0C,
            Intensity::Ratio27_32 => 0x0D,
            Intensity::Ratio29_32 => 0x0E,
            Intensity::Max => 0x0F,
        }
    }

    #[verifier::when_used_as_spec(spec_value)]
    pub fn value(self) -> (b: u8)
        ensures
            b == self.spec_value(),
    {
        match self {
            Intensity::Min => 0x00,
            Intensity::Ratio3_32 => 0x01,
            Intensity::Ratio5_32 => 0x02,
            Intensity::Ratio7_32 => 0x03,
            Intensity::Ratio9_32 => 0x04,
            Intensity::Ratio11_32 => 0x05,
            Intensity::Ratio13_32 => 0x06,
            Intensity::Ratio15_32 => 0x07,
            Intensity::Ratio17_32 => 0x08,
            Intensity::Ratio19_32 => 0x09,
            Intensity::Ratio21_32 => 0x0A,
            Intensity::Ratio23_32 => 0x0B,
            Intensity::Ratio25_32 => 0x0C,
            Intensity::Ratio27_32 => 0x0D,
            Intensity::Ratio29_32 => 0x0E,
            Intensity::Max => 0x0F,
        }
    }
}

/// How many digits the device scans, always starting at digit 0.
#[derive(Debug, Clone, Copy, PartialEq, Eq, Structural)]
pub enum ScanLimit {
    Display0Only,
    Display0And1,
    Display0To2,
    Display0To3,
    Display0To4,
    Display0To5,
    Display0To6,
    Display0To7,
}

impl ScanLimit {
    /// The data byte for the ScanLimit register: the index of the last digit scanned.
    pub open spec fn spec_value(self) -> u8 {
        match self {
            ScanLimit::Display0Only => 0x00,
            ScanLimit::Display0And1 => 0x01,
            ScanLimit::Display0To2 => 0x02,
            ScanLimit::Display0To3 => 0x03,
            ScanLimit::Display0To4 => 0x04,
            ScanLimit::Display0To5 => 0x05,
            ScanLimit::Display0To6 => 0x06,
            ScanLimit::Display0To7 => 0x07,
        }
    }

    #[verifier::when_used_as_spec(spec_value)]
    pub fn value(self) -> (b: u8)
        ensures
            b == self.spec_value(),
    {
        match self {
            ScanLimit::Display0Only => 0x00,
            ScanLimit::Display0And1 => 0x01,
            ScanLimit::Display0To2 => 0x02,
            ScanLimit::Display0To3 => 0x03,
            ScanLimit::Display0To4 => 0x04,
            ScanLimit::Display0To5 => 0x05,
            ScanLimit::Display0To6 => 0x06,
            ScanLimit::Display0To7 => 0x07,
        }
    }
}

/// Whether the device lights every segment regardless of its registers.
#[derive(Debug, Clone, Copy, PartialEq, Eq, Structural)]
pub enum DisplayTest {
    NormalOperationMode,
    DisplayTestMode,
}

impl DisplayTest {
    /// The data byte that puts the DisplayTest register in this state.
    pub open spec fn spec_value(self) -> u8 {
        match self {
            DisplayTest::NormalOperationMode => 0x00,
            DisplayTest::DisplayTestMode => 0x01,
        }
    }

    #[verifier::when_used_as_spec(spec_value)]
    pub fn value(self) -> (b: u8)
        ensures
            b == self.spec_value(),
    {
        match self {
            DisplayTest::NormalOperationMode => 0x00,
            DisplayTest::DisplayTestMode => 0x01,
        }
    }
}

} // verus!
