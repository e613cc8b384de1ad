use vstd::prelude::*;

verus! {

/// What can go wrong while a register write is carried to the chain.
#[derive(Debug, Clone, Copy, PartialEq, Eq, Structural)]
pub enum DriverError {
    /// The serial bus reported a failed transfer.
    Spi,
    /// The chip-select pin could not be driven.
    Pin,
}

/// The register map of the device.
///
/// `Digit0` to `Digit7` are the row registers when the device drives a matrix.
#[derive(Debug, Clone, Copy, PartialEq, Eq, Structural)]
pub enum RegisterAddr {
    NoOp,
    Digit0,
    Digit1,
    Digit2,
    Digit3,
    Digit4,
    Digit5,
    Digit6,
    Digit7,
    DecodeMode,
    Intensity,
    ScanLimit,
    Shutdown,
    DisplayTest,
}

impl RegisterAddr {
    /// The address byte that selects this register on the wire.
    pub open spec fn spec_addr(self) -> u8 {
        match self {
            RegisterAddr::NoOp => 0x00,
            RegisterAddr::Digit0 => 0x01,
            RegisterAddr::Digit1 => 0x02,
            RegisterAddr::Digit2 => 0x03,
            RegisterAddr::Digit3 => 0x04,
            RegisterAddr::Digit4 => 0x05,
            RegisterAddr::Digit5 => 0x06,
            RegisterAddr::Digit6 => 0x07,
            RegisterAddr::Digit7 => 0x08,
            RegisterAddr::DecodeMode => 0x09,
            RegisterAddr::Intensity => 0x0A,
            RegisterAddr::ScanLimit => 0x0B,
            RegisterAddr::Shutdown => 0x0C,
            RegisterAddr::DisplayTest => 0x0F,
        }
    }

    #[verifier::when_used_as_spec(spec_addr)]
    pub fn addr(self) -> (b: u8)
        ensures
            b == self.spec_addr(),
    {
        match self {
            RegisterAddr::NoOp => 0x00,
            RegisterAddr::Digit0 => 0x01,
            RegisterAddr::Digit1 => 0x02,
            RegisterAddr::Digit2 => 0x03,
            RegisterAddr::Digit3 => 0x04,
            RegisterAddr::Digit4 => 0x05,
            RegisterAddr::Digit5 => 0x06,
            RegisterAddr::Digit6 => 0x07,
            RegisterAddr::Digit7 => 0x08,
            RegisterAddr::DecodeMode => 0x09,
            RegisterAddr::Intensity => 0x0A,
            RegisterAddr::ScanLimit => 0x0B,
            RegisterAddr::Shutdown => 0x0C,
            RegisterAddr::DisplayTest => 0x0F,
        }
    }

    /// Every register address fits in the low four bits of the address byte.
    pub proof fn lemma_addr_is_four_bits(self)
        ensures
            self.addr() <= 0x0F,
    {
    }

    /// Two registers share an address only if they are the same register.
    pub proof fn lemma_addr_is_injective(self, other: RegisterAddr)
        requires
            self.addr() == other.addr(),
        ensures
            self == other,
    {
    }
}

/// The two power states, as values of the Shutdown register.
#[derive(Debug, Clone, Copy, PartialEq, Eq, Structural)]
pub enum Shutdown {
    ShutdownMode,
    NormalOperation,
}

impl Shutdown {
    /// The data byte that puts the Shutdown register in this state.
    pub open spec fn spec_value(self) -> u8 {
        match self {
            Shutdown::ShutdownMode => 0x00,
            Shutdown::NormalOperation => 0x01,
        }
    }

    #[verifier::when_used_as_spec(spec_value)]
    pub fn value(self) -> (b: u8)
        ensures
            b == self.spec_value(),
    {
        match self {
            Shutdown::ShutdownMode => 0x00,
            Shutdown::NormalOperation => 0x01,
        }
    }
}

/// Which digits the device decodes from Code B itself.
#[derive(Debug, Clone, Copy, PartialEq, Eq, Structural)]
pub enum DecodeMode {
    NoDecode,
    CodeBDigit0,
    CodeBDigits3_0,
    CodeBDigits7_0,
}

impl DecodeMode {
    /// The data byte for the DecodeMode register: one bit per decoded digit.
    pub open spec fn spec_value(self) -> u8 {
        match self {
            DecodeMode::NoDecode => 0x00,
            DecodeMode::CodeBDigit0 => 0x01,
            DecodeMode::CodeBDigits3_0 => 0x0F,
            DecodeMode::CodeBDigits7_0 => 0xFF,
        }
    }

    #[verifier::when_used_as_spec(spec_value)]
    pub fn value(self) -> (b: u8)
        ensures
            b == self.spec_value(),
    {
        match self {
            DecodeMode::NoDecode => 0x00,
            DecodeMode::CodeBDigit0 => 0x01,
            DecodeMode::CodeBDigits3_0 => 0x0F,
            DecodeMode::CodeBDigits7_0 => 0xFF,
        }
    }
}

/// The sixteen brightness levels, named by their duty cycle.
#[derive(Debug, Clone, Copy, PartialEq, Eq, Structural)]
pub enum Intensity {
    Min,
    Ratio3_32,
    Ratio5_32,
    Ratio7_32,
    Ratio9_32,
    Ratio11_32,
    Ratio13_32,
    Ratio15_32,
    Ratio17_32,
    Ratio19_32,
    Ratio21_32,
    Ratio23_32,
    Ratio25_32,
    Ratio27_32,
    Ratio29_32,
    Max,
}

impl Intensity {
    /// The data byte for the Intensity register: the level's rank, `Min` being 0.
    pub open spec fn spec_value(self) -> u8 {
        match self {
            Intensity::Min => 0x00,
            Intensity::Ratio3_32 => 0x01,
            Intensity::Ratio5_32 => 0x02,
            Intensity::Ratio7_32 => 0x03,
            Intensity::Ratio9_32 => 0x04,
            Intensity::Ratio11_32 => 0x05,
            Intensity::Ratio13_32 => 0x06,
            Intensity::Ratio15_32 => 0x07,
            Intensity::Ratio17_32 => 0x08,
            Intensity::Ratio19_32 => 0x09,
            Intensity::Ratio21_32 => 0x0A,
            Intensity::Ratio23_32 => 0x0B,
            Intensity::Ratio25_32 => 0x0C,
            Intensity::Ratio27_32 => 0x0D,
            Intensity::Ratio29_32 => 0x0E,
            Intensity::Max => 0x0F,
        }
    }

    #[verifier::when_used_as_spec(spec_value)]
    pub fn value(self) -> (b: u8)
        ensures
            b == self.spec_value(),
    {
        match self {
            Intensity::Min => 0x00,
            Intensity::Ratio3_32 => 0x01,
            Intensity::Ratio5_32 => 0x02,
            Intensity::Ratio7_32 => 0x03,
            Intensity::Ratio9_32 => 0x04,
            Intensity::Ratio11_32 => 0x05,
            Intensity::Ratio13_32 => 0x06,
            Intensity::Ratio15_32 => 0x07,
            Intensity::Ratio17_32 => 0x08,
            Intensity::Ratio19_32 => 0x09,
            Intensity::Ratio21_32 => 0x0A,
            Intensity::Ratio23_32 => 0x0B,
            Intensity::Ratio25_32 => 0x0C,
            Intensity::Ratio27_32 => 0x0D,
            Intensity::Ratio29_32 => 0x0E,
            Intensity::Max => 0x0F,
        }
    }

    /// Every level is one of the sixteen that the Intensity register takes, and two levels
    /// with the same byte are the same level.
    pub proof fn lemma_value_is_a_level(self, other: Intensity)
        ensures
            self.value() <= 0x0F,
            self.value() == other.value() ==> self == other,
    {
    }
}

/// How many digits the device scans, always starting at digit 0.
#[derive(Debug, Clone, Copy, PartialEq, Eq, Structural)]
pub enum ScanLimit {
    Display0Only,
    Display0And1,
    Display0To2,
    Display0To3,
    Display0To4,
    Display0To5,
    Display0To6,
    Display0To7,
}

impl ScanLimit {
    /// The data byte for the ScanLimit register: the index of the last digit scanned.
    pub open spec fn spec_value(self) -> u8 {
        match self {
            ScanLimit::Display0Only => 0x00,
            ScanLimit::Display0And1 => 0x01,
            ScanLimit::Display0To2 => 0x02,
            ScanLimit::Display0To3 => 0x03,
            ScanLimit::Display0To4 => 0x04,
            ScanLimit::Display0To5 => 0x05,
            ScanLimit::Display0To6 => 0x06,
            ScanLimit::Display0To7 => 0x07,
        }
    }

    #[verifier::when_used_as_spec(spec_value)]
    pub fn value(self) -> (b: u8)
        ensures
            b == self.spec_value(),
    {
        match self {
            ScanLimit::Display0Only => 0x00,
            ScanLimit::Display0And1 => 0x01,
            ScanLimit::Display0To2 => 0x02,
            ScanLimit::Display0To3 => 0x03,
            ScanLimit::Display0To4 => 0x04,
            ScanLimit::Display0To5 => 0x05,
            ScanLimit::Display0To6 => 0x06,
            ScanLimit::Display0To7 => 0x07,
        }
    }

    /// Every limit names one of the eight digits, and two limits with the same byte are the
    /// same limit.
    pub proof fn lemma_value_is_a_digit(self, other: ScanLimit)
        ensures
            self.value() <= 0x07,
            self.value() == other.value() ==> self == other,
    {
    }
}

/// Whether the device lights every segment regardless of its registers.
#[derive(Debug, Clone, Copy, PartialEq, Eq, Structural)]
pub enum DisplayTest {
    NormalOperationMode,
    DisplayTestMode,
}

impl DisplayTest {
    /// The data byte that puts the DisplayTest register in this state.
    pub open spec fn spec_value(self) -> u8 {
        match self {
            DisplayTest::NormalOperationMode => 0x00,
            DisplayTest::DisplayTestMode => 0x01,
        }
    }

    #[verifier::when_used_as_spec(spec_value)]
    pub fn value(self) -> (b: u8)
        ensures
            b == self.spec_value(),
    {
        match self {
            DisplayTest::NormalOperationMode => 0x00,
            DisplayTest::DisplayTestMode => 0x01,
        }
    }
}

} // verus!
