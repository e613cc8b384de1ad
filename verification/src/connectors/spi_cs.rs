use crate::connectors::spi::{chain_frame, idle_frame, SpiConnector};
use crate::global::consts::MAX_DISPLAYS;
use crate::global::enums::DriverError;
use crate::trace::RegisterWrite;
use vstd::prelude::*;

verus! {

/// What is to be done next in a transfer under software chip-select.
///
/// The application does what the step names, and hands `next` whether it went well.
#[derive(Debug, Clone, Copy, PartialEq, Eq)]
pub enum Select {
    /// Drive the select pin low.
    Lower,
    /// The chain is selected: put the frame on the bus.
    Send,
    /// Drive the select pin high, which makes the chain latch what it was sent. `so_far` is
    /// what the transfer has come to up to here.
    Raise { so_far: Result<(), DriverError> },
    /// The transfer is over, with this result.
    Done { result: Result<(), DriverError> },
}

/// What a transfer returns, given whether the pin could be driven low, whether the bus
/// took the frame, and whether the pin could be driven high again. A pin that cannot be
/// driven is the worse failure, and is reported before a bus error. Where the pin could not
/// be driven low nothing is sent, and `sent` counts for nothing.
pub open spec fn transfer_result(lowered: bool, sent: bool, raised: bool) -> Result<
    (),
    DriverError,
> {
    if !lowered || !raised {
        Err(DriverError::Pin)
    } else if !sent {
        Err(DriverError::Spi)
    } else {
        Ok(())
    }
}

/// The steps of a transfer, first to last, given how each of them goes. The frame is sent
/// only with the pin low, and the pin is driven high at the end of every transfer.
pub open spec fn transfer_steps(lowered: bool, sent: bool, raised: bool) -> Seq<Select> {
    if lowered {
        seq![
            Select::Lower,
            Select::Send,
            Select::Raise {
                so_far: if sent {
                    Ok(())
                } else {
                    Err(DriverError::Spi)
                },
            },
            Select::Done { result: transfer_result(lowered, sent, raised) },
        ]
    } else {
        seq![
            Select::Lower,
            Select::Raise { so_far: Err(DriverError::Pin) },
            Select::Done { result: transfer_result(lowered, sent, raised) },
        ]
    }
}

impl Select {
    /// The step that follows this one when this one went well (`ok`) or failed.
    pub open spec fn spec_next(self, ok: bool) -> Select {
        match self {
            Select::Lower => if ok {
                Select::Send
            } else {
                Select::Raise { so_far: Err(DriverError::Pin) }
            },
            Select::Send => Select::Raise {
                so_far: if ok {
                    Ok(())
                } else {
                    Err(DriverError::Spi)
                },
            },
            Select::Raise { so_far } => Select::Done {
                result: if ok {
                    so_far
                } else {
                    Err(DriverError::Pin)
                },
            },
            Select::Done { result } => Select::Done { result },
        }
    }

    /// The first step of a transfer.
    pub fn begin() -> (step: Select)
        ensures
            step == Select::Lower,
    {
        Select::Lower
    }

    /// The step that follows this one, given whether this one went well.
    ///
    /// If the pin cannot be driven low, nothing is sent. Whatever happened before, the pin is
    /// driven high before the transfer is over; if that fails, the transfer ends with a pin
    /// error, whatever it had come to.
    #[verifier::when_used_as_spec(spec_next)]
    pub fn next(self, ok: bool) -> (step: Select)
        ensures
            step == self.spec_next(ok),
    {
        match self {
            Select::Lower => {
                if ok {
                    Select::Send
                } else {
                    Select::Raise { so_far: Err(DriverError::Pin) }
                }
            },
            Select::Send => {
                if ok {
                    Select::Raise { so_far: Ok(()) }
                } else {
                    Select::Raise { so_far: Err(DriverError::Spi) }
                }
            },
            Select::Raise { so_far } => {
                if ok {
                    Select::Done { result: so_far }
                } else {
                    Select::Done { result: Err(DriverError::Pin) }
                }
            },
            Select::Done { result } => Select::Done { result },
        }
    }
}

/// A transfer takes the steps of `transfer_steps`, one after the other, and ends with
/// `transfer_result`, however pin and bus behave.
pub proof fn lemma_transfer_runs(lowered: bool, sent: bool, raised: bool)
    ensures
        ({
            let steps = transfer_steps(lowered, sent, raised);
            &&& steps[0] == Select::Lower
            &&& steps[1] == steps[0].next(lowered)
            &&& lowered ==> steps.len() == 4 && steps[2] == steps[1].next(sent) && steps[3]
                == steps[2].next(raised)
            &&& !lowered ==> steps.len() == 3 && steps[2] == steps[1].next(raised)
            &&& steps.last() == (Select::Done { result: transfer_result(lowered, sent, raised) })
        }),
{
}

/// No transfer ends without the pin having been driven high: the step before the end is
/// `Raise`, whether the bus took the frame or not, and whether the pin went low or not.
pub proof fn lemma_pin_is_raised_at_the_end(step: Select, ok: bool)
    requires
        step.next(ok) is Done,
        !(step is Done),
    ensures
        step is Raise,
{
}

/// A pin that cannot be driven gives a pin error, whether or not the bus took the frame;
/// with the pin driven both ways, the result is that of the bus.
pub proof fn lemma_transfer_errors(lowered: bool, sent: bool, raised: bool)
    ensures
        transfer_result(lowered, sent, raised) == Err::<(), DriverError>(DriverError::Pin)
            <==> !lowered || !raised,
        transfer_result(lowered, sent, raised) == Err::<(), DriverError>(DriverError::Spi)
            <==> lowered && raised && !sent,
        transfer_result(lowered, sent, raised) is Ok <==> lowered && raised && sent,
{
}

/// The frame goes on the bus only with the pin low: `Send` follows nothing but a `Lower`
/// that went well.
pub proof fn lemma_frame_is_sent_selected(step: Select, ok: bool)
    requires
        step.next(ok) is Send,
    ensures
        step is Lower,
        ok,
{
}

/// A transfer that is over stays over.
pub proof fn lemma_done_is_final(result: Result<(), DriverError>, ok: bool)
    ensures
        (Select::Done { result }).next(ok) == (Select::Done { result }),
{
}

/// The framing half of a connector that drives chip-select by a pin of its own.
///
/// It frames as `SpiConnector` does; `Select` tells in which order pin and bus are driven.
/// Its view is the frame that the buffer holds.
pub struct SpiConnectorCs {
    spi_c: SpiConnector,
}

impl View for SpiConnectorCs {
    type V = Seq<u8>;

    closed spec fn view(&self) -> Seq<u8> {
        self.spi_c@
    }
}

impl SpiConnectorCs {
    /// The number of devices in the chain.
    pub closed spec fn spec_devices(&self) -> usize {
        self.spi_c.devices()
    }

    /// A connector for a chain of `displays` devices, holding the idle frame.
    pub fn new(displays: usize) -> (c: Self)
        requires
            displays <= MAX_DISPLAYS,
        ensures
            c.devices() == displays,
            c@ == idle_frame(displays as nat),
    {
        SpiConnectorCs { spi_c: SpiConnector::new(displays) }
    }

    #[verifier::when_used_as_spec(spec_devices)]
    pub fn devices(&self) -> (n: usize)
        ensures
            n == self.spec_devices(),
            n <= MAX_DISPLAYS,
    {
        self.spi_c.devices()
    }

    /// Builds the frame for one register write, as `SpiConnector::load` does.
    pub fn load(&mut self, device_addr: usize, register_addr: u8, data: u8) -> (addressed: bool)
        ensures
            final(self).devices() == old(self).devices(),
            addressed == (device_addr < old(self).devices()),
            addressed ==> final(self)@ == chain_frame(
                old(self).devices() as nat,
                RegisterWrite { device: device_addr, register: register_addr, data },
            ),
            !addressed ==> final(self)@ == idle_frame(old(self).devices() as nat),
    {
        self.spi_c.load(device_addr, register_addr, data)
    }

    /// The frame that the buffer holds.
    pub fn frame(&self) -> (bytes: &[u8])
        ensures
            bytes@ == self@,
    {
        self.spi_c.frame()
    }
}

} // verus!
