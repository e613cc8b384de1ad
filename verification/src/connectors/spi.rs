use crate::global::consts::{MAX_DISPLAYS, MAX_SERIAL_DATA_BYTES};
use crate::global::enums::{DriverError, RegisterAddr};
use crate::trace::RegisterWrite;
use vstd::prelude::*;

verus! {

/// The frame that carries `write` to a chain of `devices` devices: one (register, data)
/// pair per device, the first device's pair first. The pair of the addressed device holds the
/// write; every other pair is a no-op with data zero, so that no other device changes when
/// the chain latches the frame.
pub open spec fn chain_frame(devices: nat, write: RegisterWrite) -> Seq<u8> {
    Seq::new(
        2 * devices,
        |i: int|
            if i == 2 * write.device {
                write.register
            } else if i == 2 * write.device + 1 {
                write.data
            } else if i % 2 == 0 {
                RegisterAddr::NoOp.addr()
            } else {
                0u8
            },
    )
}

/// The frame that leaves every device of a chain as it is.
pub open spec fn idle_frame(devices: nat) -> Seq<u8> {
    Seq::new(
        2 * devices,
        |i: int|
            if i % 2 == 0 {
                RegisterAddr::NoOp.addr()
            } else {
                0u8
            },
    )
}

/// The framing half of a connector whose bus drives chip-select by itself.
///
/// It holds the length of the chain and the buffer in which each frame is built. Its view
/// is the frame that the buffer holds: the bytes to put on the bus.
pub struct SpiConnector {
    devices: usize,
    buffer: [u8; MAX_SERIAL_DATA_BYTES],
}

impl View for SpiConnector {
    type V = Seq<u8>;

    closed spec fn view(&self) -> Seq<u8> {
        self.buffer@.take(2 * self.devices)
    }
}

impl SpiConnector {
    #[verifier::type_invariant]
    spec fn fits(self) -> bool {
        self.devices <= MAX_DISPLAYS
    }

    /// The number of devices in the chain.
    pub closed spec fn spec_devices(&self) -> usize {
        self.devices
    }

    /// A connector for a chain of `displays` devices, holding the idle frame.
    pub fn new(displays: usize) -> (c: Self)
        requires
            displays <= MAX_DISPLAYS,
        ensures
            c.devices() == displays,
            c@ == idle_frame(displays as nat),
    {
        let c = SpiConnector { devices: displays, buffer: [0;MAX_SERIAL_DATA_BYTES] };
        assert(c@ =~= idle_frame(displays as nat));
        c
    }

    #[verifier::when_used_as_spec(spec_devices)]
    pub fn devices(&self) -> (n: usize)
        ensures
            n == self.spec_devices(),
            n <= MAX_DISPLAYS,
    {
        proof {
            use_type_invariant(self);
        }
        self.devices
    }

    /// The size in bytes of one chain frame.
    pub fn serial_data_max_bytes(&self) -> (n: usize)
        ensures
            n == 2 * self.devices(),
            n == self@.len(),
    {
        proof {
            use_type_invariant(self);
        }
        self.devices * 2
    }

    /// Builds the frame that writes `data` to the register addressed by `register_addr` of
    /// the device at `device_addr`, and tells whether there is such a device. Where there
    /// is none, the buffer holds the idle frame: nothing is written past the frame.
    pub fn load(&mut self, device_addr: usize, register_addr: u8, data: u8) -> (addressed: bool)
        ensures
            final(self).devices() == old(self).devices(),
            addressed == (device_addr < old(self).devices()),
            addressed ==> final(self)@ == chain_frame(
                old(self).devices() as nat,
                RegisterWrite { device: device_addr, register: register_addr, data },
            ),
            !addressed ==> final(self)@ == idle_frame(old(self).devices() as nat),
    {
        proof {
            use_type_invariant(&*self);
        }
        self.buffer = [0;MAX_SERIAL_DATA_BYTES];
        if device_addr < self.devices {
            // each device takes two bytes of the frame: its register address, then its data
            let offset = device_addr * 2;
            self.buffer[offset] = register_addr;
            self.buffer[offset + 1] = data;
            assert(self@ =~= chain_frame(
                self.devices() as nat,
                RegisterWrite { device: device_addr, register: register_addr, data },
            ));
            true
        } else {
            assert(self@ =~= idle_frame(self.devices() as nat));
            false
        }
    }

    /// The frame that the buffer holds.
    pub fn frame(&self) -> (bytes: &[u8])
        ensures
            bytes@ == self@,
    {
        proof {
            use_type_invariant(self);
        }
        let n = self.devices * 2;
        let bytes = vstd::slice::slice_subrange(self.buffer.as_slice(), 0, n);
        assert(bytes@ =~= self@);
        bytes
    }

    /// What a write returns once the bus has answered: success if the bus took the frame,
    /// a bus error if it did not.
    pub fn finish(sent: bool) -> (r: Result<(), DriverError>)
        ensures
            r == if sent {
                Ok::<(), DriverError>(())
            } else {
                Err::<(), DriverError>(DriverError::Spi)
            },
    {
        if sent {
            Ok(())
        } else {
            Err(DriverError::Spi)
        }
    }
}

/// The (register, data) pair that a frame holds for the device at `device`.
pub open spec fn pair_of(frame: Seq<u8>, device: int) -> (u8, u8) {
    (frame[2 * device], frame[2 * device + 1])
}

/// A frame for a chain of N devices has 2N bytes; the pair of the addressed device holds the
/// register address and the data, and every other pair is (0x00, 0x00).
pub proof fn lemma_frame_addresses_one_device(devices: nat, write: RegisterWrite)
    requires
        write.device < devices,
    ensures
        chain_frame(devices, write).len() == 2 * devices,
        pair_of(chain_frame(devices, write), write.device as int) == (write.register, write.data),
        forall|k: int|
            0 <= k < devices && k != write.device ==> #[trigger] pair_of(
                chain_frame(devices, write),
                k,
            ) == (0x00u8, 0x00u8),
{
}

/// A frame that writes zero to a register other than the no-op register holds one byte that
/// is not zero: the register address, in the pair of the addressed device.
pub proof fn lemma_zero_write_has_one_nonzero_byte(devices: nat, write: RegisterWrite)
    requires
        write.device < devices,
        write.register != 0x00,
        write.data == 0x00,
    ensures
        forall|i: int|
            0 <= i < 2 * devices ==> (chain_frame(devices, write)[i] != 0x00 <==> i == 2
                * write.device),
{
}

/// The idle frame is all zero.
pub proof fn lemma_idle_frame_is_zero(devices: nat)
    ensures
        idle_frame(devices).len() == 2 * devices,
        forall|i: int| 0 <= i < 2 * devices ==> idle_frame(devices)[i] == 0x00,
{
}

} // verus!
