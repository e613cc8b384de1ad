use crate::global::enums::{DriverError, RegisterAddr};
use vstd::prelude::*;

verus! {

/// The size in bytes of one frame for a chain of `devices` devices: a (register, data) pair
/// per device. Where twice `devices` does not fit in a `usize`, the largest `usize`.
pub open spec fn spec_frame_len(devices: usize) -> usize {
    if 2 * devices <= usize::MAX {
        (2 * devices) as usize
    } else {
        usize::MAX
    }
}

#[verifier::when_used_as_spec(spec_frame_len)]
pub fn frame_len(devices: usize) -> (n: usize)
    ensures
        n == spec_frame_len(devices),
{
    if devices <= usize::MAX / 2 {
        devices * 2
    } else {
        usize::MAX
    }
}

/// The link between the driver and a chain of devices.
///
/// An implementation owns the bus, and the select pin if it drives one. It says how many
/// devices the chain has and how one register write is carried to it; of what these two
/// answer the driver asks nothing, and takes it as it comes. The two other methods are
/// stated in terms of them.
pub trait Connector {
    /// The number of devices in the chain.
    fn devices(&self) -> usize;

    /// The size in bytes of one chain frame: a (register, data) pair per device, that is
    /// `frame_len` of the number that `devices` gives.
    fn serial_data_max_bytes(&self) -> (n: usize)
        ensures
            exists|devices: usize|
                #[trigger] call_ensures(Self::devices, (self,), devices) && n == frame_len(devices),
    {
        frame_len(self.devices())
    }

    /// Writes `data` to the register `register_address` of the device at `device_addr`. This
    /// is one call of `write_raw` with the register's address byte: what is returned is
    /// what that call returns, and the connector is left as that call leaves it.
    fn write_register_data(
        &mut self,
        device_addr: usize,
        register_address: RegisterAddr,
        data: u8,
    ) -> (r: Result<(), DriverError>)
        ensures
            exists|link: &mut Self|
                &*link == &*old(self) && &*final(link) == &*final(self) && #[trigger] call_ensures(
                    Self::write_raw,
                    (link, device_addr, register_address.addr(), data),
                    r,
                ),
    {
        self.write_raw(device_addr, register_address.addr(), data)
    }

    /// Writes `data` to the register addressed by the byte `register_addr` of the device at
    /// `device_addr`, and sends every other device of the chain a no-op.
    fn write_raw(&mut self, device_addr: usize, register_addr: u8, data: u8) -> Result<
        (),
        DriverError,
    >;
}

} // verus!
