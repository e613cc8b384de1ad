use crate::connectors::spi::chain_frame;
use crate::encoding::{bcd_byte, ssb_byte};
use crate::global::enums::{DecodeMode, DisplayTest, RegisterAddr, ScanLimit, Shutdown};
use crate::trace::{within_chain, RegisterWrite};
use vstd::prelude::*;

verus! {

/// The write of `data` to the register `register` of the device at `device`.
pub open spec fn write_to(device: usize, register: RegisterAddr, data: u8) -> RegisterWrite {
    RegisterWrite { device, register: register.addr(), data }
}

/// The same write to every device of a chain, in chain order.
pub open spec fn broadcast(devices: usize, register: RegisterAddr, data: u8) -> Seq<RegisterWrite> {
    Seq::new(devices as nat, |i: int| write_to(i as usize, register, data))
}

/// The eight digit registers of one device written in ascending order, register 1 first,
/// with `data[k]` going to register `k + 1`.
pub open spec fn digits(device: usize, data: Seq<u8>) -> Seq<RegisterWrite> {
    Seq::new(8, |k: int| RegisterWrite { device, register: (k + 1) as u8, data: data[k] })
}

/// The eight digit registers of one device written in descending order, register 8 first,
/// with `data[k]` going to register `8 - k`: the first byte lands on the leftmost digit.
pub open spec fn digits_reversed(device: usize, data: Seq<u8>) -> Seq<RegisterWrite> {
    Seq::new(8, |k: int| RegisterWrite { device, register: (8 - k) as u8, data: data[k] })
}

/// Eight zero bytes.
pub open spec fn blank() -> Seq<u8> {
    Seq::new(8, |k: int| 0u8)
}

/// Blanking one device: zero to each of its digit registers, register 1 first.
pub open spec fn clear(device: usize) -> Seq<RegisterWrite> {
    digits(device, blank())
}

/// Blanking a whole chain: device after device, each as `clear` does it.
pub open spec fn clear_all(devices: usize) -> Seq<RegisterWrite> {
    Seq::new(8 * devices as nat, |i: int| clear((i / 8) as usize)[i % 8])
}

/// Whether `dots` asks for the decimal point of the character at index `k` of an eight
/// character text: bit 7 stands for the first character, bit 0 for the last.
pub open spec fn dot_at(dots: u8, k: int) -> bool {
    dots & (0x80u8 >> (k as u8)) != 0
}

/// The segment pattern of each character of a text.
pub open spec fn patterns(string: Seq<u8>, dots: u8) -> Seq<u8> {
    Seq::new(8, |k: int| ssb_byte(string[k], dot_at(dots, k)))
}

/// The Code B byte of each character of a text.
pub open spec fn codes(bcd: Seq<u8>) -> Seq<u8> {
    Seq::new(8, |k: int| bcd_byte(bcd[k]))
}

/// Showing a text on one device: decoding is switched off on that device, then the
/// patterns are written from the leftmost digit down. No other device is written to.
pub open spec fn text(device: usize, string: Seq<u8>, dots: u8) -> Seq<RegisterWrite> {
    seq![write_to(device, RegisterAddr::DecodeMode, DecodeMode::NoDecode.value())] + digits_reversed(
        device,
        patterns(string, dots),
    )
}

/// Showing a Code B text on one device: decoding of all digits is switched on on that
/// device, then the codes are written from the leftmost digit down. No other device is
/// written to.
pub open spec fn code_b(device: usize, bcd: Seq<u8>) -> Seq<RegisterWrite> {
    seq![write_to(device, RegisterAddr::DecodeMode, DecodeMode::CodeBDigits7_0.value())]
        + digits_reversed(device, codes(bcd))
}

/// Bringing one device to its initial state: display test off, decoding off, all eight
/// digits scanned, all digits blank.
pub open spec fn setup(device: usize) -> Seq<RegisterWrite> {
    seq![
        write_to(device, RegisterAddr::DisplayTest, DisplayTest::NormalOperationMode.value()),
        write_to(device, RegisterAddr::DecodeMode, DecodeMode::NoDecode.value()),
        write_to(device, RegisterAddr::ScanLimit, ScanLimit::Display0To7.value()),
    ] + clear(device)
}

/// Bringing each device of a chain to its initial state, in chain order.
pub open spec fn setup_all(devices: usize) -> Seq<RegisterWrite> {
    Seq::new(11 * devices as nat, |i: int| setup((i / 11) as usize)[i % 11])
}

/// Initialising a chain: every device is set up, then the whole chain is shut down.
pub open spec fn init(devices: usize) -> Seq<RegisterWrite> {
    setup_all(devices) + broadcast(
        devices,
        RegisterAddr::Shutdown,
        Shutdown::ShutdownMode.value(),
    )
}

/// Where the writes for one device stand in the plan that blanks a chain.
pub proof fn lemma_clear_all_part(devices: usize, device: usize)
    requires
        device < devices,
    ensures
        clear_all(devices).len() == 8 * devices,
        clear_all(devices).subrange(8 * device, 8 * device + 8) == clear(device),
{
    let part = clear_all(devices).subrange(8 * device, 8 * device + 8);
    assert forall|k: int| 0 <= k < 8 implies part[k] == clear(device)[k] by {
        assert((8 * device + k) / 8 == device);
        assert((8 * device + k) % 8 == k);
    }
    assert(part =~= clear(device));
}

/// Where the writes for one device stand in the plan that initialises a chain.
pub proof fn lemma_init_parts(devices: usize, device: usize)
    requires
        device < devices,
    ensures
        init(devices).len() == 12 * devices,
        init(devices).subrange(11 * device, 11 * device + 11) == setup(device),
        init(devices).subrange(11 * device, 11 * device + 1) == seq![
            write_to(device, RegisterAddr::DisplayTest, DisplayTest::NormalOperationMode.value()),
        ],
        init(devices).subrange(11 * device + 1, 11 * device + 2) == seq![
            write_to(device, RegisterAddr::DecodeMode, DecodeMode::NoDecode.value()),
        ],
        init(devices).subrange(11 * device + 2, 11 * device + 3) == seq![
            write_to(device, RegisterAddr::ScanLimit, ScanLimit::Display0To7.value()),
        ],
        init(devices).subrange(11 * device + 3, 11 * device + 11) == clear(device),
{
    let whole = init(devices);
    let base = 11 * device;
    assert(setup_all(devices).len() == 11 * devices);
    assert(whole.len() == 12 * devices);
    assert(setup(device).len() == 11);
    assert forall|k: int| 0 <= k < 11 implies whole[base + k] == setup(device)[k] by {
        assert(whole[base + k] == setup_all(devices)[base + k]);
        assert((base + k) / 11 == device);
        assert((base + k) % 11 == k);
    }
    assert(whole.subrange(base, base + 11) =~= setup(device));
    assert(whole.subrange(base, base + 1) =~= seq![setup(device)[0]]);
    assert(whole.subrange(base + 1, base + 2) =~= seq![setup(device)[1]]);
    assert(whole.subrange(base + 2, base + 3) =~= seq![setup(device)[2]]);
    assert forall|k: int| 0 <= k < 8 implies whole[base + 3 + k] == clear(device)[k] by {
        assert(whole[base + (3 + k)] == setup(device)[3 + k]);
    }
    assert(whole.subrange(base + 3, base + 11) =~= clear(device));
}

/// The plan that initialises a chain ends with the shutdown of every device.
pub proof fn lemma_init_ends_with_shutdown(devices: usize)
    ensures
        init(devices).len() == 12 * devices,
        init(devices).take(11 * devices as int) == setup_all(devices),
        init(devices).subrange(11 * devices as int, 12 * devices as int) == broadcast(
            devices,
            RegisterAddr::Shutdown,
            Shutdown::ShutdownMode.value(),
        ),
{
    assert(init(devices).take(11 * devices as int) =~= setup_all(devices));
    assert(init(devices).subrange(11 * devices as int, 12 * devices as int) =~= broadcast(
        devices,
        RegisterAddr::Shutdown,
        Shutdown::ShutdownMode.value(),
    ));
}

/// The writes that initialise a chain, byte by byte: for each device, in chain order,
/// DisplayTest (0x0F) to normal operation, DecodeMode (0x09) to no decoding, ScanLimit
/// (0x0B) to all eight digits, and zero to the digit registers 1 to 8; then, after the last
/// device is set up, Shutdown (0x0C) to shutdown mode for every device.
pub proof fn lemma_init_writes(devices: usize, device: usize)
    requires
        device < devices,
    ensures
        init(devices).len() == 12 * devices,
        init(devices)[11 * device] == (RegisterWrite { device, register: 0x0F, data: 0x00 }),
        init(devices)[11 * device + 1] == (RegisterWrite { device, register: 0x09, data: 0x00 }),
        init(devices)[11 * device + 2] == (RegisterWrite { device, register: 0x0B, data: 0x07 }),
        forall|k: int|
            0 <= k < 8 ==> #[trigger] init(devices)[11 * device + 3 + k] == (RegisterWrite {
                device,
                register: (k + 1) as u8,
                data: 0x00,
            }),
        init(devices)[11 * devices + device] == (RegisterWrite {
            device,
            register: 0x0C,
            data: 0x00,
        }),
{
    lemma_init_parts(devices, device);
    let whole = init(devices);
    let base = 11 * device;
    assert(whole[base] == whole.subrange(base, base + 11)[0]);
    assert(whole[base + 1] == whole.subrange(base, base + 11)[1]);
    assert(whole[base + 2] == whole.subrange(base, base + 11)[2]);
    assert forall|k: int| 0 <= k < 8 implies #[trigger] whole[base + 3 + k] == (RegisterWrite {
        device,
        register: (k + 1) as u8,
        data: 0x00,
    }) by {
        assert(whole[base + 3 + k] == whole.subrange(base + 3, base + 11)[k]);
    }
    lemma_init_ends_with_shutdown(devices);
    assert(whole[11 * devices + device] == whole.subrange(11 * devices as int, 12 * devices as int)[
        device as int
    ]);
}

/// Blanking a chain of N devices takes 8N writes, each of zero to a digit register of a
/// device of the chain; and each digit register of each device is written exactly once.
pub proof fn lemma_clear_all_covers_each_digit_once(devices: usize, device: usize, register: u8)
    requires
        device < devices,
        1 <= register <= 8,
    ensures
        clear_all(devices).len() == 8 * devices,
        forall|i: int|
            0 <= i < 8 * devices ==> (#[trigger] clear_all(devices)[i]).data == 0x00 && 1 <= clear_all(
                devices,
            )[i].register <= 8 && clear_all(devices)[i].device < devices,
        forall|i: int|
            0 <= i < 8 * devices ==> ((#[trigger] clear_all(devices)[i]) == (RegisterWrite {
                device,
                register,
                data: 0x00,
            }) <==> i == 8 * device + register - 1),
{
    let whole = clear_all(devices);
    assert forall|i: int| 0 <= i < 8 * devices implies ((#[trigger] whole[i]) == (RegisterWrite {
        device,
        register,
        data: 0x00,
    }) <==> i == 8 * device + register - 1) by {
        assert(whole[i] == clear((i / 8) as usize)[i % 8]);
        assert(i == 8 * (i / 8) + i % 8);
    }
}

/// Bit `register - 1` of `dots` is the decimal point of the character that lands on the
/// digit register `register`.
pub proof fn lemma_dot_of_register(dots: u8, register: u8)
    requires
        1 <= register <= 8,
    ensures
        dot_at(dots, 8 - register) == (dots & (1u8 << ((register - 1) as u8)) != 0),
{
    let k = (8 - register) as u8;
    let bit = (register - 1) as u8;
    assert(0x80u8 >> k == 1u8 << bit) by (bit_vector)
        requires
            k + bit == 7,
            k <= 7,
    ;
}

/// A text takes nine writes, all to the device that shows it: the decode mode, then one
/// write to each digit register. The register `register` gets the pattern of the character
/// at index `8 - register`, with the decimal point that `dots` asks for at that index; no
/// other write of the plan goes to that register.
pub proof fn lemma_text_writes(device: usize, string: Seq<u8>, dots: u8, register: u8)
    requires
        1 <= register <= 8,
    ensures
        text(device, string, dots).len() == 9,
        text(device, string, dots)[0] == (RegisterWrite { device, register: 0x09, data: 0x00 }),
        forall|i: int| 0 <= i < 9 ==> (#[trigger] text(device, string, dots)[i]).device == device,
        text(device, string, dots)[9 - register] == (RegisterWrite {
            device,
            register,
            data: ssb_byte(string[8 - register], dot_at(dots, 8 - register)),
        }),
        forall|i: int|
            1 <= i < 9 && (#[trigger] text(device, string, dots)[i]).register == register ==> i == 9
                - register,
{
}

/// A Code B text takes nine writes, all to the device that shows it: the decode mode, then
/// one write to each digit register. The register `register` gets the code of the character
/// at index `8 - register`; no other write of the plan goes to that register.
pub proof fn lemma_code_b_writes(device: usize, bcd: Seq<u8>, register: u8)
    requires
        1 <= register <= 8,
    ensures
        code_b(device, bcd).len() == 9,
        code_b(device, bcd)[0] == (RegisterWrite { device, register: 0x09, data: 0xFF }),
        forall|i: int| 0 <= i < 9 ==> (#[trigger] code_b(device, bcd)[i]).device == device,
        code_b(device, bcd)[9 - register] == (RegisterWrite {
            device,
            register,
            data: bcd_byte(bcd[8 - register]),
        }),
        forall|i: int|
            1 <= i < 9 && (#[trigger] code_b(device, bcd)[i]).register == register ==> i == 9
                - register,
{
}

/// No plan for a whole chain addresses a device outside the chain.
pub proof fn lemma_chain_plans_stay_within_chain(devices: usize, register: RegisterAddr, data: u8)
    ensures
        within_chain(broadcast(devices, register, data), devices),
        within_chain(clear_all(devices), devices),
        within_chain(init(devices), devices),
{
    assert forall|i: int| 0 <= i < 8 * devices implies (#[trigger] clear_all(devices)[i]).device
        < devices by {
        assert(clear_all(devices)[i] == clear((i / 8) as usize)[i % 8]);
    }
    let whole = init(devices);
    assert forall|i: int| 0 <= i < whole.len() implies (#[trigger] whole[i]).device < devices by {
        if i < 11 * devices {
            assert(whole[i] == setup((i / 11) as usize)[i % 11]);
        } else {
            assert(whole[i] == broadcast(
                devices,
                RegisterAddr::Shutdown,
                Shutdown::ShutdownMode.value(),
            )[i - 11 * devices]);
        }
    }
}

/// No plan for a device of the chain addresses a device outside the chain.
pub proof fn lemma_device_plans_stay_within_chain(
    devices: usize,
    device: usize,
    register: RegisterAddr,
    data: u8,
    bytes: Seq<u8>,
    dots: u8,
)
    requires
        device < devices,
    ensures
        within_chain(seq![write_to(device, register, data)], devices),
        within_chain(digits(device, bytes), devices),
        within_chain(clear(device), devices),
        within_chain(text(device, bytes, dots), devices),
        within_chain(code_b(device, bytes), devices),
{
}

/// Each frame of the blanking of a chain holds one byte that is not zero: the address of
/// the digit register, in the pair of the device that is blanked.
pub proof fn lemma_clear_all_frames(devices: usize, i: int)
    requires
        0 <= i < 8 * devices,
    ensures
        chain_frame(devices as nat, clear_all(devices)[i]).len() == 2 * devices,
        forall|at: int|
            0 <= at < 2 * devices ==> (chain_frame(devices as nat, clear_all(devices)[i])[at] != 0x00
                <==> at == 2 * (i / 8)),
        chain_frame(devices as nat, clear_all(devices)[i])[2 * (i / 8)] == i % 8 + 1,
{
    assert(clear_all(devices)[i] == clear((i / 8) as usize)[i % 8]);
}

} // verus!
