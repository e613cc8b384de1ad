//! A verified driver for chains of MAX7219 LED display drivers.
//!
//! The device drives an 8x8 LED matrix or eight seven-segment digits, and takes its orders
//! as two-byte frames, a register address and a data byte, over a serial bus. Devices wired
//! in series are addressed by the place of their two bytes in one long frame.
//!
//! - [`MAX7219`] is the driver: power, brightness, scan limit, decode mode, rows and digits,
//!   text. What each operation asks of the chain, and in which order, is proved against the
//!   plans of [`plan`], over the trace of [`trace`].
//! - [`connectors`] holds the link to the chain: the [`connectors::traits::Connector`] that
//!   the driver writes through, the framing of a register write for a chain, and the order in
//!   which pin and bus are driven under software chip-select. The bus and the pin themselves
//!   belong to the application.
//! - [`encoding`] maps ASCII to segment patterns and to Code B.
//! - [`global`] and [`enums`] hold the registers of the device and their values.

use vstd::prelude::*;

pub mod connectors;
pub mod encoding;
pub mod enums;
pub mod global;
pub mod plan;
pub mod trace;

use crate::connectors::traits::Connector;
use crate::encoding::{bcd_byte, ssb_byte};
use crate::enums::DigitRowAddress;
use crate::global::consts::MAX_DIGITS;
use crate::global::enums::{
    DecodeMode, DisplayTest, DriverError, Intensity, RegisterAddr, ScanLimit, Shutdown,
};
use crate::trace::{
    asked, carried_out, lemma_calls_compose, lemma_empty_plan, lemma_next_part, lemma_no_call,
    lemma_one_success, lemma_single_write, Exchange, RegisterWrite,
};

verus! {

/// The driver of a chain of devices behind a connector.
///
/// Its view is the trace of the driver: every register write it has handed to the connector,
/// oldest first, each with the connector's answer. Every operation states, beside what it
/// adds to the trace, that each exchange it adds is one call of `write_raw` on the connector:
/// there are connectors `states`, the first the connector as the operation found it and the
/// last the connector as it leaves it, and the call for exchange `i` took the connector from
/// `states[i]` to `states[i + 1]`.
pub struct MAX7219<CONNECTOR> {
    c: CONNECTOR,
    devices: usize,
    log: Ghost<Seq<Exchange>>,
}

impl<CONNECTOR> View for MAX7219<CONNECTOR> {
    type V = Seq<Exchange>;

    closed spec fn view(&self) -> Seq<Exchange> {
        self.log@
    }
}

impl<CONNECTOR: Connector> MAX7219<CONNECTOR> {
    /// The length of the chain, as the connector gave it when the driver was made.
    pub closed spec fn spec_devices(&self) -> usize {
        self.devices
    }

    /// The connector that the driver writes through, as it is now.
    pub closed spec fn connector(&self) -> CONNECTOR {
        self.c
    }

    /// The length of the chain. A device is addressed by its place in the chain, from 0 up
    /// to, and not including, this number.
    #[verifier::when_used_as_spec(spec_devices)]
    pub fn devices(&self) -> (n: usize)
        ensures
            n == self.spec_devices(),
    {
        self.devices
    }

    /// Makes the driver of the chain behind `connector` and initialises the chain: on every
    /// device the display test is switched off, decoding is switched off, all eight digits
    /// are scanned and blanked; then the whole chain is shut down. Nothing shows until
    /// `power_on`.
    ///
    /// The length of the chain is what `devices` answers on `connector`, asked once. The
    /// trace of the new driver is the run of the initialisation, every exchange of it a call
    /// of `write_raw` on the connector, each on the connector as the call before left it.
    /// Where a write fails no driver is returned: the one that was being made, `failed`, had
    /// come as far as that write.
    pub fn new(connector: CONNECTOR) -> (r: Result<Self, DriverError>)
        ensures
            match r {
                Ok(driver) => call_ensures(CONNECTOR::devices, (&connector,), driver.devices())
                    && carried_out(Seq::empty(), driver@, plan::init(driver.devices()), Ok(()))
                    && exists|states: Seq<CONNECTOR>|
                        #![trigger states.len()]
                        states.len() == driver@.len() + 1
                            && states[0] == connector
                            && states.last() == driver.connector()
                            && forall|i: int|
                                #![trigger driver@[i]]
                                0 <= i < states.len() - 1 ==> exists|link: &mut CONNECTOR|
                                    *link == states[i] && *final(link) == states[i + 1]
                                        && #[trigger] asked(link, driver@[i]),
                Err(e) => exists|failed: Self|
                    #![trigger failed@]
                    call_ensures(CONNECTOR::devices, (&connector,), failed.devices())
                    && carried_out(Seq::empty(), failed@, plan::init(failed.devices()), Err(e))
                    && exists|states: Seq<CONNECTOR>|
                        #![trigger states.len()]
                        states.len() == failed@.len() + 1
                            && states[0] == connector
                            && states.last() == failed.connector()
                            && forall|i: int|
                                #![trigger failed@[i]]
                                0 <= i < states.len() - 1 ==> exists|link: &mut CONNECTOR|
                                    *link == states[i] && *final(link) == states[i + 1]
                                        && #[trigger] asked(link, failed@[i]),
            },
    {
        let devices = connector.devices();
        let mut max7219 = MAX7219 { c: connector, devices, log: Ghost(Seq::empty()) };
        let r = max7219.init();
        proof {
            let nothing = Seq::<Exchange>::empty();
            let states = choose|states: Seq<CONNECTOR>|
                #![trigger states.len()]
                states.len() == max7219@.len() - nothing.len() + 1
                    && states[0] == connector
                    && states.last() == max7219.connector()
                    && forall|i: int|
                        #![trigger max7219@.skip(nothing.len() as int)[i]]
                        0 <= i < states.len() - 1 ==> exists|link: &mut CONNECTOR|
                            *link == states[i] && *final(link) == states[i + 1]
                                && #[trigger] asked(link, max7219@.skip(nothing.len() as int)[i]);
            assert(states.len() == max7219@.len() + 1);
            assert forall|i: int|
                #![trigger max7219@[i]]
                0 <= i < states.len() - 1 implies exists|link: &mut CONNECTOR|
                *link == states[i] && *final(link) == states[i + 1] && #[trigger] asked(
                    link,
                    max7219@[i],
                ) by {
                assert(max7219@.skip(nothing.len() as int)[i] == max7219@[i]);
            }
        }
        match r {
            Ok(()) => {
                proof {
                    lemma_one_success(r);
                }
                Ok(max7219)
            },
            Err(e) => Err(e),
        }
    }

    /// Initialises the chain, as `new` does.
    pub fn init(&mut self) -> (r: Result<(), DriverError>)
        ensures
            final(self).devices() == old(self).devices(),
            carried_out(old(self)@, final(self)@, plan::init(old(self).devices()), r),
            exists|states: Seq<CONNECTOR>|
                #![trigger states.len()]
                states.len() == final(self)@.len() - old(self)@.len() + 1
                    && states[0] == old(self).connector()
                    && states.last() == final(self).connector()
                    && forall|i: int|
                        #![trigger final(self)@.skip(old(self)@.len() as int)[i]]
                        0 <= i < states.len() - 1 ==> exists|link: &mut CONNECTOR|
                            *link == states[i] && *final(link) == states[i + 1]
                                && #[trigger] asked(
                                    link,
                                    final(self)@.skip(old(self)@.len() as int)[i],
                                ),
    {
        let n = self.devices;
        let ghost todo = plan::init(n);
        proof {
            lemma_empty_plan(self@);
            lemma_no_call(self.connector(), self@);
            assert(todo.take(0) =~= Seq::empty());
        }
        for i in 0..n
            invariant
                n == self.devices() == old(self).devices(),
                todo == plan::init(n),
                carried_out(old(self)@, self@, todo.take(11 * i), Ok(())),
                exists|states: Seq<CONNECTOR>|
                    #![trigger states.len()]
                    states.len() == self@.len() - old(self)@.len() + 1
                        && states[0] == old(self).connector()
                        && states.last() == self.connector()
                        && forall|i: int|
                            #![trigger self@.skip(old(self)@.len() as int)[i]]
                            0 <= i < states.len() - 1 ==> exists|link: &mut CONNECTOR|
                                *link == states[i] && *final(link) == states[i + 1]
                                    && #[trigger] asked(
                                        link,
                                        self@.skip(old(self)@.len() as int)[i],
                                    ),
        {
            proof {
                plan::lemma_init_parts(n, i);
            }
            let ghost mid = self@;
            let ghost held = self.connector();
            let r = self.set_display_test_mode(i, DisplayTest::NormalOperationMode);
            proof {
                lemma_next_part(
                    old(self)@,
                    mid,
                    self@,
                    todo,
                    11 * i,
                    seq![
                        plan::write_to(
                            i,
                            RegisterAddr::DisplayTest,
                            DisplayTest::NormalOperationMode.value(),
                        ),
                    ],
                    r,
                );
                lemma_calls_compose(
                    old(self).connector(),
                    held,
                    self.connector(),
                    old(self)@,
                    mid,
                    self@,
                );
            }
            if r.is_err() {
                return r;
            }
            let ghost mid = self@;
            let ghost held = self.connector();
            let r = self.set_decode_mode(i, DecodeMode::NoDecode);
            proof {
                lemma_next_part(
                    old(self)@,
                    mid,
                    self@,
                    todo,
                    11 * i + 1,
                    seq![plan::write_to(i, RegisterAddr::DecodeMode, DecodeMode::NoDecode.value())],
                    r,
                );
                lemma_calls_compose(
                    old(self).connector(),
                    held,
                    self.connector(),
                    old(self)@,
                    mid,
                    self@,
                );
            }
            if r.is_err() {
                return r;
            }
            let ghost mid = self@;
            let ghost held = self.connector();
            let r = self.set_scan_limit(i, ScanLimit::Display0To7);
            proof {
                lemma_next_part(
                    old(self)@,
                    mid,
                    self@,
                    todo,
                    11 * i + 2,
                    seq![plan::write_to(i, RegisterAddr::ScanLimit, ScanLimit::Display0To7.value())],
                    r,
                );
                lemma_calls_compose(
                    old(self).connector(),
                    held,
                    self.connector(),
                    old(self)@,
                    mid,
                    self@,
                );
            }
            if r.is_err() {
                return r;
            }
            let ghost mid = self@;
            let ghost held = self.connector();
            let r = self.clear_display(i);
            proof {
                lemma_next_part(old(self)@, mid, self@, todo, 11 * i + 3, plan::clear(i), r);
                lemma_calls_compose(
                    old(self).connector(),
                    held,
                    self.connector(),
                    old(self)@,
                    mid,
                    self@,
                );
            }
            if r.is_err() {
                return r;
            }
        }
        let ghost mid = self@;
        let ghost held = self.connector();
        let r = self.power_off();
        proof {
            plan::lemma_init_ends_with_shutdown(n);
            lemma_next_part(
                old(self)@,
                mid,
                self@,
                todo,
                11 * n,
                plan::broadcast(n, RegisterAddr::Shutdown, Shutdown::ShutdownMode.value()),
                r,
            );
            lemma_calls_compose(
                old(self).connector(),
                held,
                self.connector(),
                old(self)@,
                mid,
                self@,
            );
        }
        r
    }

    /// Powers on every device of the chain.
    pub fn power_on(&mut self) -> (r: Result<(), DriverError>)
        ensures
            final(self).devices() == old(self).devices(),
            carried_out(
                old(self)@,
                final(self)@,
                plan::broadcast(
                    old(self).devices(),
                    RegisterAddr::Shutdown,
                    Shutdown::NormalOperation.value(),
                ),
                r,
            ),
            exists|states: Seq<CONNECTOR>|
                #![trigger states.len()]
                states.len() == final(self)@.len() - old(self)@.len() + 1
                    && states[0] == old(self).connector()
                    && states.last() == final(self).connector()
                    && forall|i: int|
                        #![trigger final(self)@.skip(old(self)@.len() as int)[i]]
                        0 <= i < states.len() - 1 ==> exists|link: &mut CONNECTOR|
                            *link == states[i] && *final(link) == states[i + 1]
                                && #[trigger] asked(
                                    link,
                                    final(self)@.skip(old(self)@.len() as int)[i],
                                ),
    {
        self.set_all_devices(RegisterAddr::Shutdown, Shutdown::NormalOperation.value())
    }

    /// Powers off every device of the chain.
    pub fn power_off(&mut self) -> (r: Result<(), DriverError>)
        ensures
            final(self).devices() == old(self).devices(),
            carried_out(
                old(self)@,
                final(self)@,
                plan::broadcast(
                    old(self).devices(),
                    RegisterAddr::Shutdown,
                    Shutdown::ShutdownMode.value(),
                ),
                r,
            ),
            exists|states: Seq<CONNECTOR>|
                #![trigger states.len()]
                states.len() == final(self)@.len() - old(self)@.len() + 1
                    && states[0] == old(self).connector()
                    && states.last() == final(self).connector()
                    && forall|i: int|
                        #![trigger final(self)@.skip(old(self)@.len() as int)[i]]
                        0 <= i < states.len() - 1 ==> exists|link: &mut CONNECTOR|
                            *link == states[i] && *final(link) == states[i + 1]
                                && #[trigger] asked(
                                    link,
                                    final(self)@.skip(old(self)@.len() as int)[i],
                                ),
    {
        self.set_all_devices(RegisterAddr::Shutdown, Shutdown::ShutdownMode.value())
    }

    /// Puts every device of the chain in the power state `mode`.
    pub fn set_shutdown_mode(&mut self, mode: Shutdown) -> (r: Result<(), DriverError>)
        ensures
            final(self).devices() == old(self).devices(),
            carried_out(
                old(self)@,
                final(self)@,
                plan::broadcast(old(self).devices(), RegisterAddr::Shutdown, mode.value()),
                r,
            ),
            exists|states: Seq<CONNECTOR>|
                #![trigger states.len()]
                states.len() == final(self)@.len() - old(self)@.len() + 1
                    && states[0] == old(self).connector()
                    && states.last() == final(self).connector()
                    && forall|i: int|
                        #![trigger final(self)@.skip(old(self)@.len() as int)[i]]
                        0 <= i < states.len() - 1 ==> exists|link: &mut CONNECTOR|
                            *link == states[i] && *final(link) == states[i + 1]
                                && #[trigger] asked(
                                    link,
                                    final(self)@.skip(old(self)@.len() as int)[i],
                                ),
    {
        self.set_all_devices(RegisterAddr::Shutdown, mode.value())
    }

    /// Sets which digits the device at `device_addr` decodes from Code B.
    pub fn set_decode_mode(&mut self, device_addr: usize, mode: DecodeMode) -> (r: Result<
        (),
        DriverError,
    >)
        requires
            device_addr < old(self).devices(),
        ensures
            final(self).devices() == old(self).devices(),
            carried_out(
                old(self)@,
                final(self)@,
                seq![plan::write_to(device_addr, RegisterAddr::DecodeMode, mode.value())],
                r,
            ),
            exists|states: Seq<CONNECTOR>|
                #![trigger states.len()]
                states.len() == final(self)@.len() - old(self)@.len() + 1
                    && states[0] == old(self).connector()
                    && states.last() == final(self).connector()
                    && forall|i: int|
                        #![trigger final(self)@.skip(old(self)@.len() as int)[i]]
                        0 <= i < states.len() - 1 ==> exists|link: &mut CONNECTOR|
                            *link == states[i] && *final(link) == states[i + 1]
                                && #[trigger] asked(
                                    link,
                                    final(self)@.skip(old(self)@.len() as int)[i],
                                ),
    {
        self.issue_register(device_addr, RegisterAddr::DecodeMode, mode.value())
    }

    /// Sets the brightness of every device of the chain.
    pub fn set_intensity_all(&mut self, mode: Intensity) -> (r: Result<(), DriverError>)
        ensures
            final(self).devices() == old(self).devices(),
            carried_out(
                old(self)@,
                final(self)@,
                plan::broadcast(old(self).devices(), RegisterAddr::Intensity, mode.value()),
                r,
            ),
            exists|states: Seq<CONNECTOR>|
                #![trigger states.len()]
                states.len() == final(self)@.len() - old(self)@.len() + 1
                    && states[0] == old(self).connector()
                    && states.last() == final(self).connector()
                    && forall|i: int|
                        #![trigger final(self)@.skip(old(self)@.len() as int)[i]]
                        0 <= i < states.len() - 1 ==> exists|link: &mut CONNECTOR|
                            *link == states[i] && *final(link) == states[i + 1]
                                && #[trigger] asked(
                                    link,
                                    final(self)@.skip(old(self)@.len() as int)[i],
                                ),
    {
        self.set_all_devices(RegisterAddr::Intensity, mode.value())
    }

    /// Sets the brightness of the device at `device_addr`.
    pub fn set_intensity(&mut self, device_addr: usize, mode: Intensity) -> (r: Result<
        (),
        DriverError,
    >)
        requires
            device_addr < old(self).devices(),
        ensures
            final(self).devices() == old(self).devices(),
            carried_out(
                old(self)@,
                final(self)@,
                seq![plan::write_to(device_addr, RegisterAddr::Intensity, mode.value())],
                r,
            ),
            exists|states: Seq<CONNECTOR>|
                #![trigger states.len()]
                states.len() == final(self)@.len() - old(self)@.len() + 1
                    && states[0] == old(self).connector()
                    && states.last() == final(self).connector()
                    && forall|i: int|
                        #![trigger final(self)@.skip(old(self)@.len() as int)[i]]
                        0 <= i < states.len() - 1 ==> exists|link: &mut CONNECTOR|
                            *link == states[i] && *final(link) == states[i + 1]
                                && #[trigger] asked(
                                    link,
                                    final(self)@.skip(old(self)@.len() as int)[i],
                                ),
    {
        self.issue_register(device_addr, RegisterAddr::Intensity, mode.value())
    }

    /// Sets how many digits the device at `device_addr` scans.
    pub fn set_scan_limit(&mut self, device_addr: usize, mode: ScanLimit) -> (r: Result<
        (),
        DriverError,
    >)
        requires
            device_addr < old(self).devices(),
        ensures
            final(self).devices() == old(self).devices(),
            carried_out(
                old(self)@,
                final(self)@,
                seq![plan::write_to(device_addr, RegisterAddr::ScanLimit, mode.value())],
                r,
            ),
            exists|states: Seq<CONNECTOR>|
                #![trigger states.len()]
                states.len() == final(self)@.len() - old(self)@.len() + 1
                    && states[0] == old(self).connector()
                    && states.last() == final(self).connector()
                    && forall|i: int|
                        #![trigger final(self)@.skip(old(self)@.len() as int)[i]]
                        0 <= i < states.len() - 1 ==> exists|link: &mut CONNECTOR|
                            *link == states[i] && *final(link) == states[i + 1]
                                && #[trigger] asked(
                                    link,
                                    final(self)@.skip(old(self)@.len() as int)[i],
                                ),
    {
        self.issue_register(device_addr, RegisterAddr::ScanLimit, mode.value())
    }

    /// Switches the display test of every device of the chain on or off.
    pub fn set_display_test_mode_all(&mut self, mode: DisplayTest) -> (r: Result<(), DriverError>)
        ensures
            final(self).devices() == old(self).devices(),
            carried_out(
                old(self)@,
                final(self)@,
                plan::broadcast(
                    old(self).devices(),
                    RegisterAddr::DisplayTest,
                    mode.value(),
                ),
                r,
            ),
            exists|states: Seq<CONNECTOR>|
                #![trigger states.len()]
                states.len() == final(self)@.len() - old(self)@.len() + 1
                    && states[0] == old(self).connector()
                    && states.last() == final(self).connector()
                    && forall|i: int|
                        #![trigger final(self)@.skip(old(self)@.len() as int)[i]]
                        0 <= i < states.len() - 1 ==> exists|link: &mut CONNECTOR|
                            *link == states[i] && *final(link) == states[i + 1]
                                && #[trigger] asked(
                                    link,
                                    final(self)@.skip(old(self)@.len() as int)[i],
                                ),
    {
        self.set_all_devices(RegisterAddr::DisplayTest, mode.value())
    }

    /// Switches the display test of the device at `device_addr` on or off.
    pub fn set_display_test_mode(&mut self, device_addr: usize, mode: DisplayTest) -> (r: Result<
        (),
        DriverError,
    >)
        requires
            device_addr < old(self).devices(),
        ensures
            final(self).devices() == old(self).devices(),
            carried_out(
                old(self)@,
                final(self)@,
                seq![plan::write_to(device_addr, RegisterAddr::DisplayTest, mode.value())],
                r,
            ),
            exists|states: Seq<CONNECTOR>|
                #![trigger states.len()]
                states.len() == final(self)@.len() - old(self)@.len() + 1
                    && states[0] == old(self).connector()
                    && states.last() == final(self).connector()
                    && forall|i: int|
                        #![trigger final(self)@.skip(old(self)@.len() as int)[i]]
                        0 <= i < states.len() - 1 ==> exists|link: &mut CONNECTOR|
                            *link == states[i] && *final(link) == states[i + 1]
                                && #[trigger] asked(
                                    link,
                                    final(self)@.skip(old(self)@.len() as int)[i],
                                ),
    {
        self.issue_register(device_addr, RegisterAddr::DisplayTest, mode.value())
    }

    /// Blanks the device at `device_addr`: zero to each digit register, register 1 first,
    /// each write a frame of its own.
    pub fn clear_display(&mut self, device_addr: usize) -> (r: Result<(), DriverError>)
        requires
            device_addr < old(self).devices(),
        ensures
            final(self).devices() == old(self).devices(),
            carried_out(old(self)@, final(self)@, plan::clear(device_addr), r),
            exists|states: Seq<CONNECTOR>|
                #![trigger states.len()]
                states.len() == final(self)@.len() - old(self)@.len() + 1
                    && states[0] == old(self).connector()
                    && states.last() == final(self).connector()
                    && forall|i: int|
                        #![trigger final(self)@.skip(old(self)@.len() as int)[i]]
                        0 <= i < states.len() - 1 ==> exists|link: &mut CONNECTOR|
                            *link == states[i] && *final(link) == states[i + 1]
                                && #[trigger] asked(
                                    link,
                                    final(self)@.skip(old(self)@.len() as int)[i],
                                ),
    {
        let ghost todo = plan::clear(device_addr);
        proof {
            lemma_empty_plan(self@);
            lemma_no_call(self.connector(), self@);
            assert(todo.take(0) =~= Seq::empty());
        }
        let mut i: u8 = 1;
        while i < 9
            invariant
                1 <= i <= 9,
                self.devices() == old(self).devices(),
                todo == plan::clear(device_addr),
                carried_out(old(self)@, self@, todo.take(i - 1), Ok(())),
                exists|states: Seq<CONNECTOR>|
                    #![trigger states.len()]
                    states.len() == self@.len() - old(self)@.len() + 1
                        && states[0] == old(self).connector()
                        && states.last() == self.connector()
                        && forall|i: int|
                            #![trigger self@.skip(old(self)@.len() as int)[i]]
                            0 <= i < states.len() - 1 ==> exists|link: &mut CONNECTOR|
                                *link == states[i] && *final(link) == states[i + 1]
                                    && #[trigger] asked(
                                        link,
                                        self@.skip(old(self)@.len() as int)[i],
                                    ),
            decreases 9 - i,
        {
            let ghost mid = self@;
            let ghost held = self.connector();
            let r = self.issue(device_addr, i, 0x00);
            proof {
                assert(todo.subrange(i - 1, i as int) =~= seq![todo[i - 1]]);
                lemma_next_part(old(self)@, mid, self@, todo, i - 1, seq![todo[i - 1]], r);
                lemma_calls_compose(
                    old(self).connector(),
                    held,
                    self.connector(),
                    old(self)@,
                    mid,
                    self@,
                );
            }
            if r.is_err() {
                return r;
            }
            i += 1;
        }
        proof {
            assert(todo.take(8) =~= todo);
        }
        Ok(())
    }

    /// Blanks every device of the chain, first device first, each as `clear_display` does it.
    pub fn clear_display_all(&mut self) -> (r: Result<(), DriverError>)
        ensures
            final(self).devices() == old(self).devices(),
            carried_out(old(self)@, final(self)@, plan::clear_all(old(self).devices()), r),
            exists|states: Seq<CONNECTOR>|
                #![trigger states.len()]
                states.len() == final(self)@.len() - old(self)@.len() + 1
                    && states[0] == old(self).connector()
                    && states.last() == final(self).connector()
                    && forall|i: int|
                        #![trigger final(self)@.skip(old(self)@.len() as int)[i]]
                        0 <= i < states.len() - 1 ==> exists|link: &mut CONNECTOR|
                            *link == states[i] && *final(link) == states[i + 1]
                                && #[trigger] asked(
                                    link,
                                    final(self)@.skip(old(self)@.len() as int)[i],
                                ),
    {
        let n = self.devices;
        let ghost todo = plan::clear_all(n);
        proof {
            lemma_empty_plan(self@);
            lemma_no_call(self.connector(), self@);
            assert(todo.take(0) =~= Seq::empty());
        }
        for i in 0..n
            invariant
                n == self.devices() == old(self).devices(),
                todo == plan::clear_all(n),
                carried_out(old(self)@, self@, todo.take(8 * i), Ok(())),
                exists|states: Seq<CONNECTOR>|
                    #![trigger states.len()]
                    states.len() == self@.len() - old(self)@.len() + 1
                        && states[0] == old(self).connector()
                        && states.last() == self.connector()
                        && forall|i: int|
                            #![trigger self@.skip(old(self)@.len() as int)[i]]
                            0 <= i < states.len() - 1 ==> exists|link: &mut CONNECTOR|
                                *link == states[i] && *final(link) == states[i + 1]
                                    && #[trigger] asked(
                                        link,
                                        self@.skip(old(self)@.len() as int)[i],
                                    ),
        {
            let ghost mid = self@;
            let ghost held = self.connector();
            let r = self.clear_display(i);
            proof {
                plan::lemma_clear_all_part(n, i);
                lemma_next_part(old(self)@, mid, self@, todo, 8 * i, plan::clear(i), r);
                lemma_calls_compose(
                    old(self).connector(),
                    held,
                    self.connector(),
                    old(self)@,
                    mid,
                    self@,
                );
            }
            if r.is_err() {
                return r;
            }
        }
        proof {
            assert(todo.take(8 * n) =~= todo);
        }
        Ok(())
    }

    /// Writes `data` to the register `register_addr` of the device at `device_addr`.
    pub fn write_raw(&mut self, device_addr: usize, register_addr: RegisterAddr, data: u8) -> (r:
        Result<(), DriverError>)
        requires
            device_addr < old(self).devices(),
        ensures
            final(self).devices() == old(self).devices(),
            carried_out(
                old(self)@,
                final(self)@,
                seq![plan::write_to(device_addr, register_addr, data)],
                r,
            ),
            exists|states: Seq<CONNECTOR>|
                #![trigger states.len()]
                states.len() == final(self)@.len() - old(self)@.len() + 1
                    && states[0] == old(self).connector()
                    && states.last() == final(self).connector()
                    && forall|i: int|
                        #![trigger final(self)@.skip(old(self)@.len() as int)[i]]
                        0 <= i < states.len() - 1 ==> exists|link: &mut CONNECTOR|
                            *link == states[i] && *final(link) == states[i + 1]
                                && #[trigger] asked(
                                    link,
                                    final(self)@.skip(old(self)@.len() as int)[i],
                                ),
    {
        self.issue_register(device_addr, register_addr, data)
    }

    /// Writes `data` to one digit register, or one row of a matrix, of a display made of a
    /// single device: the first device of the chain.
    pub fn draw_row_or_digit(&mut self, digit_row_address: DigitRowAddress, data: u8) -> (r:
        Result<(), DriverError>)
        requires
            0 < old(self).devices(),
        ensures
            final(self).devices() == old(self).devices(),
            carried_out(
                old(self)@,
                final(self)@,
                seq![RegisterWrite { device: 0, register: digit_row_address.value(), data }],
                r,
            ),
            exists|states: Seq<CONNECTOR>|
                #![trigger states.len()]
                states.len() == final(self)@.len() - old(self)@.len() + 1
                    && states[0] == old(self).connector()
                    && states.last() == final(self).connector()
                    && forall|i: int|
                        #![trigger final(self)@.skip(old(self)@.len() as int)[i]]
                        0 <= i < states.len() - 1 ==> exists|link: &mut CONNECTOR|
                            *link == states[i] && *final(link) == states[i + 1]
                                && #[trigger] asked(
                                    link,
                                    final(self)@.skip(old(self)@.len() as int)[i],
                                ),
    {
        self.issue(0, digit_row_address.value(), data)
    }

    /// Writes the eight bytes of `raw` to the digit registers of the device at `device_addr`,
    /// the first byte to register 1: one row of a matrix per byte, one bit per dot.
    pub fn write_raw_all(&mut self, device_addr: usize, raw: &[u8; MAX_DIGITS]) -> (r: Result<
        (),
        DriverError,
    >)
        requires
            device_addr < old(self).devices(),
        ensures
            final(self).devices() == old(self).devices(),
            carried_out(old(self)@, final(self)@, plan::digits(device_addr, raw@), r),
            exists|states: Seq<CONNECTOR>|
                #![trigger states.len()]
                states.len() == final(self)@.len() - old(self)@.len() + 1
                    && states[0] == old(self).connector()
                    && states.last() == final(self).connector()
                    && forall|i: int|
                        #![trigger final(self)@.skip(old(self)@.len() as int)[i]]
                        0 <= i < states.len() - 1 ==> exists|link: &mut CONNECTOR|
                            *link == states[i] && *final(link) == states[i + 1]
                                && #[trigger] asked(
                                    link,
                                    final(self)@.skip(old(self)@.len() as int)[i],
                                ),
    {
        let ghost todo = plan::digits(device_addr, raw@);
        proof {
            lemma_empty_plan(self@);
            lemma_no_call(self.connector(), self@);
            assert(todo.take(0) =~= Seq::empty());
        }
        let mut digit: u8 = 1;
        for k in 0..MAX_DIGITS
            invariant
                digit == k + 1,
                self.devices() == old(self).devices(),
                todo == plan::digits(device_addr, raw@),
                carried_out(old(self)@, self@, todo.take(k as int), Ok(())),
                exists|states: Seq<CONNECTOR>|
                    #![trigger states.len()]
                    states.len() == self@.len() - old(self)@.len() + 1
                        && states[0] == old(self).connector()
                        && states.last() == self.connector()
                        && forall|i: int|
                            #![trigger self@.skip(old(self)@.len() as int)[i]]
                            0 <= i < states.len() - 1 ==> exists|link: &mut CONNECTOR|
                                *link == states[i] && *final(link) == states[i + 1]
                                    && #[trigger] asked(
                                        link,
                                        self@.skip(old(self)@.len() as int)[i],
                                    ),
        {
            let ghost mid = self@;
            let ghost held = self.connector();
            let r = self.issue(device_addr, digit, raw[k]);
            proof {
                assert(todo.subrange(k as int, k + 1) =~= seq![todo[k as int]]);
                lemma_next_part(old(self)@, mid, self@, todo, k as int, seq![todo[k as int]], r);
                lemma_calls_compose(
                    old(self).connector(),
                    held,
                    self.connector(),
                    old(self)@,
                    mid,
                    self@,
                );
            }
            if r.is_err() {
                return r;
            }
            digit += 1;
        }
        proof {
            assert(todo.take(8) =~= todo);
        }
        Ok(())
    }

    /// Shows the eight characters of `string` on the device at `device_addr`, the first
    /// character on the leftmost digit (register 8). Bit 7 of `dots` lights the decimal point
    /// of the first character, bit 0 that of the last. A character that seven segments cannot
    /// render shows as a question mark.
    ///
    /// Decoding is first switched off on that device. No other device is written to.
    pub fn write_str(&mut self, device_addr: usize, string: &[u8; MAX_DIGITS], dots: u8) -> (r:
        Result<(), DriverError>)
        requires
            device_addr < old(self).devices(),
        ensures
            final(self).devices() == old(self).devices(),
            carried_out(old(self)@, final(self)@, plan::text(device_addr, string@, dots), r),
            exists|states: Seq<CONNECTOR>|
                #![trigger states.len()]
                states.len() == final(self)@.len() - old(self)@.len() + 1
                    && states[0] == old(self).connector()
                    && states.last() == final(self).connector()
                    && forall|i: int|
                        #![trigger final(self)@.skip(old(self)@.len() as int)[i]]
                        0 <= i < states.len() - 1 ==> exists|link: &mut CONNECTOR|
                            *link == states[i] && *final(link) == states[i + 1]
                                && #[trigger] asked(
                                    link,
                                    final(self)@.skip(old(self)@.len() as int)[i],
                                ),
    {
        let ghost todo = plan::text(device_addr, string@, dots);
        let ghost start = self@;
        proof {
            lemma_empty_plan(self@);
            assert(todo.take(0) =~= Seq::empty());
        }
        let r = self.set_decode_mode(device_addr, DecodeMode::NoDecode);
        proof {
            assert(todo.subrange(0, 1) =~= seq![todo[0]]);
            lemma_next_part(start, start, self@, todo, 0, seq![todo[0]], r);
        }
        if r.is_err() {
            return r;
        }
        let mut digit: u8 = 8;
        let mut dot_product: u8 = 0b1000_0000;
        assert(dot_product == 0x80u8 >> 0u8) by (bit_vector)
            requires
                dot_product == 0x80u8,
        ;
        for k in 0..MAX_DIGITS
            invariant
                digit == 8 - k,
                dot_product == 0x80u8 >> (k as u8),
                self.devices() == old(self).devices(),
                start == old(self)@,
                todo == plan::text(device_addr, string@, dots),
                carried_out(start, self@, todo.take(k + 1), Ok(())),
                exists|states: Seq<CONNECTOR>|
                    #![trigger states.len()]
                    states.len() == self@.len() - old(self)@.len() + 1
                        && states[0] == old(self).connector()
                        && states.last() == self.connector()
                        && forall|i: int|
                            #![trigger self@.skip(old(self)@.len() as int)[i]]
                            0 <= i < states.len() - 1 ==> exists|link: &mut CONNECTOR|
                                *link == states[i] && *final(link) == states[i + 1]
                                    && #[trigger] asked(
                                        link,
                                        self@.skip(old(self)@.len() as int)[i],
                                    ),
        {
            let dot = (dots & dot_product) > 0;
            let ghost shift = k as u8;
            assert((dot_product >> 1u8) == 0x80u8 >> ((shift + 1) as u8)) by (bit_vector)
                requires
                    dot_product == 0x80u8 >> shift,
                    shift < 8,
            ;
            dot_product >>= 1;
            let ghost mid = self@;
            let ghost held = self.connector();
            let r = self.issue(device_addr, digit, ssb_byte(string[k], dot));
            proof {
                assert(todo.subrange(k + 1, k + 2) =~= seq![todo[k + 1]]);
                lemma_next_part(start, mid, self@, todo, k + 1, seq![todo[k + 1]], r);
                lemma_calls_compose(
                    old(self).connector(),
                    held,
                    self.connector(),
                    old(self)@,
                    mid,
                    self@,
                );
            }
            if r.is_err() {
                return r;
            }
            digit -= 1;
        }
        proof {
            assert(todo.take(9) =~= todo);
        }
        Ok(())
    }

    /// Shows the eight characters of `bcd` on the device at `device_addr` through the
    /// device's Code B decoder, the first character on the leftmost digit (register 8).
    /// The characters are digits given by value, and blank, dash, E, H, L and P given as
    /// ASCII; an upper-case letter lights the decimal point.
    ///
    /// Decoding of all digits is first switched on on that device. No other device is
    /// written to.
    pub fn write_bcd(&mut self, device_addr: usize, bcd: &[u8; MAX_DIGITS]) -> (r: Result<
        (),
        DriverError,
    >)
        requires
            device_addr < old(self).devices(),
        ensures
            final(self).devices() == old(self).devices(),
            carried_out(old(self)@, final(self)@, plan::code_b(device_addr, bcd@), r),
            exists|states: Seq<CONNECTOR>|
                #![trigger states.len()]
                states.len() == final(self)@.len() - old(self)@.len() + 1
                    && states[0] == old(self).connector()
                    && states.last() == final(self).connector()
                    && forall|i: int|
                        #![trigger final(self)@.skip(old(self)@.len() as int)[i]]
                        0 <= i < states.len() - 1 ==> exists|link: &mut CONNECTOR|
                            *link == states[i] && *final(link) == states[i + 1]
                                && #[trigger] asked(
                                    link,
                                    final(self)@.skip(old(self)@.len() as int)[i],
                                ),
    {
        let ghost todo = plan::code_b(device_addr, bcd@);
        let ghost start = self@;
        proof {
            lemma_empty_plan(self@);
            assert(todo.take(0) =~= Seq::empty());
        }
        let r = self.set_decode_mode(device_addr, DecodeMode::CodeBDigits7_0);
        proof {
            assert(todo.subrange(0, 1) =~= seq![todo[0]]);
            lemma_next_part(start, start, self@, todo, 0, seq![todo[0]], r);
        }
        if r.is_err() {
            return r;
        }
        let mut digit: u8 = 8;
        for k in 0..MAX_DIGITS
            invariant
                digit == 8 - k,
                self.devices() == old(self).devices(),
                start == old(self)@,
                todo == plan::code_b(device_addr, bcd@),
                carried_out(start, self@, todo.take(k + 1), Ok(())),
                exists|states: Seq<CONNECTOR>|
                    #![trigger states.len()]
                    states.len() == self@.len() - old(self)@.len() + 1
                        && states[0] == old(self).connector()
                        && states.last() == self.connector()
                        && forall|i: int|
                            #![trigger self@.skip(old(self)@.len() as int)[i]]
                            0 <= i < states.len() - 1 ==> exists|link: &mut CONNECTOR|
                                *link == states[i] && *final(link) == states[i + 1]
                                    && #[trigger] asked(
                                        link,
                                        self@.skip(old(self)@.len() as int)[i],
                                    ),
        {
            let ghost mid = self@;
            let ghost held = self.connector();
            let r = self.issue(device_addr, digit, bcd_byte(bcd[k]));
            proof {
                assert(todo.subrange(k + 1, k + 2) =~= seq![todo[k + 1]]);
                lemma_next_part(start, mid, self@, todo, k + 1, seq![todo[k + 1]], r);
                lemma_calls_compose(
                    old(self).connector(),
                    held,
                    self.connector(),
                    old(self)@,
                    mid,
                    self@,
                );
            }
            if r.is_err() {
                return r;
            }
            digit -= 1;
        }
        proof {
            assert(todo.take(9) =~= todo);
        }
        Ok(())
    }

    /// Writes one register of every device, first device first, stopping at the first write
    /// that fails.
    fn set_all_devices(&mut self, register_address: RegisterAddr, data: u8) -> (r: Result<
        (),
        DriverError,
    >)
        ensures
            final(self).devices() == old(self).devices(),
            carried_out(
                old(self)@,
                final(self)@,
                plan::broadcast(old(self).devices(), register_address, data),
                r,
            ),
            exists|states: Seq<CONNECTOR>|
                #![trigger states.len()]
                states.len() == final(self)@.len() - old(self)@.len() + 1
                    && states[0] == old(self).connector()
                    && states.last() == final(self).connector()
                    && forall|i: int|
                        #![trigger final(self)@.skip(old(self)@.len() as int)[i]]
                        0 <= i < states.len() - 1 ==> exists|link: &mut CONNECTOR|
                            *link == states[i] && *final(link) == states[i + 1]
                                && #[trigger] asked(
                                    link,
                                    final(self)@.skip(old(self)@.len() as int)[i],
                                ),
    {
        let n = self.devices;
        let ghost todo = plan::broadcast(n, register_address, data);
        proof {
            lemma_empty_plan(self@);
            lemma_no_call(self.connector(), self@);
            assert(todo.take(0) =~= Seq::empty());
        }
        for i in 0..n
            invariant
                n == self.devices() == old(self).devices(),
                todo == plan::broadcast(n, register_address, data),
                carried_out(old(self)@, self@, todo.take(i as int), Ok(())),
                exists|states: Seq<CONNECTOR>|
                    #![trigger states.len()]
                    states.len() == self@.len() - old(self)@.len() + 1
                        && states[0] == old(self).connector()
                        && states.last() == self.connector()
                        && forall|i: int|
                            #![trigger self@.skip(old(self)@.len() as int)[i]]
                            0 <= i < states.len() - 1 ==> exists|link: &mut CONNECTOR|
                                *link == states[i] && *final(link) == states[i + 1]
                                    && #[trigger] asked(
                                        link,
                                        self@.skip(old(self)@.len() as int)[i],
                                    ),
        {
            let ghost mid = self@;
            let ghost held = self.connector();
            let r = self.issue_register(i, register_address, data);
            proof {
                assert(todo.subrange(i as int, i + 1) =~= seq![todo[i as int]]);
                lemma_next_part(old(self)@, mid, self@, todo, i as int, seq![todo[i as int]], r);
                lemma_calls_compose(
                    old(self).connector(),
                    held,
                    self.connector(),
                    old(self)@,
                    mid,
                    self@,
                );
            }
            if r.is_err() {
                return r;
            }
        }
        proof {
            assert(todo.take(n as int) =~= todo);
        }
        Ok(())
    }

    /// Hands one write to the connector and records the exchange.
    fn issue(&mut self, device_addr: usize, register_addr: u8, data: u8) -> (r: Result<
        (),
        DriverError,
    >)
        ensures
            final(self).devices() == old(self).devices(),
            carried_out(
                old(self)@,
                final(self)@,
                seq![RegisterWrite { device: device_addr, register: register_addr, data }],
                r,
            ),
            exists|states: Seq<CONNECTOR>|
                #![trigger states.len()]
                states.len() == final(self)@.len() - old(self)@.len() + 1
                    && states[0] == old(self).connector()
                    && states.last() == final(self).connector()
                    && forall|i: int|
                        #![trigger final(self)@.skip(old(self)@.len() as int)[i]]
                        0 <= i < states.len() - 1 ==> exists|link: &mut CONNECTOR|
                            *link == states[i] && *final(link) == states[i + 1]
                                && #[trigger] asked(
                                    link,
                                    final(self)@.skip(old(self)@.len() as int)[i],
                                ),
    {
        let ghost held = self.connector();
        let r = self.c.write_raw(device_addr, register_addr, data);
        let ghost link = choose|link: &mut CONNECTOR|
            *link == held && *final(link) == self.connector() && #[trigger] call_ensures(
                CONNECTOR::write_raw,
                (link, device_addr, register_addr, data),
                r,
            );
        let ghost x = Exchange {
            write: RegisterWrite { device: device_addr, register: register_addr, data },
            outcome: r,
        };
        proof {
            lemma_single_write(self.log@, x);
        }
        self.log = Ghost(self.log@.push(x));
        proof {
            let states = seq![held, self.connector()];
            let done = self@.skip(old(self)@.len() as int);
            assert(states.len() == 2 && states[0] == held && states[1] == self.connector());
            assert(done[0] == x);
            assert(asked(link, done[0]));
        }
        r
    }

    /// Hands one write to a named register to the connector and records the exchange.
    fn issue_register(&mut self, device_addr: usize, register_address: RegisterAddr, data: u8) -> (r:
        Result<(), DriverError>)
        ensures
            final(self).devices() == old(self).devices(),
            carried_out(
                old(self)@,
                final(self)@,
                seq![plan::write_to(device_addr, register_address, data)],
                r,
            ),
            exists|states: Seq<CONNECTOR>|
                #![trigger states.len()]
                states.len() == final(self)@.len() - old(self)@.len() + 1
                    && states[0] == old(self).connector()
                    && states.last() == final(self).connector()
                    && forall|i: int|
                        #![trigger final(self)@.skip(old(self)@.len() as int)[i]]
                        0 <= i < states.len() - 1 ==> exists|link: &mut CONNECTOR|
                            *link == states[i] && *final(link) == states[i + 1]
                                && #[trigger] asked(
                                    link,
                                    final(self)@.skip(old(self)@.len() as int)[i],
                                ),
    {
        let ghost held = self.connector();
        let r = self.c.write_register_data(device_addr, register_address, data);
        let ghost link = choose|link: &mut CONNECTOR|
            *link == held && *final(link) == self.connector() && #[trigger] call_ensures(
                CONNECTOR::write_raw,
                (link, device_addr, register_address.addr(), data),
                r,
            );
        let ghost x = Exchange {
            write: plan::write_to(device_addr, register_address, data),
            outcome: r,
        };
        proof {
            lemma_single_write(self.log@, x);
        }
        self.log = Ghost(self.log@.push(x));
        proof {
            let states = seq![held, self.connector()];
            let done = self@.skip(old(self)@.len() as int);
            assert(states.len() == 2 && states[0] == held && states[1] == self.connector());
            assert(done[0] == x);
            assert(asked(link, done[0]));
        }
        r
    }
}

} // verus!
