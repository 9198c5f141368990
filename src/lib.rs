//! Driver core for the nRF24L01+ packet radio.

use vstd::prelude::*;

pub mod command;
pub mod config;
pub mod device;
pub mod poll;
pub mod registers;
pub mod rx;

pub use crate::command::Payload;
use crate::command::{read_register_bytes, write_register_bytes, zeros, Command};
use crate::config::{
    set_auto_ack, set_auto_retransmit, set_crc, set_frequency, set_pipes_rx_enable,
    set_pipes_rx_lengths, set_rf, set_rx_addr_byte, set_rx_addr_p1, with_crc, lengths_written, rf_setup_byte,
    setup_retr_byte,
};
pub use crate::config::{CrcMode, DataRate};
use crate::device::{
    config_written, extends, failed_last, framed, initial_config, last_received,
    fault_recorded, lemma_ok_since_trans, nb_fault_recorded, ok_since, received_at, BusOp, Device,
    DeviceImpl, OutputLine, SpiTransfer,
};
use crate::registers::Config as ConfigRegister;
use crate::registers::{
    bits_of, get_bit, get_field, lemma_set_bit, set_bit, FifoStatus, Register, SetupAw, Status,
};

verus! {

/// Number of RX pipes with configurable addresses.
pub const PIPES_COUNT: usize = 6;

/// Minimum address length in bytes.
pub const MIN_ADDR_BYTES: usize = 2;

/// Maximum address length in bytes.
pub const MAX_ADDR_BYTES: usize = 5;

/// Number of receive pipes.
pub const NUM_PIPES: usize = 6;

/// Length of a full receive address in bytes.
pub const RX_ADDR_LEN: usize = 5;

/// Length of the address prefix that pipes 1 to 5 share.
pub const RX_ADDR_PREFIX_LEN: usize = 4;

/// The settings of a [`Config`], as plain values.
pub ghost struct ConfigView {
    pub auto_retransmit_delay: u8,
    pub auto_retransmit_count: u8,
    pub data_rate: DataRate,
    pub power: u8,
    pub crc_mode: CrcMode,
    pub frequency: u8,
    pub rx_prefix: Option<Seq<u8>>,
    pub rx_enabled: Seq<bool>,
    pub rx_length: Seq<Option<u8>>,
    pub rx_auto_ack: Seq<bool>,
    pub rx_addr: Seq<u8>,
}

/// 250 kbps, power level 3, two-byte CRC, channel 42, retransmission
/// delay code 1 and count 10, auto acknowledgement on every pipe, no pipe
/// enabled, dynamic payload lengths, no address prefix.
pub open spec fn default_settings() -> ConfigView {
    ConfigView {
        auto_retransmit_delay: 1,
        auto_retransmit_count: 10,
        data_rate: DataRate::R250Kbps,
        power: 3,
        crc_mode: CrcMode::TwoBytes,
        frequency: 42,
        rx_prefix: None,
        rx_enabled: seq![false; 6],
        rx_length: seq![None; 6],
        rx_auto_ack: seq![true; 6],
        rx_addr: seq![0u8; 6],
    }
}

/// `value`, or `max` when it is larger.
pub open spec fn clamp(value: u8, max: u8) -> u8 {
    if value <= max {
        value
    } else {
        max
    }
}

/// Number of log entries that setting the CRC bits of `c` takes.
pub open spec fn crc_write_len(c: ConfigRegister, mode: CrcMode) -> int {
    if with_crc(c, mode) == c {
        0
    } else {
        3
    }
}

/// `after` is `before` followed by the radio settings of `v`, applied over
/// the cached `CONFIG` value `c`: `SETUP_RETR`, `RF_SETUP`, the `CONFIG`
/// write only when the CRC bits change it, `RF_CH` and `EN_RXADDR`.
pub open spec fn radio_configured(
    before: Seq<BusOp>,
    after: Seq<BusOp>,
    c: ConfigRegister,
    v: ConfigView,
) -> bool {
    let n = before.len() as int;
    let k = n + 6 + crc_write_len(c, v.crc_mode);
    &&& after.len() == k + 6
    &&& framed(
        before,
        after.subrange(0, n + 3),
        write_register_bytes(
            0x04,
            seq![setup_retr_byte(clamp(v.auto_retransmit_delay, 15), clamp(v.auto_retransmit_count, 15))],
        ),
    )
    &&& framed(
        after.subrange(0, n + 3),
        after.subrange(0, n + 6),
        write_register_bytes(0x06, seq![rf_setup_byte(v.data_rate, clamp(v.power, 3))]),
    )
    &&& config_written(after.subrange(0, n + 6), after.subrange(0, k), c, with_crc(c, v.crc_mode))
    &&& framed(
        after.subrange(0, k),
        after.subrange(0, k + 3),
        write_register_bytes(0x05, seq![clamp(v.frequency, 125)]),
    )
    &&& framed(
        after.subrange(0, k + 3),
        after,
        write_register_bytes(0x02, seq![bits_of(v.rx_enabled)]),
    )
}

/// `after` is `before` followed by every write that applying `v` over the
/// cached `CONFIG` value `c` takes: the radio settings, the pipe lengths
/// and auto acknowledgement, then the addresses.
pub open spec fn configured_by(
    before: Seq<BusOp>,
    after: Seq<BusOp>,
    c: ConfigRegister,
    v: ConfigView,
) -> bool {
    let a = before.len() + 12 + crc_write_len(c, v.crc_mode);
    &&& a <= after.len()
    &&& radio_configured(before, after.subrange(0, a), c, v)
    &&& exists|b: int|
        #[trigger] pipes_configured(after.subrange(0, a), after.subrange(0, b), v) && a <= b
            <= after.len() && addresses_written(after.subrange(0, b), after, v)
}

/// `after` is `before` followed by the pipe length writes of `v`, then
/// `EN_AA`.
pub open spec fn pipes_configured(before: Seq<BusOp>, after: Seq<BusOp>, v: ConfigView) -> bool {
    let m = after.len() - 3;
    &&& before.len() <= m
    &&& lengths_written(before, after.subrange(0, m), v.rx_length)
    &&& framed(
        after.subrange(0, m),
        after,
        write_register_bytes(0x01, seq![bits_of(v.rx_auto_ack)]),
    )
}

/// `after` is `before` followed by one address byte write for each enabled
/// pipe from 2 up to `i - 1`, in ascending order.
pub open spec fn pipe_addresses_written(
    before: Seq<BusOp>,
    after: Seq<BusOp>,
    enabled: Seq<bool>,
    addrs: Seq<u8>,
    i: int,
) -> bool
    decreases i,
{
    if i <= 2 {
        after == before
    } else if enabled[i - 1] {
        &&& after.len() >= 3
        &&& pipe_addresses_written(before, after.subrange(0, after.len() - 3), enabled, addrs, i - 1)
        &&& framed(
            after.subrange(0, after.len() - 3),
            after,
            write_register_bytes((0x0a + (i - 1)) as u8, seq![addrs[i - 1]]),
        )
    } else {
        pipe_addresses_written(before, after, enabled, addrs, i - 1)
    }
}

/// `after` is `before` followed by the address writes of `v`: none without
/// a prefix; with one, the full address of pipe 1 (its own byte, then the
/// prefix), then the own byte of each enabled pipe from 2 to 5.
pub open spec fn addresses_written(before: Seq<BusOp>, after: Seq<BusOp>, v: ConfigView) -> bool {
    match v.rx_prefix {
        None => after == before,
        Some(prefix) => {
            let p1 = after.subrange(0, before.len() + 3int);
            &&& before.len() + 3 <= after.len()
            &&& framed(before, p1, write_register_bytes(0x0b, seq![v.rx_addr[1]] + prefix))
            &&& pipe_addresses_written(p1, after, v.rx_enabled, v.rx_addr, 6)
        },
    }
}

/// Radio settings applied once when the driver is built.
pub struct Config {
    auto_retransmit_delay: u8,
    auto_retransmit_count: u8,
    data_rate: DataRate,
    power: u8,
    crc_mode: CrcMode,
    frequency: u8,
    rx_prefix: Option<[u8; 4]>,
    rx_enabled: [bool; 6],
    rx_length: [Option<u8>; 6],
    rx_auto_ack: [bool; 6],
    rx_addr: [u8; 6],
}

impl Config {
    pub closed spec fn view(&self) -> ConfigView {
        ConfigView {
            auto_retransmit_delay: self.auto_retransmit_delay,
            auto_retransmit_count: self.auto_retransmit_count,
            data_rate: self.data_rate,
            power: self.power,
            crc_mode: self.crc_mode,
            frequency: self.frequency,
            rx_prefix: match self.rx_prefix {
                Some(p) => Some(p@),
                None => None,
            },
            rx_enabled: self.rx_enabled@,
            rx_length: self.rx_length@,
            rx_auto_ack: self.rx_auto_ack@,
            rx_addr: self.rx_addr@,
        }
    }

    /// The default settings.
    pub fn default() -> (r: Self)
        ensures
            r@ == default_settings(),
    {
        let r = Self {
            auto_retransmit_delay: 1,
            auto_retransmit_count: 10,
            data_rate: DataRate::R250Kbps,
            power: 3,
            crc_mode: CrcMode::TwoBytes,
            frequency: 42,
            rx_prefix: None,
            rx_enabled: [false; 6],
            rx_length: [None; 6],
            rx_auto_ack: [true; 6],
            rx_addr: [0; 6],
        };
        assert(r.rx_enabled@ =~= seq![false; 6]);
        assert(r.rx_length@ =~= seq![None; 6]);
        assert(r.rx_auto_ack@ =~= seq![true; 6]);
        assert(r.rx_addr@ =~= seq![0u8; 6]);
        r
    }

    /// Retransmission delay code: (code + 1) * 250 us, at most 15.
    pub fn auto_retransmit_delay(self, delay: u8) -> (r: Self)
        ensures
            r@ == (ConfigView { auto_retransmit_delay: delay, ..self@ }),
    {
        let mut s = self;
        s.auto_retransmit_delay = delay;
        s
    }

    /// Number of retransmissions before giving up, at most 15.
    pub fn auto_retransmit_count(self, count: u8) -> (r: Self)
        ensures
            r@ == (ConfigView { auto_retransmit_count: count, ..self@ }),
    {
        let mut s = self;
        s.auto_retransmit_count = count;
        s
    }

    /// Over-the-air data rate.
    pub fn data_rate(self, rate: DataRate) -> (r: Self)
        ensures
            r@ == (ConfigView { data_rate: rate, ..self@ }),
    {
        let mut s = self;
        s.data_rate = rate;
        s
    }

    /// Output power level, 0 (lowest) to 3 (highest).
    pub fn power(self, power: u8) -> (r: Self)
        ensures
            r@ == (ConfigView { power: power, ..self@ }),
    {
        let mut s = self;
        s.power = power;
        s
    }

    /// Packet checksum width.
    pub fn crc_mode(self, mode: CrcMode) -> (r: Self)
        ensures
            r@ == (ConfigView { crc_mode: mode, ..self@ }),
    {
        let mut s = self;
        s.crc_mode = mode;
        s
    }

    /// Channel: 2400 MHz plus this many MHz, at most 125.
    pub fn frequency(self, freq: u8) -> (r: Self)
        ensures
            r@ == (ConfigView { frequency: freq, ..self@ }),
    {
        let mut s = self;
        s.frequency = freq;
        s
    }

    /// The four upper bytes that pipes 1 to 5 share, least significant first.
    pub fn rx_prefix(self, prefix: [u8; 4]) -> (r: Self)
        ensures
            r@ == (ConfigView { rx_prefix: Some(prefix@), ..self@ }),
    {
        let mut s = self;
        s.rx_prefix = Some(prefix);
        s
    }

    /// Enables pipe `pipe` (1 to 5) with its own address byte, a static
    /// payload length and a choice of auto acknowledgement.
    pub fn rx_full(self, pipe: u8, address: u8, length: u8, auto_ack: bool) -> (r: Self)
        requires
            1 <= pipe < 6,
        ensures
            r@ == (ConfigView {
                rx_enabled: self@.rx_enabled.update(pipe as int, true),
                rx_addr: self@.rx_addr.update(pipe as int, address),
                rx_length: self@.rx_length.update(pipe as int, Some(length)),
                rx_auto_ack: self@.rx_auto_ack.update(pipe as int, auto_ack),
                ..self@
            }),
    {
        let mut s = self;
        let pipe = pipe as usize;
        s.rx_enabled[pipe] = true;
        s.rx_addr[pipe] = address;
        s.rx_length[pipe] = Some(length);
        s.rx_auto_ack[pipe] = auto_ack;
        assert(s.rx_enabled@ =~= self@.rx_enabled.update(pipe as int, true));
        assert(s.rx_addr@ =~= self@.rx_addr.update(pipe as int, address));
        assert(s.rx_length@ =~= self@.rx_length.update(pipe as int, Some(length)));
        assert(s.rx_auto_ack@ =~= self@.rx_auto_ack.update(pipe as int, auto_ack));
        s
    }

    /// Enables pipe `pipe` (1 to 5) with its own address byte.
    pub fn rx(self, pipe: u8, address: u8) -> (r: Self)
        requires
            1 <= pipe < 6,
        ensures
            r@ == (ConfigView {
                rx_enabled: self@.rx_enabled.update(pipe as int, true),
                rx_addr: self@.rx_addr.update(pipe as int, address),
                ..self@
            }),
    {
        let mut s = self;
        let pipe = pipe as usize;
        s.rx_enabled[pipe] = true;
        s.rx_addr[pipe] = address;
        assert(s.rx_enabled@ =~= self@.rx_enabled.update(pipe as int, true));
        assert(s.rx_addr@ =~= self@.rx_addr.update(pipe as int, address));
        s
    }

    /// Applies the settings, one register at a time, and stops at the first
    /// bus error. Values beyond a field's range are clamped to its largest
    /// value. The writes are, in order: the radio settings
    /// (`radio_configured`), the pipe lengths and auto acknowledgement
    /// (`pipes_configured`), then the addresses (`addresses_written`).
    fn configure<D: Device>(self, device: &mut D) -> (r: Result<(), D::Fault>)
        ensures
            extends(old(device).log(), final(device).log()),
            r is Ok <==> ok_since(final(device).log(), old(device).log().len() as int),
            r is Err ==> failed_last(final(device).log(), old(device).log().len() as int),
            fault_recorded(r, old(device).faults(), final(device).faults()),
            r is Ok ==> final(device).cached_config() == with_crc(
                old(device).cached_config(),
                self@.crc_mode,
            ),
            r is Ok ==> configured_by(
                old(device).log(),
                final(device).log(),
                old(device).cached_config(),
                self@,
            ),
    {
        let ghost l0 = device.log();
        self.configure_radio(device)?;
        let ghost l1 = device.log();
        self.configure_pipes(device)?;
        let ghost l2 = device.log();
        self.configure_addresses(device)?;
        proof {
            let log = device.log();
            lemma_ok_since_trans(l0, l1, l0.len() as int);
            lemma_ok_since_trans(l1, l2, l0.len() as int);
            lemma_ok_since_trans(l2, log, l0.len() as int);
            assert(extends(l1, log));
            assert(log.subrange(0, l1.len() as int) =~= l1);
            assert(log.subrange(0, l2.len() as int) =~= l2);
            assert(pipes_configured(
                log.subrange(0, l1.len() as int),
                log.subrange(0, l2.len() as int),
                self@,
            ));
        }
        Ok(())
    }

    /// The radio settings: `SETUP_RETR`, `RF_SETUP`, the CRC bits of
    /// `CONFIG`, `RF_CH` and `EN_RXADDR`.
    #[verifier::spinoff_prover]
    fn configure_radio<D: Device>(&self, device: &mut D) -> (r: Result<(), D::Fault>)
        ensures
            extends(old(device).log(), final(device).log()),
            r is Ok <==> ok_since(final(device).log(), old(device).log().len() as int),
            r is Err ==> failed_last(final(device).log(), old(device).log().len() as int),
            fault_recorded(r, old(device).faults(), final(device).faults()),
            r is Ok ==> final(device).cached_config() == with_crc(
                old(device).cached_config(),
                self@.crc_mode,
            ),
            r is Ok ==> radio_configured(
                old(device).log(),
                final(device).log(),
                old(device).cached_config(),
                self@,
            ),
    {
        let ghost l0 = device.log();
        let delay = if self.auto_retransmit_delay <= 15 { self.auto_retransmit_delay } else { 15 };
        let count = if self.auto_retransmit_count <= 15 { self.auto_retransmit_count } else { 15 };
        set_auto_retransmit(device, delay, count)?;
        let ghost l1 = device.log();
        let power = if self.power <= 3 { self.power } else { 3 };
        set_rf(device, &self.data_rate, power)?;
        let ghost l2 = device.log();
        proof {
            lemma_ok_since_trans(l0, l1, l0.len() as int);
            lemma_ok_since_trans(l1, l2, l0.len() as int);
        }
        set_crc(device, self.crc_mode)?;
        let ghost l3 = device.log();
        proof {
            lemma_ok_since_trans(l2, l3, l0.len() as int);
        }
        let frequency = if self.frequency <= 125 { self.frequency } else { 125 };
        set_frequency(device, frequency)?;
        let ghost l4 = device.log();
        proof {
            lemma_ok_since_trans(l3, l4, l0.len() as int);
        }
        set_pipes_rx_enable(device, &self.rx_enabled)?;
        proof {
            let log = device.log();
            lemma_ok_since_trans(l4, log, l0.len() as int);
            assert(extends(l4, log));
            assert(extends(l3, log));
            assert(extends(l2, log));
            assert(extends(l1, log));
            assert(log.subrange(0, l1.len() as int) =~= l1);
            assert(log.subrange(0, l2.len() as int) =~= l2);
            assert(log.subrange(0, l3.len() as int) =~= l3);
            assert(log.subrange(0, l4.len() as int) =~= l4);
        }
        Ok(())
    }

    /// The pipe lengths, then `EN_AA`.
    fn configure_pipes<D: Device>(&self, device: &mut D) -> (r: Result<(), D::Fault>)
        ensures
            extends(old(device).log(), final(device).log()),
            r is Ok <==> ok_since(final(device).log(), old(device).log().len() as int),
            r is Err ==> failed_last(final(device).log(), old(device).log().len() as int),
            fault_recorded(r, old(device).faults(), final(device).faults()),
            final(device).cached_config() == old(device).cached_config(),
            r is Ok ==> pipes_configured(old(device).log(), final(device).log(), self@),
    {
        let ghost l0 = device.log();
        set_pipes_rx_lengths(device, &self.rx_length)?;
        let ghost l1 = device.log();
        set_auto_ack(device, &self.rx_auto_ack)?;
        proof {
            let log = device.log();
            lemma_ok_since_trans(l1, log, l0.len() as int);
            assert(log.subrange(0, log.len() - 3) =~= l1);
        }
        Ok(())
    }

    /// With an address prefix, the full address of pipe 1, then the own
    /// address byte of each enabled pipe from 2 to 5; nothing without one.
    fn configure_addresses<D: Device>(&self, device: &mut D) -> (r: Result<(), D::Fault>)
        ensures
            extends(old(device).log(), final(device).log()),
            r is Ok <==> ok_since(final(device).log(), old(device).log().len() as int),
            r is Err ==> failed_last(final(device).log(), old(device).log().len() as int),
            fault_recorded(r, old(device).faults(), final(device).faults()),
            final(device).cached_config() == old(device).cached_config(),
            r is Ok ==> addresses_written(old(device).log(), final(device).log(), self@),
    {
        let ghost l0 = device.log();
        match self.rx_prefix {
            Some(rx_prefix) => {
                let address = [
                    self.rx_addr[1],
                    rx_prefix[0],
                    rx_prefix[1],
                    rx_prefix[2],
                    rx_prefix[3],
                ];
                set_rx_addr_p1(device, &address)?;
                assert(address@ =~= seq![self@.rx_addr[1]] + rx_prefix@);
                let ghost l1 = device.log();
                let mut i: usize = 2;
                while i < NUM_PIPES
                    invariant
                        2 <= i <= NUM_PIPES,
                        extends(l0, device.log()),
                        extends(l1, device.log()),
                        l0 == old(device).log(),
                        l1.len() == l0.len() + 3,
                        ok_since(device.log(), l0.len() as int),
                        device.faults() == old(device).faults(),
                        device.cached_config() == old(device).cached_config(),
                        pipe_addresses_written(
                            l1,
                            device.log(),
                            self@.rx_enabled,
                            self@.rx_addr,
                            i as int,
                        ),
                    decreases NUM_PIPES - i,
                {
                    let ghost here = device.log();
                    if self.rx_enabled[i] {
                        set_rx_addr_byte(device, i, self.rx_addr[i])?;
                        proof {
                            lemma_ok_since_trans(here, device.log(), l0.len() as int);
                            assert(device.log().subrange(0, device.log().len() - 3) =~= here);
                        }
                    }
                    i += 1;
                }
                proof {
                    assert(device.log().subrange(0, l0.len() + 3int) =~= l1);
                }
            },
            None => {},
        }
        Ok(())
    }
}

/// Errors of construction and of plain bus operations.
#[derive(Debug)]
pub enum DriverError<E> {
    /// `SETUP_AW` read back a value no chip would hold.
    NotConnected,
    /// The bus reported an error.
    Spi(E),
}

impl<E> From<E> for DriverError<E> {
    fn from(e: E) -> (r: Self)
        ensures
            r == DriverError::Spi(e),
    {
        DriverError::Spi(e)
    }
}

impl<E> vstd::std_specs::convert::FromSpecImpl<E> for DriverError<E> {
    open spec fn obeys_from_spec() -> bool {
        true
    }

    open spec fn from_spec(e: E) -> Self {
        DriverError::Spi(e)
    }
}

/// Operating mode of the radio.
#[derive(Clone, Copy, PartialEq, Eq, Structural, Debug)]
pub enum Mode {
    Standby,
    Rx,
    Tx,
}

/// `c` with its `PRIM_RX` bit set to `value`.
pub open spec fn with_prim_rx(c: ConfigRegister, value: bool) -> ConfigRegister {
    ConfigRegister(set_bit(c.0, 0, value))
}

/// `c` with its `PWR_UP` bit set.
pub open spec fn powered_up(c: ConfigRegister) -> ConfigRegister {
    ConfigRegister(set_bit(c.0, 1, true))
}

/// The cached `CONFIG` once a switch to TX from `mode` has been made.
pub open spec fn tx_config(mode: Mode, c: ConfigRegister) -> ConfigRegister {
    if mode == Mode::Tx {
        c
    } else {
        with_prim_rx(c, false)
    }
}

/// The direction bit of `CONFIG` agrees with the mode: clear while
/// transmitting, set while receiving.
pub open spec fn mode_consistent(mode: Mode, c: ConfigRegister) -> bool {
    &&& mode == Mode::Tx ==> !get_bit(c.0, 0)
    &&& mode == Mode::Rx ==> get_bit(c.0, 0)
}

/// `after` extends `before` by what a switch to TX from `mode` takes: nothing
/// when already transmitting, else chip enable low and then the `CONFIG`
/// write that clears `PRIM_RX` when that changes the cache.
pub open spec fn switched_to_tx(before: Seq<BusOp>, mode: Mode, c: ConfigRegister, after: Seq<BusOp>) -> bool {
    if mode == Mode::Tx {
        after == before
    } else {
        config_written(before.push(BusOp::Ce(false)), after, c, with_prim_rx(c, false))
    }
}

/// `after` extends `before` by a read of `FIFO_STATUS` and, when the status
/// byte of that read flags an exhausted retransmission, a `FLUSH_TX` and a
/// write of `STATUS` that clears `TX_DS` and `MAX_RT`.
pub open spec fn tx_polled(before: Seq<BusOp>, after: Seq<BusOp>) -> bool {
    let mid = after.subrange(0, before.len() + 3int);
    &&& framed(before, mid, read_register_bytes(0x17, 1))
    &&& if get_bit(last_received(mid)[0], 4) {
        exists|flushed: Seq<BusOp>|
            #![trigger framed(mid, flushed, seq![0xe1u8])]
            framed(mid, flushed, seq![0xe1u8]) && framed(
                flushed,
                after,
                write_register_bytes(0x07, seq![0x30u8]),
            )
    } else {
        after == mid
    }
}

/// The `STATUS` bits that acknowledge the chosen interrupts.
pub open spec fn interrupt_bits(rx_dr: bool, tx_ds: bool, max_rt: bool) -> u8 {
    set_bit(set_bit(set_bit(0, 6, rx_dr), 5, tx_ds), 4, max_rt)
}

/// `after` is `before` followed by a switch to TX from `mode` up to
/// position `k`, and a poll of the TX queue from there on.
pub open spec fn switched_then_polled(
    before: Seq<BusOp>,
    mode: Mode,
    c: ConfigRegister,
    after: Seq<BusOp>,
    k: int,
) -> bool {
    &&& 0 <= k <= after.len()
    &&& switched_to_tx(before, mode, c, after.subrange(0, k))
    &&& tx_polled(after.subrange(0, k), after)
}

/// `FIFO_STATUS` as read by the poll that starts at position `k` of `log`.
pub open spec fn fifo_at(log: Seq<BusOp>, k: int) -> u8 {
    received_at(log, k + 1)[1]
}

/// `STATUS` as read by the poll that starts at position `k` of `log`.
pub open spec fn status_at(log: Seq<BusOp>, k: int) -> u8 {
    received_at(log, k + 1)[0]
}

/// The poll at position `k` of `log` found room in the TX queue and no
/// packet dropped for exhausted retransmissions.
pub open spec fn tx_ready_at(log: Seq<BusOp>, k: int) -> bool {
    !get_bit(status_at(log, k), 4) && !get_bit(fifo_at(log, k), 5)
}

/// The poll at position `k` of `log` found the TX queue empty and no packet
/// dropped for exhausted retransmissions.
pub open spec fn tx_empty_at(log: Seq<BusOp>, k: int) -> bool {
    !get_bit(status_at(log, k), 4) && get_bit(fifo_at(log, k), 4)
}

/// Chip enable was raised at position `k - 1` of `after`, after `before`,
/// and the rest of `after` is the `CONFIG` write from `old_config` to
/// `new_config`.
pub open spec fn raised_then_written(
    before: Seq<BusOp>,
    after: Seq<BusOp>,
    old_config: ConfigRegister,
    new_config: ConfigRegister,
    k: int,
) -> bool {
    &&& before.len() < k <= after.len()
    &&& extends(before, after)
    &&& after[k - 1] == BusOp::Ce(true)
    &&& config_written(after.subrange(0, k), after, old_config, new_config)
}

/// The cached `CONFIG` once a switch to RX from `mode` has been made.
pub open spec fn rx_config(mode: Mode, c: ConfigRegister) -> ConfigRegister {
    if mode == Mode::Rx {
        c
    } else {
        with_prim_rx(tx_config(mode, c), true)
    }
}

/// `after` is `before` followed by a switch to TX from `mode` and a poll
/// that found the TX queue empty, then chip enable low (position `k - 2`),
/// chip enable high (position `k - 1`), and the `CONFIG` write that sets
/// `PRIM_RX` when that changes the cache.
pub open spec fn drained_then_raised(
    before: Seq<BusOp>,
    mode: Mode,
    c: ConfigRegister,
    after: Seq<BusOp>,
    new_config: ConfigRegister,
    k: int,
) -> bool {
    let drained = after.subrange(0, k - 2);
    &&& before.len() + 2 <= k <= after.len()
    &&& extends(before, after)
    &&& after[k - 2] == BusOp::Ce(false)
    &&& after[k - 1] == BusOp::Ce(true)
    &&& exists|j: int|
        #[trigger] switched_then_polled(before, mode, c, drained, j) && tx_empty_at(drained, j)
    &&& config_written(after.subrange(0, k), after, tx_config(mode, c), new_config)
}

/// `after` is `before` followed by what a switch to RX from `mode` takes:
/// nothing when already receiving, else the drain, chip enable and
/// `CONFIG` steps of `drained_then_raised`.
pub open spec fn switched_to_rx(
    before: Seq<BusOp>,
    mode: Mode,
    c: ConfigRegister,
    after: Seq<BusOp>,
) -> bool {
    if mode == Mode::Rx {
        after == before
    } else {
        exists|k: int| #[trigger] drained_then_raised(before, mode, c, after, rx_config(mode, c), k)
    }
}

/// `after` is `before` followed by a switch to TX from `mode` and a poll
/// that found the TX queue not yet empty.
pub open spec fn tx_draining(
    before: Seq<BusOp>,
    mode: Mode,
    c: ConfigRegister,
    after: Seq<BusOp>,
) -> bool {
    exists|j: int| #[trigger] switched_then_polled(before, mode, c, after, j) && !tx_empty_at(after, j)
}

/// After a switch to TX the direction bit is clear.
proof fn lemma_tx_consistent(mode: Mode, c: ConfigRegister)
    requires
        mode_consistent(mode, c),
    ensures
        mode_consistent(Mode::Tx, tx_config(mode, c)),
{
    lemma_set_bit(c.0, 0, 0, false);
}

/// After a switch to RX the direction bit is set.
proof fn lemma_rx_consistent(mode: Mode, c: ConfigRegister)
    ensures
        mode_consistent(Mode::Rx, with_prim_rx(tx_config(mode, c), true)),
{
    lemma_set_bit(tx_config(mode, c).0, 0, 0, true);
}

/// Switching to TX, then to RX, then to TX again keeps the direction bit
/// of `CONFIG` in step with the mode after every switch: clear while
/// transmitting, set while receiving.
pub proof fn lemma_tx_rx_tx(mode: Mode, c: ConfigRegister)
    requires
        mode_consistent(mode, c),
    ensures
        ({
            let c1 = tx_config(mode, c);
            let c2 = with_prim_rx(tx_config(Mode::Tx, c1), true);
            let c3 = tx_config(Mode::Rx, c2);
            &&& mode_consistent(Mode::Tx, c1) && !get_bit(c1.0, 0)
            &&& mode_consistent(Mode::Rx, c2) && get_bit(c2.0, 0)
            &&& mode_consistent(Mode::Tx, c3) && !get_bit(c3.0, 0)
        }),
{
    let c1 = tx_config(mode, c);
    lemma_tx_consistent(mode, c);
    lemma_rx_consistent(Mode::Tx, c1);
    lemma_tx_consistent(Mode::Rx, with_prim_rx(tx_config(Mode::Tx, c1), true));
}

/// The chip-enable side of a mode switch. Into TX, chip enable drops
/// before any `CONFIG` write and does not change again. Into RX, chip
/// enable is raised only after the TX queue was seen empty and chip enable
/// dropped, and does not change again during the `CONFIG` write.
pub proof fn lemma_ce_ordering(
    before: Seq<BusOp>,
    mode: Mode,
    c: ConfigRegister,
    to_tx: Seq<BusOp>,
    to_rx: Seq<BusOp>,
    new_config: ConfigRegister,
    k: int,
)
    requires
        mode != Mode::Tx,
        switched_to_tx(before, mode, c, to_tx),
        drained_then_raised(before, mode, c, to_rx, new_config, k),
    ensures
        to_tx[before.len() as int] == BusOp::Ce(false),
        forall|i: int| before.len() < i < to_tx.len() ==> !(#[trigger] to_tx[i] is Ce),
        to_rx[k - 2] == BusOp::Ce(false),
        to_rx[k - 1] == BusOp::Ce(true),
        forall|i: int| k <= i < to_rx.len() ==> !(#[trigger] to_rx[i] is Ce),
{
    let lowered = before.push(BusOp::Ce(false));
    assert(to_tx.subrange(0, lowered.len() as int) == lowered || to_tx == lowered);
    assert(to_tx[before.len() as int] == lowered[before.len() as int]);
    assert forall|i: int| before.len() < i < to_tx.len() implies !(#[trigger] to_tx[i] is Ce) by {
        let n = lowered.len() as int;
        if to_tx != lowered {
            assert(i == n || i == n + 1 || i == n + 2);
        }
    }
    let raised = to_rx.subrange(0, k);
    assert forall|i: int| k <= i < to_rx.len() implies !(#[trigger] to_rx[i] is Ce) by {
        if to_rx != raised {
            assert(i == k || i == k + 1 || i == k + 2);
        }
    }
}

/// Interrupt flags to acknowledge.
struct Interrupts {
    rx_dr: bool,
    tx_ds: bool,
    max_rt: bool,
}

impl Interrupts {
    fn new() -> (r: Self)
        ensures
            !r.rx_dr && !r.tx_ds && !r.max_rt,
    {
        Self { rx_dr: false, tx_ds: false, max_rt: false }
    }

    fn set_rx_dr(self) -> (r: Self)
        ensures
            r == (Interrupts { rx_dr: true, ..self }),
    {
        let mut s = self;
        s.rx_dr = true;
        s
    }

    fn set_tx_ds(self) -> (r: Self)
        ensures
            r == (Interrupts { tx_ds: true, ..self }),
    {
        let mut s = self;
        s.tx_ds = true;
        s
    }

    fn set_max_rt(self) -> (r: Self)
        ensures
            r == (Interrupts { max_rt: true, ..self }),
    {
        let mut s = self;
        s.max_rt = true;
        s
    }
}

fn clear_prim_rx(c: ConfigRegister) -> (r: ConfigRegister)
    ensures
        r == with_prim_rx(c, false),
{
    let mut c = c;
    c.set_prim_rx(false);
    c
}

fn set_prim_rx(c: ConfigRegister) -> (r: ConfigRegister)
    ensures
        r == with_prim_rx(c, true),
{
    let mut c = c;
    c.set_prim_rx(true);
    c
}

fn set_pwr_up(c: ConfigRegister) -> (r: ConfigRegister)
    ensures
        r == powered_up(c),
{
    let mut c = c;
    c.set_pwr_up(true);
    c
}

fn copy_bytes(bytes: &[u8]) -> (r: Vec<u8>)
    ensures
        r@ == bytes@,
{
    let mut r: Vec<u8> = Vec::new();
    let mut i: usize = 0;
    while i < bytes.len()
        invariant
            i <= bytes@.len(),
            r@ =~= bytes@.subrange(0, i as int),
        decreases bytes@.len() - i,
    {
        r.push(bytes[i]);
        i += 1;
        assert(r@ =~= bytes@.subrange(0, i as int));
    }
    assert(bytes@.subrange(0, bytes@.len() as int) =~= bytes@);
    r
}

fn other<T, E>(r: Result<T, E>) -> (o: Result<T, nb::Error<E>>)
    ensures
        r matches Ok(v) ==> o == Ok::<T, nb::Error<E>>(v),
        r matches Err(e) ==> o == Err::<T, nb::Error<E>>(nb::Error::Other(e)),
{
    match r {
        Ok(v) => Ok(v),
        Err(e) => Err(nb::Error::Other(e)),
    }
}

/// The radio driver: a transport and the mode it has put the chip in.
pub struct Nrf24l01<Ce: OutputLine, Csn: OutputLine, Spi: SpiTransfer> {
    mode: Mode,
    device: DeviceImpl<Ce, Csn, Spi>,
}

impl<Ce: OutputLine, Csn: OutputLine, Spi: SpiTransfer> Nrf24l01<Ce, Csn, Spi> {
    pub closed spec fn spec_mode(&self) -> Mode {
        self.mode
    }

    /// Every line change and exchange made on the chip so far.
    pub closed spec fn spec_log(&self) -> Seq<BusOp> {
        self.device.log()
    }

    /// Every error the bus has returned so far, in order.
    pub closed spec fn spec_faults(&self) -> Seq<Spi::Fault> {
        self.device.faults()
    }

    /// The cached `CONFIG` register.
    pub closed spec fn spec_config(&self) -> ConfigRegister {
        self.device.cached_config()
    }

    /// Whether the last bus transaction issued is a framed `send` of `sent`.
    pub open spec fn ends_with(&self, sent: Seq<u8>) -> bool {
        let log = self.spec_log();
        framed(log.subrange(0, log.len() - 3), log, sent)
    }

    /// Builds the driver: idles the lines, checks that a chip answers,
    /// applies `config`, then powers the chip up in standby.
    pub fn new(ce: Ce, csn: Csn, spi: Spi, config: Config) -> (r: Result<Self, DriverError<Spi::Fault>>)
        ensures
            r matches Ok(d) ==> {
                let log = d.spec_log();
                let n = log.len() as int;
                &&& d.spec_mode() == Mode::Standby
                &&& d.spec_config() == powered_up(with_crc(initial_config(), config@.crc_mode))
                &&& mode_consistent(d.spec_mode(), d.spec_config())
                &&& ok_since(log, 0)
                &&& framed(
                    seq![BusOp::Ce(false), BusOp::Csn(true)],
                    log.subrange(0, 5),
                    read_register_bytes(0x03, 1),
                )
                &&& SetupAw::spec_decode(received_at(log, 3).drop_first()).0 <= 3
                &&& framed(
                    log.subrange(0, 5),
                    log.subrange(0, 8),
                    write_register_bytes(
                        0x04,
                        seq![setup_retr_byte(clamp(config@.auto_retransmit_delay, 15), clamp(config@.auto_retransmit_count, 15))],
                    ),
                )
                &&& configured_by(log.subrange(0, 5), log.subrange(0, n - 3), initial_config(), config@)
                &&& framed(
                    log.subrange(0, n - 3),
                    log,
                    write_register_bytes(0x00, seq![d.spec_config().0]),
                )
            },
    {
        let device = DeviceImpl::new(ce, csn, spi)?;
        let mut result = Self { mode: Mode::Standby, device };
        let ghost start = result.spec_log();
        let ghost settings = config@;
        match config.configure(&mut result.device) {
            Ok(()) => {},
            Err(e) => {
                return Err(DriverError::Spi(e));
            },
        }
        let ghost configured = result.spec_log();
        proof {
            let c0 = with_crc(initial_config(), settings.crc_mode);
            assert(!get_bit(0x08u8, 1)) by (bit_vector);
            lemma_set_bit(0x08u8, 3, 1, true);
            lemma_set_bit(0x08u8, 3, 1, false);
            lemma_set_bit(set_bit(0x08u8, 3, true), 2, 1, true);
            lemma_set_bit(set_bit(0x08u8, 3, true), 2, 1, false);
            assert(!get_bit(c0.0, 1));
            lemma_set_bit(c0.0, 1, 1, true);
            assert(powered_up(c0) != c0);
        }
        match result.device.update_config(|c: ConfigRegister| -> (n: ConfigRegister)
            ensures
                n == powered_up(c),
            { set_pwr_up(c) }) {
            Ok(()) => {},
            Err(e) => {
                return Err(DriverError::Spi(e));
            },
        }
        proof {
            let log = result.spec_log();
            lemma_ok_since_trans(start, configured, 0);
            lemma_ok_since_trans(configured, log, 0);
            assert(log.subrange(0, log.len() - 3) =~= configured);
            assert(configured.subrange(0, 5) =~= start);
            assert(log.subrange(0, 5) =~= start);
            let a = start.len() + 12 + crc_write_len(initial_config(), settings.crc_mode);
            let cl = configured.subrange(0, a);
            assert(radio_configured(start, cl, initial_config(), settings));
            assert(cl.subrange(0, 5) =~= start);
            assert(cl.subrange(0, 8) =~= configured.subrange(0, 8));
            assert(log.subrange(0, 8) =~= configured.subrange(0, 8));
            assert(configured_by(start, configured, initial_config(), settings));
            assert(start.subrange(0, 2) =~= seq![BusOp::Ce(false), BusOp::Csn(true)]);
            assert(write_register_bytes(0x00, result.spec_config().spec_encode()) =~= write_register_bytes(
                0x00,
                seq![result.spec_config().0],
            ));
        }
        Ok(result)
    }

    /// The default settings, to adjust before calling `new`.
    pub fn config() -> (r: Config)
        ensures
            r@ == default_settings(),
    {
        Config::default()
    }

    /// Switches to TX: chip enable low first, then `PRIM_RX` cleared.
    fn tx(&mut self) -> (r: Result<(), Spi::Fault>)
        ensures
            r is Ok <==> ok_since(final(self).spec_log(), old(self).spec_log().len() as int),
            r is Err ==> failed_last(final(self).spec_log(), old(self).spec_log().len() as int),
            fault_recorded(r, old(self).spec_faults(), final(self).spec_faults()),
            extends(old(self).spec_log(), final(self).spec_log()),
            final(self).spec_config() == tx_config(old(self).spec_mode(), old(self).spec_config()),
            switched_to_tx(
                old(self).spec_log(),
                old(self).spec_mode(),
                old(self).spec_config(),
                final(self).spec_log(),
            ),
            old(self).spec_mode() == Mode::Tx ==> r is Ok,
            r is Ok ==> final(self).spec_mode() == Mode::Tx,
            r is Err ==> final(self).spec_mode() == old(self).spec_mode(),
    {
        if self.mode == Mode::Tx {
            return Ok(());
        }
        self.device.ce_disable();
        let ghost lowered = self.spec_log();
        let r = self.device.update_config(|c: ConfigRegister| -> (n: ConfigRegister)
            ensures
                n == with_prim_rx(c, false),
            { clear_prim_rx(c) });
        match r {
            Ok(()) => {},
            Err(e) => {
                return Err(e);
            },
        }
        proof {
            lemma_ok_since_trans(lowered, self.spec_log(), old(self).spec_log().len() as int);
        }
        self.mode = Mode::Tx;
        Ok(())
    }

    /// Writes 1 to the chosen interrupt flags of `STATUS`, which clears them.
    fn clear(&mut self, interrupts: Interrupts) -> (r: Result<(), Spi::Fault>)
        ensures
            r is Ok <==> ok_since(final(self).spec_log(), old(self).spec_log().len() as int),
            r is Err ==> failed_last(final(self).spec_log(), old(self).spec_log().len() as int),
            fault_recorded(r, old(self).spec_faults(), final(self).spec_faults()),
            extends(old(self).spec_log(), final(self).spec_log()),
            framed(
                old(self).spec_log(),
                final(self).spec_log(),
                write_register_bytes(
                    0x07,
                    seq![interrupt_bits(interrupts.rx_dr, interrupts.tx_ds, interrupts.max_rt)],
                ),
            ),
            final(self).spec_mode() == old(self).spec_mode(),
            final(self).spec_config() == old(self).spec_config(),
    {
        let mut clear = Status(0);
        clear.set_rx_dr(interrupts.rx_dr);
        clear.set_tx_ds(interrupts.tx_ds);
        clear.set_max_rt(interrupts.max_rt);
        let _ = self.device.write_register(clear)?;
        Ok(())
    }

    /// Acknowledges all three interrupts: data received, data sent and
    /// retransmissions exhausted.
    pub fn clear_interrupts(&mut self) -> (r: Result<(), Spi::Fault>)
        ensures
            r is Ok <==> ok_since(final(self).spec_log(), old(self).spec_log().len() as int),
            r is Err ==> failed_last(final(self).spec_log(), old(self).spec_log().len() as int),
            fault_recorded(r, old(self).spec_faults(), final(self).spec_faults()),
            r is Ok && mode_consistent(old(self).spec_mode(), old(self).spec_config())
                ==> mode_consistent(final(self).spec_mode(), final(self).spec_config()),
            framed(old(self).spec_log(), final(self).spec_log(), seq![0x27u8, 0x70u8]),
            final(self).spec_mode() == old(self).spec_mode(),
            final(self).spec_config() == old(self).spec_config(),
    {
        let r = self.clear(Interrupts::new().set_rx_dr().set_tx_ds().set_max_rt());
        assert(interrupt_bits(true, true, true) == 0x70u8) by (bit_vector);
        assert(write_register_bytes(0x07, seq![0x70u8]) =~= seq![0x27u8, 0x70u8]) by {
            assert(0x20u8 | (0x07u8 & 0x1f) == 0x27u8) by (bit_vector);
        }
        r
    }

    /// Reads `FIFO_STATUS`; when the status byte says retransmission was
    /// exhausted, drops the stuck packet and clears `TX_DS` and `MAX_RT`.
    fn poll_tx(&mut self) -> (r: Result<(Status, FifoStatus), Spi::Fault>)
        ensures
            r is Ok <==> ok_since(final(self).spec_log(), old(self).spec_log().len() as int),
            r is Err ==> failed_last(final(self).spec_log(), old(self).spec_log().len() as int),
            fault_recorded(r, old(self).spec_faults(), final(self).spec_faults()),
            extends(old(self).spec_log(), final(self).spec_log()),
            final(self).spec_mode() == old(self).spec_mode(),
            final(self).spec_config() == old(self).spec_config(),
            r matches Ok((status, fifo)) ==> tx_polled(old(self).spec_log(), final(self).spec_log())
                && status.0 == status_at(final(self).spec_log(), old(self).spec_log().len() as int)
                && fifo.0 == fifo_at(final(self).spec_log(), old(self).spec_log().len() as int),
    {
        let ghost before = self.spec_log();
        let (status, fifo_status) = self.device.read_register::<FifoStatus>()?;
        let ghost mid = self.spec_log();
        assert(mid.subrange(0, before.len() + 3int) =~= mid);
        if status.max_rt() {
            let _ = self.device.send_command(&Command::FlushTx)?;
            let ghost flushed = self.spec_log();
            proof {
                lemma_ok_since_trans(mid, flushed, before.len() as int);
            }
            self.clear(Interrupts::new().set_tx_ds().set_max_rt())?;
            proof {
                lemma_ok_since_trans(flushed, self.spec_log(), before.len() as int);
            }
            assert(interrupt_bits(false, true, true) == 0x30u8) by (bit_vector);
            let ghost after = self.spec_log();
            assert(after.subrange(0, before.len() + 3int) =~= mid) by {
                assert(flushed.subrange(0, mid.len() as int) == mid);
                assert(after.subrange(0, flushed.len() as int) == flushed);
                assert(after.subrange(0, before.len() + 3int) =~= flushed.subrange(
                    0,
                    before.len() + 3int,
                ));
            }
            assert(framed(mid, flushed, seq![0xe1u8]));
            assert(received_at(after, before.len() + 1int) == received_at(mid, before.len() + 1int)) by {
                assert(after[before.len() + 1int] == after.subrange(0, before.len() + 3int)[before.len() + 1int]);
            }
        }
        Ok((status, fifo_status))
    }

    /// Switches to TX and reports whether the TX queue has room for another
    /// packet. A packet stuck after exhausted retransmissions is dropped,
    /// its interrupt flags cleared, and the poll reports `WouldBlock`.
    pub fn wait_tx_ready(&mut self) -> (r: Result<(), nb::Error<Spi::Fault>>)
        ensures
            final(self).spec_config() == tx_config(old(self).spec_mode(), old(self).spec_config()),
            final(self).spec_mode() == Mode::Tx || (r matches Err(nb::Error::Other(_))
                && final(self).spec_mode() == old(self).spec_mode()),
            !(r matches Err(nb::Error::Other(_))) <==> ok_since(
                final(self).spec_log(),
                old(self).spec_log().len() as int,
            ),
            r matches Err(nb::Error::Other(_)) ==> failed_last(
                final(self).spec_log(),
                old(self).spec_log().len() as int,
            ),
            nb_fault_recorded(r, old(self).spec_faults(), final(self).spec_faults()),
            r is Ok && mode_consistent(old(self).spec_mode(), old(self).spec_config())
                ==> mode_consistent(final(self).spec_mode(), final(self).spec_config()),
            extends(old(self).spec_log(), final(self).spec_log()),
            !(r matches Err(nb::Error::Other(_))) ==> {
                &&& final(self).spec_mode() == Mode::Tx
                &&& final(self).spec_config() == tx_config(
                    old(self).spec_mode(),
                    old(self).spec_config(),
                )
                &&& exists|k: int|
                    switched_then_polled(
                        old(self).spec_log(),
                        old(self).spec_mode(),
                        old(self).spec_config(),
                        final(self).spec_log(),
                        k,
                    ) && (r is Ok <==> tx_ready_at(final(self).spec_log(), k))
            },
    {
        proof {
            if mode_consistent(old(self).spec_mode(), old(self).spec_config()) {
                lemma_tx_consistent(old(self).spec_mode(), old(self).spec_config());
            }
        }
        let ghost start = self.spec_log();
        other(self.tx())?;
        let ghost k = self.spec_log().len() as int;
        let ghost switched = self.spec_log();
        let (status, fifo_status) = other(self.poll_tx())?;
        proof {
            lemma_ok_since_trans(switched, self.spec_log(), start.len() as int);
        }
        assert(status.0 == status_at(self.spec_log(), k));
        assert(fifo_status.0 == fifo_at(self.spec_log(), k));
        assert(self.spec_log().subrange(0, k) =~= switched) by {
            assert(self.spec_log().subrange(0, k + 3) .subrange(0, k) =~= self.spec_log().subrange(0, k));
        }
        assert(switched_then_polled(start, old(self).spec_mode(), old(self).spec_config(), self.spec_log(), k));
        if status.max_rt() || fifo_status.tx_full() {
            assert(!tx_ready_at(self.spec_log(), k));
            Err(nb::Error::WouldBlock)
        } else {
            assert(tx_ready_at(self.spec_log(), k));
            Ok(())
        }
    }

    /// Switches to TX and reports whether the TX queue is empty; once it
    /// is, drops chip enable so the radio stops transmitting. A packet stuck
    /// after exhausted retransmissions is dropped, its interrupt flags
    /// cleared, and the poll reports `WouldBlock`.
    pub fn wait_tx_empty(&mut self) -> (r: Result<(), nb::Error<Spi::Fault>>)
        ensures
            final(self).spec_config() == tx_config(old(self).spec_mode(), old(self).spec_config()),
            final(self).spec_mode() == Mode::Tx || (r matches Err(nb::Error::Other(_))
                && final(self).spec_mode() == old(self).spec_mode()),
            r is Ok ==> final(self).spec_log().len() > old(self).spec_log().len() + 3,
            !(r matches Err(nb::Error::Other(_))) <==> ok_since(
                final(self).spec_log(),
                old(self).spec_log().len() as int,
            ),
            r matches Err(nb::Error::Other(_)) ==> failed_last(
                final(self).spec_log(),
                old(self).spec_log().len() as int,
            ),
            nb_fault_recorded(r, old(self).spec_faults(), final(self).spec_faults()),
            r is Ok && mode_consistent(old(self).spec_mode(), old(self).spec_config())
                ==> mode_consistent(final(self).spec_mode(), final(self).spec_config()),
            extends(old(self).spec_log(), final(self).spec_log()),
            !(r matches Err(nb::Error::Other(_))) ==> {
                &&& final(self).spec_mode() == Mode::Tx
                &&& final(self).spec_config() == tx_config(
                    old(self).spec_mode(),
                    old(self).spec_config(),
                )
            },
            r is Ok ==> {
                let log = final(self).spec_log();
                &&& log.last() == BusOp::Ce(false)
                &&& exists|k: int|
                    switched_then_polled(
                        old(self).spec_log(),
                        old(self).spec_mode(),
                        old(self).spec_config(),
                        log.drop_last(),
                        k,
                    ) && tx_empty_at(log.drop_last(), k)
            },
            r matches Err(nb::Error::WouldBlock) ==> exists|k: int|
                switched_then_polled(
                    old(self).spec_log(),
                    old(self).spec_mode(),
                    old(self).spec_config(),
                    final(self).spec_log(),
                    k,
                ) && !tx_empty_at(final(self).spec_log(), k),
    {
        proof {
            if mode_consistent(old(self).spec_mode(), old(self).spec_config()) {
                lemma_tx_consistent(old(self).spec_mode(), old(self).spec_config());
            }
        }
        let ghost start = self.spec_log();
        other(self.tx())?;
        let ghost k = self.spec_log().len() as int;
        let ghost switched = self.spec_log();
        let (status, fifo_status) = other(self.poll_tx())?;
        proof {
            lemma_ok_since_trans(switched, self.spec_log(), start.len() as int);
        }
        assert(status.0 == status_at(self.spec_log(), k));
        assert(fifo_status.0 == fifo_at(self.spec_log(), k));
        let ghost polled = self.spec_log();
        assert(polled.subrange(0, k) =~= switched) by {
            assert(polled.subrange(0, k + 3).subrange(0, k) =~= polled.subrange(0, k));
        }
        assert(switched_then_polled(start, old(self).spec_mode(), old(self).spec_config(), polled, k));
        if !status.max_rt() && fifo_status.tx_empty() {
            assert(tx_empty_at(polled, k));
            self.device.ce_disable();
            proof {
                lemma_ok_since_trans(polled, self.spec_log(), start.len() as int);
            }
            assert(self.spec_log().drop_last() =~= polled);
            Ok(())
        } else {
            assert(!tx_empty_at(polled, k));
            Err(nb::Error::WouldBlock)
        }
    }

    /// Switches to RX: waits for the TX queue to drain, then raises chip
    /// enable and sets `PRIM_RX`.
    #[verifier::spinoff_prover]
    fn rx(&mut self) -> (r: Result<(), nb::Error<Spi::Fault>>)
        ensures
            old(self).spec_mode() == Mode::Rx ==> final(self).spec_mode() == Mode::Rx
                && final(self).spec_config() == old(self).spec_config(),
            r matches Err(nb::Error::Other(_)) ==> final(self).spec_mode() == old(self).spec_mode()
                || final(self).spec_mode() == Mode::Tx,
            extends(old(self).spec_log(), final(self).spec_log()),
            !(r matches Err(nb::Error::Other(_))) <==> ok_since(
                final(self).spec_log(),
                old(self).spec_log().len() as int,
            ),
            r matches Err(nb::Error::Other(_)) ==> failed_last(
                final(self).spec_log(),
                old(self).spec_log().len() as int,
            ),
            nb_fault_recorded(r, old(self).spec_faults(), final(self).spec_faults()),
            old(self).spec_mode() == Mode::Rx ==> r is Ok && final(self).spec_log() == old(
                self,
            ).spec_log() && final(self).spec_config() == old(self).spec_config(),
            r is Ok ==> {
                &&& final(self).spec_mode() == Mode::Rx
                &&& final(self).spec_config() == rx_config(
                    old(self).spec_mode(),
                    old(self).spec_config(),
                )
                &&& switched_to_rx(
                    old(self).spec_log(),
                    old(self).spec_mode(),
                    old(self).spec_config(),
                    final(self).spec_log(),
                )
            },
            r matches Err(nb::Error::WouldBlock) ==> tx_draining(
                old(self).spec_log(),
                old(self).spec_mode(),
                old(self).spec_config(),
                final(self).spec_log(),
            ) && final(self).spec_mode() == Mode::Tx && final(self).spec_config() == tx_config(
                old(self).spec_mode(),
                old(self).spec_config(),
            ),
    {
        if self.mode == Mode::Rx {
            return Ok(());
        }
        let ghost start = self.spec_log();
        self.wait_tx_empty()?;
        let ghost waited = self.spec_log();
        let ghost mid_config = self.spec_config();
        self.device.ce_enable();
        let ghost k = self.spec_log().len() as int;
        let ghost raised = self.spec_log();
        let r = self.device.update_config(|c: ConfigRegister| -> (n: ConfigRegister)
            ensures
                n == with_prim_rx(c, true),
            { set_prim_rx(c) });
        assert(self.spec_log().subrange(0, k) =~= raised);
        other(r)?;
        let ghost log = self.spec_log();
        proof {
            lemma_ok_since_trans(waited, raised, start.len() as int);
            lemma_ok_since_trans(raised, log, start.len() as int);
            assert(extends(start, log));
            assert(raised == waited.push(BusOp::Ce(true)));
            assert(log[k - 1] == raised[k - 1]);
            assert(log[k - 2] == raised[k - 2]);
            assert(log[k - 2] == waited.last());
            assert(log.subrange(0, k - 2) =~= waited.drop_last());
            let j = choose|j: int|
                switched_then_polled(
                    old(self).spec_log(),
                    old(self).spec_mode(),
                    old(self).spec_config(),
                    waited.drop_last(),
                    j,
                ) && tx_empty_at(waited.drop_last(), j);
            assert(switched_then_polled(
                old(self).spec_log(),
                old(self).spec_mode(),
                old(self).spec_config(),
                log.subrange(0, k - 2),
                j,
            ));
            assert(mid_config == tx_config(old(self).spec_mode(), old(self).spec_config()));
            assert(drained_then_raised(
                old(self).spec_log(),
                old(self).spec_mode(),
                old(self).spec_config(),
                log,
                self.spec_config(),
                k,
            ));
        }
        self.mode = Mode::Rx;
        assert(self.spec_config() == rx_config(old(self).spec_mode(), old(self).spec_config()));
        assert(drained_then_raised(
            old(self).spec_log(),
            old(self).spec_mode(),
            old(self).spec_config(),
            self.spec_log(),
            rx_config(old(self).spec_mode(), old(self).spec_config()),
            k,
        ));
        assert(switched_to_rx(
            old(self).spec_log(),
            old(self).spec_mode(),
            old(self).spec_config(),
            self.spec_log(),
        ));
        Ok(())
    }

    /// Switches to RX and reports the pipe of the packet at the head of the
    /// RX queue, or `WouldBlock` while the queue is empty (or while the TX
    /// queue still drains before the switch).
    pub fn wait_rx_ready(&mut self) -> (r: Result<u8, nb::Error<Spi::Fault>>)
        ensures
            old(self).spec_mode() == Mode::Rx ==> final(self).spec_mode() == Mode::Rx
                && final(self).spec_config() == old(self).spec_config(),
            r matches Err(nb::Error::Other(_)) ==> final(self).spec_mode() == old(self).spec_mode()
                || final(self).spec_mode() == Mode::Tx || (final(self).spec_mode() == Mode::Rx
                && final(self).spec_config() == rx_config(old(self).spec_mode(), old(self).spec_config())),
            extends(old(self).spec_log(), final(self).spec_log()),
            !(r matches Err(nb::Error::Other(_))) <==> ok_since(
                final(self).spec_log(),
                old(self).spec_log().len() as int,
            ),
            r matches Err(nb::Error::Other(_)) ==> failed_last(
                final(self).spec_log(),
                old(self).spec_log().len() as int,
            ),
            nb_fault_recorded(r, old(self).spec_faults(), final(self).spec_faults()),
            r is Ok && mode_consistent(old(self).spec_mode(), old(self).spec_config())
                ==> mode_consistent(final(self).spec_mode(), final(self).spec_config()),
            old(self).spec_mode() == Mode::Rx && !(r matches Err(nb::Error::Other(_))) ==> {
                &&& final(self).spec_mode() == Mode::Rx
                &&& final(self).spec_config() == old(self).spec_config()
                &&& framed(old(self).spec_log(), final(self).spec_log(), read_register_bytes(0x17, 1))
            },
            final(self).spec_mode() == Mode::Rx && !(r matches Err(nb::Error::Other(_))) ==> {
                let log = final(self).spec_log();
                let recv = last_received(log);
                &&& switched_to_rx(
                    old(self).spec_log(),
                    old(self).spec_mode(),
                    old(self).spec_config(),
                    log.subrange(0, log.len() - 3),
                )
                &&& final(self).spec_config() == rx_config(
                    old(self).spec_mode(),
                    old(self).spec_config(),
                )
                &&& framed(log.subrange(0, log.len() - 3), log, read_register_bytes(0x17, 1))
                &&& r matches Ok(pipe) ==> !get_bit(recv[1], 0) && pipe == get_field(recv[0], 1, 0x07)
                &&& r matches Err(nb::Error::WouldBlock) ==> get_bit(recv[1], 0)
            },
            r is Ok ==> final(self).spec_mode() == Mode::Rx,
            r matches Err(nb::Error::WouldBlock) && final(self).spec_mode() != Mode::Rx ==> tx_draining(
                old(self).spec_log(),
                old(self).spec_mode(),
                old(self).spec_config(),
                final(self).spec_log(),
            ) && final(self).spec_mode() == Mode::Tx,
    {
        let ghost start = self.spec_log();
        self.rx()?;
        proof {
            if old(self).spec_mode() != Mode::Rx {
                lemma_rx_consistent(old(self).spec_mode(), old(self).spec_config());
            }
        }
        let ghost switched = self.spec_log();
        let (status, fifo_status) = other(self.device.read_register::<FifoStatus>())?;
        proof {
            lemma_ok_since_trans(switched, self.spec_log(), start.len() as int);
        }
        assert(self.spec_log().subrange(0, self.spec_log().len() - 3) =~= switched);
        if fifo_status.rx_empty() {
            Err(nb::Error::WouldBlock)
        } else {
            Ok(status.rx_p_no())
        }
    }

    /// Switches to RX and reads the packet at the head of the RX queue: its
    /// width first, then that many bytes (at most 32). Only meaningful after
    /// `wait_rx_ready` reported a packet.
    pub fn read(&mut self) -> (r: Result<Payload, nb::Error<Spi::Fault>>)
        ensures
            old(self).spec_mode() == Mode::Rx ==> final(self).spec_mode() == Mode::Rx
                && final(self).spec_config() == old(self).spec_config(),
            r matches Err(nb::Error::Other(_)) ==> final(self).spec_mode() == old(self).spec_mode()
                || final(self).spec_mode() == Mode::Tx || (final(self).spec_mode() == Mode::Rx
                && final(self).spec_config() == rx_config(old(self).spec_mode(), old(self).spec_config())),
            extends(old(self).spec_log(), final(self).spec_log()),
            !(r matches Err(nb::Error::Other(_))) <==> ok_since(
                final(self).spec_log(),
                old(self).spec_log().len() as int,
            ),
            r matches Err(nb::Error::Other(_)) ==> failed_last(
                final(self).spec_log(),
                old(self).spec_log().len() as int,
            ),
            nb_fault_recorded(r, old(self).spec_faults(), final(self).spec_faults()),
            r is Ok && mode_consistent(old(self).spec_mode(), old(self).spec_config())
                ==> mode_consistent(final(self).spec_mode(), final(self).spec_config()),
            old(self).spec_mode() == Mode::Rx ==> !(r matches Err(nb::Error::WouldBlock)),
            r matches Err(nb::Error::WouldBlock) ==> tx_draining(
                old(self).spec_log(),
                old(self).spec_mode(),
                old(self).spec_config(),
                final(self).spec_log(),
            ) && final(self).spec_mode() == Mode::Tx && final(self).spec_config() == tx_config(
                old(self).spec_mode(),
                old(self).spec_config(),
            ),
            r matches Ok(payload) ==> {
                let log = final(self).spec_log();
                let n = log.len() as int;
                let mid = log.subrange(0, n - 3);
                let width = last_received(mid)[1];
                let taken = if width <= 32 { width } else { 32u8 };
                &&& final(self).spec_mode() == Mode::Rx
                &&& final(self).spec_config() == rx_config(
                    old(self).spec_mode(),
                    old(self).spec_config(),
                )
                &&& switched_to_rx(
                    old(self).spec_log(),
                    old(self).spec_mode(),
                    old(self).spec_config(),
                    log.subrange(0, n - 6),
                )
                &&& framed(log.subrange(0, n - 6), mid, seq![0x60u8, 0u8])
                &&& framed(mid, log, seq![0x61u8] + zeros(taken as nat))
                &&& payload.view() == last_received(log).drop_first()
                &&& payload.view().len() == taken
            },
    {
        proof {
            if old(self).spec_mode() != Mode::Rx {
                lemma_rx_consistent(old(self).spec_mode(), old(self).spec_config());
            }
        }
        let ghost start = self.spec_log();
        self.rx()?;
        let ghost before = self.spec_log();
        let (_, width_response) = other(self.device.send_command(&Command::ReadRxPayloadWidth))?;
        let ghost mid = self.spec_log();
        proof {
            lemma_ok_since_trans(before, mid, start.len() as int);
        }
        let width = width_response[1];
        let taken: usize = if width <= 32 { width as usize } else { 32 };
        let (_, response) = other(self.device.send_command(&Command::ReadRxPayload { width: taken }))?;
        let log = Ghost(self.spec_log());
        proof {
            lemma_ok_since_trans(mid, log@, start.len() as int);
        }
        assert(log@.subrange(0, log@.len() - 3) =~= mid);
        assert(log@.subrange(0, log@.len() - 6) =~= before) by {
            assert(mid.subrange(0, mid.len() - 3) =~= before);
            assert(log@.subrange(0, log@.len() - 6) =~= mid.subrange(0, mid.len() - 3));
        }
        let payload = Payload::from_response(&response);
        assert(response@.subrange(1, response@.len() as int) =~= response@.drop_first());
        Ok(payload)
    }

    /// Switches to TX, waits for room in the TX queue, queues `packet` and
    /// raises chip enable to send it. Returns before the packet is sent.
    pub fn send(&mut self, packet: &[u8]) -> (r: Result<(), nb::Error<Spi::Fault>>)
        requires
            packet@.len() <= 32,
        ensures
            final(self).spec_config() == tx_config(old(self).spec_mode(), old(self).spec_config()),
            final(self).spec_mode() == Mode::Tx || (r matches Err(nb::Error::Other(_))
                && final(self).spec_mode() == old(self).spec_mode()),
            !(r matches Err(nb::Error::Other(_))) <==> ok_since(
                final(self).spec_log(),
                old(self).spec_log().len() as int,
            ),
            r matches Err(nb::Error::Other(_)) ==> failed_last(
                final(self).spec_log(),
                old(self).spec_log().len() as int,
            ),
            nb_fault_recorded(r, old(self).spec_faults(), final(self).spec_faults()),
            r is Ok && mode_consistent(old(self).spec_mode(), old(self).spec_config())
                ==> mode_consistent(final(self).spec_mode(), final(self).spec_config()),
            extends(old(self).spec_log(), final(self).spec_log()),
            !(r matches Err(nb::Error::Other(_))) ==> final(self).spec_mode() == Mode::Tx
                && final(self).spec_config() == tx_config(old(self).spec_mode(), old(self).spec_config()),
            r is Ok ==> {
                let log = final(self).spec_log();
                let n = log.len() as int;
                &&& log.last() == BusOp::Ce(true)
                &&& framed(log.subrange(0, n - 4), log.drop_last(), seq![0xa0u8] + packet@)
                &&& exists|k: int|
                    #[trigger] switched_then_polled(
                        old(self).spec_log(),
                        old(self).spec_mode(),
                        old(self).spec_config(),
                        log.subrange(0, n - 4),
                        k,
                    ) && tx_ready_at(log.subrange(0, n - 4), k)
            },
            r matches Err(nb::Error::WouldBlock) ==> exists|k: int|
                switched_then_polled(
                    old(self).spec_log(),
                    old(self).spec_mode(),
                    old(self).spec_config(),
                    final(self).spec_log(),
                    k,
                ) && !tx_ready_at(final(self).spec_log(), k),
    {
        self.wait_tx_ready()?;
        let ghost ready = self.spec_log();
        let data = copy_bytes(packet);
        let _ = other(self.device.send_command(&Command::WriteTxPayload { data }))?;
        let ghost queued = self.spec_log();
        self.device.ce_enable();
        let log = Ghost(self.spec_log());
        proof {
            lemma_ok_since_trans(ready, queued, old(self).spec_log().len() as int);
            lemma_ok_since_trans(queued, log@, old(self).spec_log().len() as int);
        }
        assert(log@.drop_last() =~= queued);
        assert(log@.subrange(0, log@.len() - 4) =~= ready);
        proof {
            let k = choose|k: int|
                switched_then_polled(
                    old(self).spec_log(),
                    old(self).spec_mode(),
                    old(self).spec_config(),
                    ready,
                    k,
                ) && tx_ready_at(ready, k);
            assert(switched_then_polled(
                old(self).spec_log(),
                old(self).spec_mode(),
                old(self).spec_config(),
                log@.subrange(0, log@.len() - 4),
                k,
            ));
        }
        Ok(())
    }
}

} // verus!
