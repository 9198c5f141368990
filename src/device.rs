//! The transport: one command per chip-select framed bus exchange, register
//! reads and writes, and the cached `CONFIG` register.

use vstd::prelude::*;
use crate::command::{
    decode_register, decode_status, read_register_bytes, response_status, write_register_bytes,
    Command,
};
use crate::registers::{set_bit, Config, Register, SetupAw, Status};
use crate::DriverError;

verus! {

/// A single-bit output line (chip select, chip enable).
pub trait OutputLine {
    /// Drives the line high.
    fn set_high(&mut self);

    /// Drives the line low.
    fn set_low(&mut self);
}

/// A full-duplex serial bus that exchanges a buffer in place.
pub trait SpiTransfer {
    /// Error of a failed exchange.
    type Fault;

    /// Sends the bytes of `buf` and overwrites each with the byte received
    /// at the same time. A slice cannot change its length, so neither can
    /// the buffer.
    fn transfer(&mut self, buf: &mut [u8]) -> (r: Result<(), Self::Fault>)
        ensures
            final(buf)@.len() == old(buf)@.len(),
    ;
}

/// What the driver did to the chip's lines and bus, in order.
pub ghost enum BusOp {
    /// Chip enable driven high (`true`) or low.
    Ce(bool),
    /// Chip select driven high (`true`, idle) or low (selected).
    Csn(bool),
    /// One full-duplex exchange: bytes sent, bytes received, and whether
    /// the bus reported success.
    Exchange(Seq<u8>, Seq<u8>, bool),
}

/// `after` is `before` followed by exactly one transaction that sent
/// `sent`: chip select low, the exchange, chip select high again.
pub open spec fn framed(before: Seq<BusOp>, after: Seq<BusOp>, sent: Seq<u8>) -> bool {
    let n = before.len() as int;
    &&& after.len() == n + 3
    &&& after.subrange(0, n) == before
    &&& after[n] == BusOp::Csn(false)
    &&& after[n + 1] matches BusOp::Exchange(s, recv, _) && s == sent && recv.len() == sent.len()
    &&& after[n + 2] == BusOp::Csn(true)
}

/// `after` begins with `before`.
pub open spec fn extends(before: Seq<BusOp>, after: Seq<BusOp>) -> bool {
    &&& before.len() <= after.len()
    &&& forall|i: int| 0 <= i < before.len() ==> #[trigger] after[i] == before[i]
}

/// Bytes received by the exchange at position `i` of a log.
pub open spec fn received_at(log: Seq<BusOp>, i: int) -> Seq<u8> {
    match log[i] {
        BusOp::Exchange(_, recv, _) => recv,
        _ => Seq::empty(),
    }
}

/// Whether the entry at position `i` of a log is not a failed exchange.
pub open spec fn exchange_ok(log: Seq<BusOp>, i: int) -> bool {
    match log[i] {
        BusOp::Exchange(_, _, ok) => ok,
        _ => true,
    }
}

/// No exchange from position `n` of a log on failed.
pub open spec fn ok_since(log: Seq<BusOp>, n: int) -> bool {
    forall|i: int| n <= i < log.len() ==> #[trigger] exchange_ok(log, i)
}

/// The transaction that ends a log, which starts at or after position `n`,
/// failed on the bus.
pub open spec fn failed_last(log: Seq<BusOp>, n: int) -> bool {
    n <= log.len() - 3 && !exchange_ok(log, log.len() - 2)
}

/// A transaction that succeeded leaves no failed exchange behind.
pub proof fn lemma_ok_since_trans(a: Seq<BusOp>, b: Seq<BusOp>, n: int)
    requires
        0 <= n <= a.len(),
        extends(a, b),
        ok_since(a, n),
        ok_since(b, a.len() as int),
    ensures
        ok_since(b, n),
{
    assert forall|i: int| n <= i < b.len() implies #[trigger] exchange_ok(b, i) by {
        if i < a.len() {
            assert(b[i] == a[i]);
            assert(exchange_ok(a, i));
        }
    }
}

/// Bytes received by the transaction that ends a log.
pub open spec fn last_received(log: Seq<BusOp>) -> Seq<u8> {
    received_at(log, log.len() - 2)
}

/// Data bytes of the transaction that ends a log, after the status byte.
pub open spec fn last_data(log: Seq<BusOp>) -> Seq<u8> {
    last_received(log).drop_first()
}

/// `CONFIG` at power-on reset (CRC on), with all three interrupts unmasked.
pub open spec fn initial_config() -> Config {
    Config(0x08)
}

/// `after` is `before` followed by what writing `new` over the cached
/// `old_config` takes: nothing when the two are equal, one write otherwise.
pub open spec fn config_written(
    before: Seq<BusOp>,
    after: Seq<BusOp>,
    old_config: Config,
    new_config: Config,
) -> bool {
    if new_config == old_config {
        after == before
    } else {
        framed(before, after, write_register_bytes(0x00, new_config.spec_encode()))
    }
}

/// A transaction drives chip select low once, at its start, and releases
/// it once, at its end, whatever the exchange returned.
pub proof fn lemma_select_released_once(before: Seq<BusOp>, after: Seq<BusOp>, sent: Seq<u8>)
    requires
        framed(before, after, sent),
    ensures
        forall|i: int|
            before.len() <= i < after.len() ==> (#[trigger] after[i] == BusOp::Csn(true) <==> i
                == after.len() - 1),
        forall|i: int|
            before.len() <= i < after.len() ==> (#[trigger] after[i] == BusOp::Csn(false) <==> i
                == before.len()),
{
}

/// Updating the cached `CONFIG` writes to the bus if and only if the value
/// changed, and then exactly once, with the new value.
pub proof fn lemma_config_write_iff_changed(
    before: Seq<BusOp>,
    after: Seq<BusOp>,
    old_config: Config,
    new_config: Config,
)
    requires
        config_written(before, after, old_config, new_config),
    ensures
        (after == before) <==> (new_config == old_config),
        new_config != old_config ==> after.len() == before.len() + 3 && after[before.len() + 1int]
            == BusOp::Exchange(
            seq![0x20u8, new_config.0],
            received_at(after, before.len() + 1int),
            exchange_ok(after, before.len() + 1int),
        ),
{
    if new_config != old_config {
        assert(after.len() != before.len());
        assert(write_register_bytes(0x00, new_config.spec_encode()) =~= seq![0x20u8, new_config.0]) by {
            assert(0x20u8 | (0x00u8 & 0x1f) == 0x20u8) by (bit_vector);
        }
    }
}

/// The error of `r`, if any, was recorded as the one new fault; a success
/// records none.
pub open spec fn fault_recorded<T, E>(r: Result<T, E>, before: Seq<E>, after: Seq<E>) -> bool {
    match r {
        Ok(_) => after == before,
        Err(e) => after == before.push(e),
    }
}

/// The bus error in `r`, if any, was recorded as the one new fault; a
/// success or a `WouldBlock` records none.
pub open spec fn nb_fault_recorded<T, E>(r: Result<T, nb::Error<E>>, before: Seq<E>, after: Seq<E>) -> bool {
    match r {
        Err(nb::Error::Other(e)) => after == before.push(e),
        _ => after == before,
    }
}

/// The operations the mode logic needs from a chip, whatever the lines and
/// bus behind it.
pub trait Device {
    /// Error from the bus.
    type Fault;

    /// Every line change and exchange made so far.
    spec fn log(&self) -> Seq<BusOp>;

    /// The in-memory copy of `CONFIG`.
    spec fn cached_config(&self) -> Config;

    /// Every error the bus has returned so far, in order.
    spec fn faults(&self) -> Seq<Self::Fault>;

    /// Sets chip enable high.
    fn ce_enable(&mut self)
        ensures
            ok_since(final(self).log(), old(self).log().len() as int),
            extends(old(self).log(), final(self).log()),
            final(self).log() == old(self).log().push(BusOp::Ce(true)),
            final(self).cached_config() == old(self).cached_config(),
            final(self).faults() == old(self).faults(),
    ;

    /// Sets chip enable low.
    fn ce_disable(&mut self)
        ensures
            ok_since(final(self).log(), old(self).log().len() as int),
            extends(old(self).log(), final(self).log()),
            final(self).log() == old(self).log().push(BusOp::Ce(false)),
            final(self).cached_config() == old(self).cached_config(),
            final(self).faults() == old(self).faults(),
    ;

    /// Runs one command as one framed transaction. Chip select is released
    /// before an error is returned; the response, status byte first, is only
    /// returned when the exchange succeeded.
    fn send_command(&mut self, command: &Command) -> (r: Result<(Status, Vec<u8>), Self::Fault>)
        requires
            command.wf(),
        ensures
            r is Ok <==> ok_since(final(self).log(), old(self).log().len() as int),
            r is Err ==> failed_last(final(self).log(), old(self).log().len() as int),
            fault_recorded(r, old(self).faults(), final(self).faults()),
            extends(old(self).log(), final(self).log()),
            framed(old(self).log(), final(self).log(), command.spec_bytes()),
            final(self).cached_config() == old(self).cached_config(),
            r matches Ok((status, response)) ==> response@ == last_received(final(self).log())
                && status == response_status(response@),
    ;

    /// Sends `W_REGISTER` for `register`.
    fn write_register<R: Register>(&mut self, register: R) -> (r: Result<Status, Self::Fault>)
        ensures
            r is Ok <==> ok_since(final(self).log(), old(self).log().len() as int),
            r is Err ==> failed_last(final(self).log(), old(self).log().len() as int),
            fault_recorded(r, old(self).faults(), final(self).faults()),
            extends(old(self).log(), final(self).log()),
            framed(
                old(self).log(),
                final(self).log(),
                write_register_bytes(R::spec_addr(), register.spec_encode()),
            ),
            final(self).cached_config() == old(self).cached_config(),
            r matches Ok(status) ==> status == response_status(last_received(final(self).log())),
    ;

    /// Sends `R_REGISTER` for register `R` and decodes the reply.
    fn read_register<R: Register>(&mut self) -> (r: Result<(Status, R), Self::Fault>)
        ensures
            r is Ok <==> ok_since(final(self).log(), old(self).log().len() as int),
            r is Err ==> failed_last(final(self).log(), old(self).log().len() as int),
            fault_recorded(r, old(self).faults(), final(self).faults()),
            extends(old(self).log(), final(self).log()),
            framed(
                old(self).log(),
                final(self).log(),
                read_register_bytes(R::spec_addr(), R::spec_width()),
            ),
            final(self).cached_config() == old(self).cached_config(),
            r matches Ok((status, reg)) ==> status == response_status(
                last_received(final(self).log()),
            ) && reg == R::spec_decode(last_data(final(self).log())),
    ;

    /// Reads a register, applies `f`, and writes the result back only when
    /// its bytes differ from those read. Not for `CONFIG`, which is cached.
    fn update_register<Reg: Register, F: FnOnce(Reg) -> Reg>(&mut self, f: F) -> (r: Result<
        (),
        Self::Fault,
    >)
        requires
            Reg::spec_addr() != 0x00,
            forall|x: Reg| f.requires((x,)),
        ensures
            extends(old(self).log(), final(self).log()),
            final(self).cached_config() == old(self).cached_config(),
            r is Ok <==> ok_since(final(self).log(), old(self).log().len() as int),
            r is Err ==> failed_last(final(self).log(), old(self).log().len() as int),
            fault_recorded(r, old(self).faults(), final(self).faults()),
            ({
                let mid = final(self).log().subrange(0, old(self).log().len() + 3int);
                let read = Reg::spec_decode(last_data(mid));
                &&& framed(
                    old(self).log(),
                    mid,
                    read_register_bytes(Reg::spec_addr(), Reg::spec_width()),
                )
                &&& !exchange_ok(mid, mid.len() - 2) ==> final(self).log() == mid
                &&& exchange_ok(mid, mid.len() - 2) ==> exists|new: Reg|
                    #[trigger] f.ensures((read,), new) && if new.spec_encode() == read.spec_encode() {
                        final(self).log() == mid
                    } else {
                        framed(
                            mid,
                            final(self).log(),
                            write_register_bytes(Reg::spec_addr(), new.spec_encode()),
                        )
                    }
            }),
    {
        let ghost start = self.log();
        let read = self.read_register::<Reg>();
        let ghost mid = self.log();
        assert(mid.subrange(0, start.len() + 3int) =~= mid);
        let (_, old_register) = read?;
        let old_bytes = old_register.encode();
        let register = f(old_register);
        let new_bytes = register.encode();
        if !bytes_equal(&new_bytes, &old_bytes) {
            let written = self.write_register(register);
            assert(self.log().subrange(0, start.len() + 3int) =~= mid);
            let _ = written?;
            proof {
                lemma_ok_since_trans(mid, self.log(), start.len() as int);
            }
        }
        Ok(())
    }

    /// Applies `f` to the cached `CONFIG` and writes the result only when it
    /// differs from the cached value. The cache keeps the new value.
    fn update_config<F: FnOnce(Config) -> Config>(&mut self, f: F) -> (r: Result<(), Self::Fault>)
        requires
            f.requires((old(self).cached_config(),)),
        ensures
            r is Ok <==> ok_since(final(self).log(), old(self).log().len() as int),
            r is Err ==> failed_last(final(self).log(), old(self).log().len() as int),
            fault_recorded(r, old(self).faults(), final(self).faults()),
            extends(old(self).log(), final(self).log()),
            f.ensures((old(self).cached_config(),), final(self).cached_config()),
            config_written(
                old(self).log(),
                final(self).log(),
                old(self).cached_config(),
                final(self).cached_config(),
            ),
            final(self).cached_config() == old(self).cached_config() ==> r is Ok,
    ;
}

/// Byte-wise equality of two buffers.
pub fn bytes_equal(a: &Vec<u8>, b: &Vec<u8>) -> (r: bool)
    ensures
        r == (a@ == b@),
{
    if a.len() != b.len() {
        return false;
    }
    let mut i: usize = 0;
    while i < a.len()
        invariant
            i <= a@.len(),
            a@.len() == b@.len(),
            forall|j: int| 0 <= j < i ==> a@[j] == b@[j],
        decreases a@.len() - i,
    {
        if a[i] != b[i] {
            return false;
        }
        i += 1;
    }
    assert(a@ =~= b@);
    true
}

/// Decides construction from the answer of the connection check: the
/// device when the chip answered plausibly, `NotConnected` when it did not,
/// and the bus error when the check could not be made.
pub fn connection_outcome<T, E>(device: T, check: Result<bool, E>) -> (r: Result<T, DriverError<E>>)
    ensures
        check == Ok::<bool, E>(true) ==> r == Ok::<T, DriverError<E>>(device),
        check == Ok::<bool, E>(false) ==> r matches Err(DriverError::NotConnected),
        check matches Err(e) ==> r == Err::<T, DriverError<E>>(DriverError::Spi(e)),
{
    match check {
        Ok(true) => Ok(device),
        Ok(false) => Err(DriverError::NotConnected),
        Err(e) => Err(DriverError::Spi(e)),
    }
}

/// The transport over two output lines and a serial bus.
pub struct DeviceImpl<Ce: OutputLine, Csn: OutputLine, Spi: SpiTransfer> {
    ce: Ce,
    csn: Csn,
    spi: Spi,
    config: Config,
    log: Ghost<Seq<BusOp>>,
    faults: Ghost<Seq<Spi::Fault>>,
}

impl<Ce: OutputLine, Csn: OutputLine, Spi: SpiTransfer> DeviceImpl<Ce, Csn, Spi> {
    /// Idles the lines (chip enable low, chip select high), sets the cache
    /// to the reset value of `CONFIG` with all interrupts unmasked, and
    /// checks that a chip answers.
    pub fn new(ce: Ce, csn: Csn, spi: Spi) -> (r: Result<Self, DriverError<Spi::Fault>>)
        ensures
            r matches Ok(d) ==> {
                let start = seq![BusOp::Ce(false), BusOp::Csn(true)];
                &&& framed(start, d.log(), read_register_bytes(0x03, 1))
                &&& ok_since(d.log(), 0)
                &&& SetupAw::spec_decode(last_data(d.log())).0 <= 3
                &&& d.cached_config() == initial_config()
            },
    {
        let mut ce = ce;
        let mut csn = csn;
        ce.set_low();
        csn.set_high();
        let mut config = Config(0b0000_1000);
        config.set_mask_rx_dr(false);
        config.set_mask_tx_ds(false);
        config.set_mask_max_rt(false);
        assert(set_bit(set_bit(set_bit(0x08u8, 6, false), 5, false), 4, false) == 0x08u8)
            by (bit_vector);
        let ghost start = seq![BusOp::Ce(false), BusOp::Csn(true)];
        let mut device = DeviceImpl {
            ce,
            csn,
            spi,
            config,
            log: Ghost(start),
            faults: Ghost(Seq::empty()),
        };
        let check = device.is_connected();
        assert(ok_since(device.log(), 0) <== (check is Ok)) by {
            if check is Ok {
                assert forall|i: int| 0 <= i < device.log().len() implies #[trigger] exchange_ok(
                    device.log(),
                    i,
                ) by {
                    if i < 2 {
                        assert(device.log()[i] == start[i]);
                    }
                }
            }
        }
        connection_outcome(device, check)
    }

    /// Reads `SETUP_AW` and reports whether it holds a plausible value: an
    /// address width code of at most 3 with the reserved bits clear.
    pub fn is_connected(&mut self) -> (r: Result<bool, Spi::Fault>)
        ensures
            framed(old(self).log(), final(self).log(), read_register_bytes(0x03, 1)),
            final(self).cached_config() == old(self).cached_config(),
            r matches Ok(b) ==> b == (SetupAw::spec_decode(last_data(final(self).log())).0 <= 3),
            r is Ok <==> ok_since(final(self).log(), old(self).log().len() as int),
            r is Err ==> failed_last(final(self).log(), old(self).log().len() as int),
            fault_recorded(r, old(self).faults(), final(self).faults()),
    {
        let (_, setup_aw) = self.read_register::<SetupAw>()?;
        let valid = setup_aw.aw() <= 3;
        Ok(valid)
    }
}

impl<Ce: OutputLine, Csn: OutputLine, Spi: SpiTransfer> Device for DeviceImpl<Ce, Csn, Spi> {
    type Fault = Spi::Fault;

    closed spec fn log(&self) -> Seq<BusOp> {
        self.log@
    }

    closed spec fn cached_config(&self) -> Config {
        self.config
    }

    closed spec fn faults(&self) -> Seq<Spi::Fault> {
        self.faults@
    }

    fn ce_enable(&mut self) {
        self.ce.set_high();
        self.log = Ghost(self.log@.push(BusOp::Ce(true)));
        assert(extends(old(self).log@, self.log@));
    }

    fn ce_disable(&mut self) {
        self.ce.set_low();
        self.log = Ghost(self.log@.push(BusOp::Ce(false)));
    }

    fn send_command(&mut self, command: &Command) -> (r: Result<(Status, Vec<u8>), Self::Fault>) {
        let mut buf = command.encode();
        let ghost sent = buf@;
        let ghost before = self.log@;
        self.csn.set_low();
        self.log = Ghost(self.log@.push(BusOp::Csn(false)));
        let transfer_result = self.spi.transfer(buf.as_mut_slice());
        self.log = Ghost(self.log@.push(BusOp::Exchange(sent, buf@, transfer_result is Ok)));
        self.csn.set_high();
        self.log = Ghost(self.log@.push(BusOp::Csn(true)));
        assert(self.log@.subrange(0, before.len() as int) =~= before);
        assert(exchange_ok(self.log@, before.len() + 1int) == (transfer_result is Ok));
        assert(exchange_ok(self.log@, before.len() as int));
        assert(exchange_ok(self.log@, before.len() + 2int));
        // The error is only passed on once chip select is released.
        match transfer_result {
            Ok(()) => {},
            Err(e) => {
                self.faults = Ghost(self.faults@.push(e));
                return Err(e);
            },
        }
        assert forall|i: int| before.len() <= i < self.log@.len() implies #[trigger] exchange_ok(
            self.log@,
            i,
        ) by {
            if i == before.len() + 1 {
            } else if i == before.len() {
            } else {
            }
        }
        let status = decode_status(buf.as_slice());
        Ok((status, buf))
    }

    fn write_register<R: Register>(&mut self, register: R) -> (r: Result<Status, Self::Fault>) {
        let command = Command::write_register(&register);
        let (status, _) = self.send_command(&command)?;
        Ok(status)
    }

    fn read_register<R: Register>(&mut self) -> (r: Result<(Status, R), Self::Fault>) {
        let command = Command::read_register::<R>();
        let (status, response) = self.send_command(&command)?;
        let reg = decode_register::<R>(&response);
        Ok((status, reg))
    }

    fn update_config<F: FnOnce(Config) -> Config>(&mut self, f: F) -> (r: Result<(), Self::Fault>) {
        let old_config = self.config;
        self.config = f(old_config);
        if self.config != old_config {
            let config = self.config;
            let _ = self.write_register(config)?;
        }
        Ok(())
    }
}

} // verus!
