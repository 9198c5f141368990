//! Radio settings and the register writes that apply them.

use vstd::prelude::*;
use crate::command::write_register_bytes;
use crate::device::{config_written, extends, failed_last, fault_recorded, framed, lemma_ok_since_trans, ok_since, BusOp, Device};
use crate::registers::{
    put_field, set_bit, Config, Dynpd, EnAa, EnRxaddr, Feature, RfCh, RfSetup, RxAddrP1, RxAddrP2,
    RxAddrP3, RxAddrP4, RxAddrP5, RxPwP0, RxPwP1, RxPwP2, RxPwP3, RxPwP4, RxPwP5, SetupRetr,
    bits_of,
};

verus! {

/// Over-the-air data rate.
#[derive(Clone, Copy, PartialEq, Eq, Structural, Debug)]
pub enum DataRate {
    R250Kbps,
    R1Mbps,
    R2Mbps,
}

/// Width of the packet checksum.
#[derive(Clone, Copy, PartialEq, Eq, Structural, Debug)]
pub enum CrcMode {
    Disabled,
    OneByte,
    TwoBytes,
}

/// `CONFIG` with `EN_CRC` and `CRCO` set for `mode`, other bits kept.
pub open spec fn with_crc(c: Config, mode: CrcMode) -> Config {
    match mode {
        CrcMode::Disabled => Config(set_bit(c.0, 3, false)),
        CrcMode::OneByte => Config(set_bit(set_bit(c.0, 3, true), 2, false)),
        CrcMode::TwoBytes => Config(set_bit(set_bit(c.0, 3, true), 2, true)),
    }
}

impl CrcMode {
    /// Sets the CRC bits of `config` for this mode.
    pub fn set_config(&self, config: Config) -> (r: Config)
        ensures
            r == with_crc(config, *self),
    {
        let mut config = config;
        match self {
            CrcMode::Disabled => {
                config.set_en_crc(false);
            },
            CrcMode::OneByte => {
                config.set_en_crc(true);
                config.set_crco(false);
            },
            CrcMode::TwoBytes => {
                config.set_en_crc(true);
                config.set_crco(true);
            },
        }
        config
    }
}

/// The `RF_SETUP` byte for a data rate and a power level.
pub open spec fn rf_setup_byte(rate: DataRate, power: u8) -> u8 {
    let low = rate == DataRate::R250Kbps;
    let high = rate == DataRate::R2Mbps;
    set_bit(set_bit(put_field(0, 1, 0x03, power), 5, low), 3, high)
}

/// The `SETUP_RETR` byte for a delay and a count code.
pub open spec fn setup_retr_byte(delay: u8, count: u8) -> u8 {
    put_field(put_field(0, 4, 0x0f, delay), 0, 0x0f, count)
}

/// Writes `SETUP_RETR`: retransmission delay code (250 us steps) and count.
pub fn set_auto_retransmit<D: Device>(device: &mut D, delay: u8, count: u8) -> (r: Result<(), D::Fault>)
    requires
        delay <= 15,
        count <= 15,
    ensures
        r is Ok <==> ok_since(final(device).log(), old(device).log().len() as int),
        fault_recorded(r, old(device).faults(), final(device).faults()),
        framed(old(device).log(), final(device).log(), write_register_bytes(0x04, seq![setup_retr_byte(delay, count)])),
        extends(old(device).log(), final(device).log()),
        final(device).cached_config() == old(device).cached_config(),
{
    let mut register = SetupRetr(0);
    register.set_ard(delay);
    register.set_arc(count);
    let _ = device.write_register(register)?;
    Ok(())
}

/// Writes `RF_SETUP`: data rate and output power level (0 to 3).
pub fn set_rf<D: Device>(device: &mut D, rate: &DataRate, power: u8) -> (r: Result<(), D::Fault>)
    requires
        power <= 3,
    ensures
        r is Ok <==> ok_since(final(device).log(), old(device).log().len() as int),
        fault_recorded(r, old(device).faults(), final(device).faults()),
        framed(old(device).log(), final(device).log(), write_register_bytes(0x06, seq![rf_setup_byte(*rate, power)])),
        extends(old(device).log(), final(device).log()),
        final(device).cached_config() == old(device).cached_config(),
{
    let mut register = RfSetup(0);
    register.set_rf_pwr(power);
    let (dr_low, dr_high) = match rate {
        DataRate::R250Kbps => (true, false),
        DataRate::R1Mbps => (false, false),
        DataRate::R2Mbps => (false, true),
    };
    register.set_rf_dr_low(dr_low);
    register.set_rf_dr_high(dr_high);
    let _ = device.write_register(register)?;
    Ok(())
}

/// Sets the CRC bits of the cached `CONFIG`, writing it if they change.
pub fn set_crc<D: Device>(device: &mut D, mode: CrcMode) -> (r: Result<(), D::Fault>)
    ensures
        r is Ok <==> ok_since(final(device).log(), old(device).log().len() as int),
        fault_recorded(r, old(device).faults(), final(device).faults()),
        final(device).cached_config() == with_crc(old(device).cached_config(), mode),
        config_written(old(device).log(), final(device).log(), old(device).cached_config(), final(device).cached_config()),
        extends(old(device).log(), final(device).log()),
{
    device.update_config(|c: Config| -> (n: Config)
        ensures
            n == with_crc(c, mode),
        { mode.set_config(c) })
}

/// Writes `RF_CH`: the channel, 2400 MHz plus `freq_offset` MHz.
pub fn set_frequency<D: Device>(device: &mut D, freq_offset: u8) -> (r: Result<(), D::Fault>)
    requires
        freq_offset < 126,
    ensures
        r is Ok <==> ok_since(final(device).log(), old(device).log().len() as int),
        fault_recorded(r, old(device).faults(), final(device).faults()),
        framed(old(device).log(), final(device).log(), write_register_bytes(0x05, seq![freq_offset])),
        extends(old(device).log(), final(device).log()),
        final(device).cached_config() == old(device).cached_config(),
{
    let mut register = RfCh(0);
    register.set_rf_ch(freq_offset);
    assert(put_field(0, 0, 0x7f, freq_offset) == freq_offset) by (bit_vector)
        requires
            freq_offset < 126,
    ;
    let _ = device.write_register(register)?;
    Ok(())
}

/// Writes `EN_RXADDR`: which pipes receive.
pub fn set_pipes_rx_enable<D: Device>(device: &mut D, bools: &[bool; 6]) -> (r: Result<(), D::Fault>)
    ensures
        r is Ok <==> ok_since(final(device).log(), old(device).log().len() as int),
        fault_recorded(r, old(device).faults(), final(device).faults()),
        framed(old(device).log(), final(device).log(), write_register_bytes(0x02, seq![bits_of(bools@)])),
        extends(old(device).log(), final(device).log()),
        final(device).cached_config() == old(device).cached_config(),
{
    let _ = device.write_register(EnRxaddr::from_bools(bools))?;
    Ok(())
}

/// Writes `EN_AA`: which pipes acknowledge automatically.
pub fn set_auto_ack<D: Device>(device: &mut D, bools: &[bool; 6]) -> (r: Result<(), D::Fault>)
    ensures
        r is Ok <==> ok_since(final(device).log(), old(device).log().len() as int),
        fault_recorded(r, old(device).faults(), final(device).faults()),
        framed(old(device).log(), final(device).log(), write_register_bytes(0x01, seq![bits_of(bools@)])),
        extends(old(device).log(), final(device).log()),
        final(device).cached_config() == old(device).cached_config(),
{
    let _ = device.write_register(EnAa::from_bools(bools))?;
    Ok(())
}

/// The `DYNPD` byte: one bit for each pipe without a fixed length.
pub open spec fn dynamic_bits(lengths: Seq<Option<u8>>) -> u8 {
    bits_of(Seq::new(6, |i: int| lengths[i] is None))
}

/// `after` is `before` followed by the writes that set pipe lengths: the
/// `FEATURE` update when any pipe is dynamic, then `DYNPD`, then
/// `RX_PW_P0` to `RX_PW_P5`, with no failed exchange.
pub open spec fn lengths_written(before: Seq<BusOp>, after: Seq<BusOp>, lengths: Seq<Option<u8>>) -> bool {
    let n = after.len() as int;
    let dynpd = dynamic_bits(lengths);
    &&& before.len() + 21 <= n
    &&& extends(before, after)
    &&& ok_since(after, before.len() as int)
    &&& dynpd == 0 ==> n == before.len() + 21
    &&& framed(after.subrange(0, n - 21), after.subrange(0, n - 18), write_register_bytes(0x1c, seq![dynpd]))
    &&& forall|p: int|
        0 <= p < 6 ==> framed(
            #[trigger] after.subrange(0, n - 18 + 3 * p),
            after.subrange(0, n - 15 + 3 * p),
            write_register_bytes((0x11 + p) as u8, seq![static_width(lengths[p])]),
        )
}

/// `length` as a static payload width: at most 32, 0 when dynamic.
pub open spec fn static_width(length: Option<u8>) -> u8 {
    match length {
        Some(n) => if n <= 32 { n } else { 32 },
        None => 0,
    }
}

fn width_of(length: Option<u8>) -> (r: u8)
    ensures
        r == static_width(length),
        r <= 32,
{
    match length {
        Some(n) => if n <= 32 { n } else { 32 },
        None => 0,
    }
}

fn set_dpl(f: Feature) -> (r: Feature)
    ensures
        r.0 == set_bit(f.0, 2, true),
{
    let mut f = f;
    f.set_en_dpl(true);
    f
}

/// Pipes with no fixed length get dynamic payload lengths (`DYNPD`, and
/// `EN_DPL` in `FEATURE` when any pipe needs it); the others get their
/// static width in `RX_PW_P0` to `RX_PW_P5`.
pub fn set_pipes_rx_lengths<D: Device>(device: &mut D, lengths: &[Option<u8>; 6]) -> (r: Result<(), D::Fault>)
    ensures
        r is Err ==> failed_last(final(device).log(), old(device).log().len() as int),
        r is Ok <==> ok_since(final(device).log(), old(device).log().len() as int),
        fault_recorded(r, old(device).faults(), final(device).faults()),
        extends(old(device).log(), final(device).log()),
        final(device).cached_config() == old(device).cached_config(),
        r is Ok ==> lengths_written(old(device).log(), final(device).log(), lengths@),
{
    let dynamic = [
        lengths[0].is_none(),
        lengths[1].is_none(),
        lengths[2].is_none(),
        lengths[3].is_none(),
        lengths[4].is_none(),
        lengths[5].is_none(),
    ];
    assert(dynamic@ =~= Seq::new(6, |i: int| lengths@[i] is None));
    let dynpd = Dynpd::from_bools(&dynamic);
    let ghost l0 = device.log();
    if dynpd.0 != 0 {
        device.update_register::<Feature, _>(|f: Feature| -> (n: Feature)
            ensures
                n.0 == set_bit(f.0, 2, true),
            { set_dpl(f) })?;
    }
    let ghost l1 = device.log();
    let _ = device.write_register(dynpd)?;
    let ghost l2 = device.log();
    let _ = device.write_register(RxPwP0(width_of(lengths[0])))?;
    let ghost l3 = device.log();
    let _ = device.write_register(RxPwP1(width_of(lengths[1])))?;
    let ghost l4 = device.log();
    let _ = device.write_register(RxPwP2(width_of(lengths[2])))?;
    let ghost l5 = device.log();
    let _ = device.write_register(RxPwP3(width_of(lengths[3])))?;
    let ghost l6 = device.log();
    let _ = device.write_register(RxPwP4(width_of(lengths[4])))?;
    let ghost l7 = device.log();
    let _ = device.write_register(RxPwP5(width_of(lengths[5])))?;
    proof {
        let log = device.log();
        let n = log.len() as int;
        lemma_ok_since_trans(l0, l1, l0.len() as int);
        lemma_ok_since_trans(l1, l2, l0.len() as int);
        lemma_ok_since_trans(l2, l3, l0.len() as int);
        lemma_ok_since_trans(l3, l4, l0.len() as int);
        lemma_ok_since_trans(l4, l5, l0.len() as int);
        lemma_ok_since_trans(l5, l6, l0.len() as int);
        lemma_ok_since_trans(l6, l7, l0.len() as int);
        lemma_ok_since_trans(l7, log, l0.len() as int);
        assert(extends(l7, log));
        assert(extends(l6, log));
        assert(extends(l5, log));
        assert(extends(l4, log));
        assert(extends(l3, log));
        assert(extends(l2, log));
        assert(extends(l1, log));
        assert(log.subrange(0, n - 21) =~= l1);
        assert(log.subrange(0, n - 18) =~= l2);
        assert(log.subrange(0, n - 15) =~= l3);
        assert(log.subrange(0, n - 12) =~= l4);
        assert(log.subrange(0, n - 9) =~= l5);
        assert(log.subrange(0, n - 6) =~= l6);
        assert(log.subrange(0, n - 3) =~= l7);
        assert(log.subrange(0, n) =~= log);
        assert forall|p: int|
            0 <= p < 6 implies framed(
                #[trigger] log.subrange(0, n - 18 + 3 * p),
                log.subrange(0, n - 15 + 3 * p),
                write_register_bytes((0x11 + p) as u8, seq![static_width(lengths@[p])]),
            ) by {
            if p == 0 {
            } else if p == 1 {
            } else if p == 2 {
            } else if p == 3 {
            } else if p == 4 {
            } else {
            }
        }
    }
    Ok(())
}

/// Writes the full five-byte address of pipe 1, least significant first.
pub fn set_rx_addr_p1<D: Device>(device: &mut D, addr: &[u8; 5]) -> (r: Result<(), D::Fault>)
    ensures
        r is Ok <==> ok_since(final(device).log(), old(device).log().len() as int),
        fault_recorded(r, old(device).faults(), final(device).faults()),
        framed(old(device).log(), final(device).log(), write_register_bytes(0x0b, addr@)),
        extends(old(device).log(), final(device).log()),
        final(device).cached_config() == old(device).cached_config(),
{
    let register = RxAddrP1(addr[0], addr[1], addr[2], addr[3], addr[4]);
    assert(seq![addr[0], addr[1], addr[2], addr[3], addr[4]] =~= addr@);
    let _ = device.write_register(register)?;
    Ok(())
}

/// Writes the least significant address byte of pipe 2 to 5.
pub fn set_rx_addr_byte<D: Device>(device: &mut D, pipe: usize, byte: u8) -> (r: Result<(), D::Fault>)
    requires
        2 <= pipe <= 5,
    ensures
        r is Ok <==> ok_since(final(device).log(), old(device).log().len() as int),
        fault_recorded(r, old(device).faults(), final(device).faults()),
        framed(old(device).log(), final(device).log(), write_register_bytes((0x0a + pipe) as u8, seq![byte])),
        extends(old(device).log(), final(device).log()),
        final(device).cached_config() == old(device).cached_config(),
{
    if pipe == 2 {
        let _ = device.write_register(RxAddrP2(byte))?;
    } else if pipe == 3 {
        let _ = device.write_register(RxAddrP3(byte))?;
    } else if pipe == 4 {
        let _ = device.write_register(RxAddrP4(byte))?;
    } else {
        let _ = device.write_register(RxAddrP5(byte))?;
    }
    Ok(())
}

} // verus!
