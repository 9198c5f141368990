//! Receive mode over any [`Device`]: the chip listens and the caller polls
//! for packets.

use vstd::prelude::*;
use crate::command::{read_register_bytes, write_register_bytes, zeros, Command, Payload};
use crate::device::{
    extends, failed_last, fault_recorded, framed, last_received, lemma_ok_since_trans, nb_fault_recorded, ok_since, BusOp, Device,
};
use crate::registers::{get_bit, get_field, set_bit, FifoStatus, Status, CD};

verus! {

/// Receive mode: a device that has been set up to listen.
pub struct RxMode<D: Device> {
    device: D,
}

impl<D: Device> RxMode<D> {
    /// Every line change and exchange made on the device so far.
    pub closed spec fn log(&self) -> Seq<BusOp> {
        self.device.log()
    }

    /// Every error the bus has returned so far, in order.
    pub closed spec fn faults(&self) -> Seq<D::Fault> {
        self.device.faults()
    }

    /// Takes a device already switched to receive (chip enable high,
    /// `PRIM_RX` set).
    pub fn new(device: D) -> (r: Self)
        ensures
            r.log() == device.log(),
    {
        RxMode { device }
    }

    /// Drops chip enable so that the chip can be switched to TX, and hands
    /// the device back.
    pub fn standby(self) -> (r: D)
        ensures
            r.log() == self.log().push(BusOp::Ce(false)),
    {
        let mut device = self.device;
        device.ce_disable();
        device
    }

    /// The pipe of the next packet, or `WouldBlock` while the RX queue is
    /// empty.
    pub fn pipe(&mut self) -> (r: Result<u8, nb::Error<D::Fault>>)
        ensures
            !(r matches Err(nb::Error::Other(_))) <==> ok_since(
                final(self).log(),
                old(self).log().len() as int,
            ),
            r matches Err(nb::Error::Other(_)) ==> failed_last(
                final(self).log(),
                old(self).log().len() as int,
            ),
            nb_fault_recorded(r, old(self).faults(), final(self).faults()),
            framed(old(self).log(), final(self).log(), read_register_bytes(0x17, 1)),
            r matches Ok(p) ==> {
                let recv = last_received(final(self).log());
                !get_bit(recv[1], 0) && p == get_field(recv[0], 1, 0x07)
            },
            r matches Err(nb::Error::WouldBlock) ==> get_bit(
                last_received(final(self).log())[1],
                0,
            ),
    {
        match self.device.read_register::<FifoStatus>() {
            Ok((status, fifo_status)) => {
                if fifo_status.rx_empty() {
                    Err(nb::Error::WouldBlock)
                } else {
                    Ok(status.rx_p_no())
                }
            },
            Err(e) => Err(nb::Error::Other(e)),
        }
    }

    /// Acknowledges all three interrupts. Callers are advised to call
    /// `pipe`, then this, then `read`, and then loop over `pipe` and `read`.
    pub fn clear_interrupts(&mut self) -> (r: Result<(), D::Fault>)
        ensures
            r is Ok <==> ok_since(final(self).log(), old(self).log().len() as int),
            r is Err ==> failed_last(final(self).log(), old(self).log().len() as int),
            fault_recorded(r, old(self).faults(), final(self).faults()),
            framed(old(self).log(), final(self).log(), seq![0x27u8, 0x70u8]),
    {
        let mut clear = Status(0);
        clear.set_rx_dr(true);
        clear.set_tx_ds(true);
        clear.set_max_rt(true);
        assert(set_bit(set_bit(set_bit(0, 6, true), 5, true), 4, true) == 0x70u8) by (bit_vector);
        assert(write_register_bytes(0x07, seq![0x70u8]) =~= seq![0x27u8, 0x70u8]) by {
            assert(0x20u8 | (0x07u8 & 0x1f) == 0x27u8) by (bit_vector);
        }
        let _ = self.device.write_register(clear)?;
        Ok(())
    }

    /// Whether an in-band carrier was detected. The signal must last 40 us
    /// (nRF24L01+) or 128 us (nRF24L01) before the register shows it, and
    /// switching from standby to receive takes 130 us.
    pub fn has_carrier(&mut self) -> (r: Result<bool, D::Fault>)
        ensures
            r is Ok <==> ok_since(final(self).log(), old(self).log().len() as int),
            r is Err ==> failed_last(final(self).log(), old(self).log().len() as int),
            fault_recorded(r, old(self).faults(), final(self).faults()),
            framed(old(self).log(), final(self).log(), read_register_bytes(0x09, 1)),
            r matches Ok(b) ==> b == (last_received(final(self).log())[1] & 1 == 1),
    {
        match self.device.read_register::<CD>() {
            Ok((_, cd)) => Ok(cd.0 & 1 == 1),
            Err(e) => Err(e),
        }
    }

    /// Whether the RX queue is empty.
    pub fn is_empty(&mut self) -> (r: Result<bool, D::Fault>)
        ensures
            r is Ok <==> ok_since(final(self).log(), old(self).log().len() as int),
            r is Err ==> failed_last(final(self).log(), old(self).log().len() as int),
            fault_recorded(r, old(self).faults(), final(self).faults()),
            framed(old(self).log(), final(self).log(), read_register_bytes(0x17, 1)),
            r matches Ok(b) ==> b == get_bit(last_received(final(self).log())[1], 0),
    {
        match self.device.read_register::<FifoStatus>() {
            Ok((_, fifo_status)) => Ok(fifo_status.rx_empty()),
            Err(e) => Err(e),
        }
    }

    /// Whether the RX queue is full.
    pub fn is_full(&mut self) -> (r: Result<bool, D::Fault>)
        ensures
            r is Ok <==> ok_since(final(self).log(), old(self).log().len() as int),
            r is Err ==> failed_last(final(self).log(), old(self).log().len() as int),
            fault_recorded(r, old(self).faults(), final(self).faults()),
            framed(old(self).log(), final(self).log(), read_register_bytes(0x17, 1)),
            r matches Ok(b) ==> b == get_bit(last_received(final(self).log())[1], 1),
    {
        match self.device.read_register::<FifoStatus>() {
            Ok((_, fifo_status)) => Ok(fifo_status.rx_full()),
            Err(e) => Err(e),
        }
    }

    /// Reads the next received packet: its width, then that many bytes (at
    /// most 32).
    pub fn read(&mut self) -> (r: Result<Payload, D::Fault>)
        ensures
            r is Ok <==> ok_since(final(self).log(), old(self).log().len() as int),
            r is Err ==> failed_last(final(self).log(), old(self).log().len() as int),
            fault_recorded(r, old(self).faults(), final(self).faults()),
            extends(old(self).log(), final(self).log()),
            r matches Ok(payload) ==> {
                let log = final(self).log();
                let n = log.len() as int;
                let mid = log.subrange(0, n - 3);
                let width = last_received(mid)[1];
                let taken = if width <= 32 { width } else { 32u8 };
                &&& framed(old(self).log(), mid, seq![0x60u8, 0u8])
                &&& framed(mid, log, seq![0x61u8] + zeros(taken as nat))
                &&& payload.view() == last_received(log).drop_first()
                &&& payload.view().len() == taken
            },
    {
        let (_, width_response) = self.device.send_command(&Command::ReadRxPayloadWidth)?;
        let ghost mid = self.log();
        let width = width_response[1];
        let taken: usize = if width <= 32 { width as usize } else { 32 };
        let (_, response) = self.device.send_command(&Command::ReadRxPayload { width: taken })?;
        proof {
            lemma_ok_since_trans(mid, self.log(), old(self).log().len() as int);
        }
        assert(self.log().subrange(0, self.log().len() - 3) =~= mid);
        let payload = Payload::from_response(&response);
        assert(response@.subrange(1, response@.len() as int) =~= response@.drop_first());
        Ok(payload)
    }
}

} // verus!
