//! The command codec: each operation as the exact bytes sent, and the
//! reading of the bytes that come back.

use vstd::prelude::*;
use crate::registers::{Register, Status};

verus! {

/// Largest payload the chip queues, in bytes.
pub const MAX_PAYLOAD: usize = 32;

/// One operation of the chip's command set.
pub enum Command {
    /// `R_REGISTER`: read `width` bytes of the register at `addr`.
    ReadRegister { addr: u8, width: usize },
    /// `W_REGISTER`: write `data` to the register at `addr`.
    WriteRegister { addr: u8, data: Vec<u8> },
    /// `R_RX_PL_WID`: width of the packet at the head of the RX queue.
    ReadRxPayloadWidth,
    /// `R_RX_PAYLOAD`: read and remove `width` bytes of received payload.
    ReadRxPayload { width: usize },
    /// `W_TX_PAYLOAD`: queue `data` for transmission.
    WriteTxPayload { data: Vec<u8> },
    /// `FLUSH_TX`: drop every queued outgoing packet.
    FlushTx,
    /// `FLUSH_RX`: drop every received packet.
    FlushRx,
    /// `ACTIVATE`: toggles the extra features on the older chip revision.
    Activate,
}

/// `n` zero bytes.
pub open spec fn zeros(n: nat) -> Seq<u8> {
    Seq::new(n, |i: int| 0u8)
}

/// Opcode byte of a register read.
pub open spec fn read_opcode(addr: u8) -> u8 {
    addr & 0x1f
}

/// Opcode byte of a register write.
pub open spec fn write_opcode(addr: u8) -> u8 {
    0x20u8 | (addr & 0x1f)
}

/// Bytes of a register read: the opcode and `width` filler bytes.
pub open spec fn read_register_bytes(addr: u8, width: nat) -> Seq<u8> {
    seq![read_opcode(addr)] + zeros(width)
}

/// Bytes of a register write: the opcode and the register's bytes.
pub open spec fn write_register_bytes(addr: u8, data: Seq<u8>) -> Seq<u8> {
    seq![write_opcode(addr)] + data
}

impl Command {
    /// Whatever the command carries fits the chip: a register of at most
    /// five bytes, a payload of at most 32.
    pub open spec fn wf(&self) -> bool {
        match self {
            Command::ReadRegister { addr, width } => *width <= 5,
            Command::WriteRegister { addr, data } => data@.len() <= 5,
            Command::ReadRxPayload { width } => *width <= MAX_PAYLOAD,
            Command::WriteTxPayload { data } => data@.len() <= MAX_PAYLOAD,
            _ => true,
        }
    }

    /// The bytes sent for the command, opcode first.
    pub open spec fn spec_bytes(&self) -> Seq<u8> {
        match self {
            Command::ReadRegister { addr, width } => read_register_bytes(*addr, *width as nat),
            Command::WriteRegister { addr, data } => write_register_bytes(*addr, data@),
            Command::ReadRxPayloadWidth => seq![0x60u8, 0u8],
            Command::ReadRxPayload { width } => seq![0x61u8] + zeros(*width as nat),
            Command::WriteTxPayload { data } => seq![0xa0u8] + data@,
            Command::FlushTx => seq![0xe1u8],
            Command::FlushRx => seq![0xe2u8],
            Command::Activate => seq![0x50u8, 0x73u8],
        }
    }

    /// Number of bytes after the opcode: register width, payload length,
    /// the one byte of a width read, or the one key byte of `ACTIVATE`.
    pub open spec fn spec_data_len(&self) -> nat {
        match self {
            Command::ReadRegister { addr, width } => *width as nat,
            Command::WriteRegister { addr, data } => data@.len(),
            Command::ReadRxPayloadWidth => 1,
            Command::ReadRxPayload { width } => *width as nat,
            Command::WriteTxPayload { data } => data@.len(),
            Command::FlushTx => 0,
            Command::FlushRx => 0,
            Command::Activate => 1,
        }
    }

    /// The read of register `R`.
    pub fn read_register<R: Register>() -> (r: Command)
        ensures
            r.wf(),
            r.spec_bytes() == read_register_bytes(R::spec_addr(), R::spec_width()),
            r.spec_data_len() == R::spec_width(),
    {
        Command::ReadRegister { addr: R::addr(), width: R::width() }
    }

    /// The write of `register`.
    pub fn write_register<R: Register>(register: &R) -> (r: Command)
        ensures
            r.wf(),
            r.spec_bytes() == write_register_bytes(R::spec_addr(), register.spec_encode()),
    {
        proof {
            register.lemma_encoded_width();
        }
        Command::WriteRegister { addr: R::addr(), data: register.encode() }
    }

    /// Number of bytes the command occupies on the bus.
    pub fn len(&self) -> (r: usize)
        requires
            self.wf(),
        ensures
            r == self.spec_bytes().len(),
            r == 1 + self.spec_data_len(),
            r <= 1 + MAX_PAYLOAD,
    {
        match self {
            Command::ReadRegister { addr, width } => 1 + *width,
            Command::WriteRegister { addr, data } => 1 + data.len(),
            Command::ReadRxPayloadWidth => 2,
            Command::ReadRxPayload { width } => 1 + *width,
            Command::WriteTxPayload { data } => 1 + data.len(),
            Command::FlushTx => 1,
            Command::FlushRx => 1,
            Command::Activate => 2,
        }
    }

    /// Serialises the command into the bytes sent on the bus.
    pub fn encode(&self) -> (r: Vec<u8>)
        requires
            self.wf(),
        ensures
            r@ == self.spec_bytes(),
            r@.len() == 1 + self.spec_data_len(),
    {
        match self {
            Command::ReadRegister { addr, width } => {
                let r = opcode_then_zeros(*addr & 0x1f, *width);
                r
            },
            Command::WriteRegister { addr, data } => opcode_then(0x20u8 | (*addr & 0x1f), data),
            Command::ReadRxPayloadWidth => {
                let r = vec![0x60u8, 0u8];
                assert(r@ =~= seq![0x60u8, 0u8]);
                r
            },
            Command::ReadRxPayload { width } => opcode_then_zeros(0x61, *width),
            Command::WriteTxPayload { data } => opcode_then(0xa0, data),
            Command::FlushTx => {
                let r = vec![0xe1u8];
                assert(r@ =~= seq![0xe1u8]);
                r
            },
            Command::FlushRx => {
                let r = vec![0xe2u8];
                assert(r@ =~= seq![0xe2u8]);
                r
            },
            Command::Activate => {
                let r = vec![0x50u8, 0x73u8];
                assert(r@ =~= seq![0x50u8, 0x73u8]);
                r
            },
        }
    }
}

fn opcode_then_zeros(opcode: u8, n: usize) -> (r: Vec<u8>)
    requires
        n <= MAX_PAYLOAD,
    ensures
        r@ == seq![opcode] + zeros(n as nat),
{
    let mut r: Vec<u8> = Vec::new();
    r.push(opcode);
    let mut i: usize = 0;
    while i < n
        invariant
            i <= n,
            r@ =~= seq![opcode] + zeros(i as nat),
        decreases n - i,
    {
        r.push(0);
        i += 1;
        assert(r@ =~= seq![opcode] + zeros(i as nat));
    }
    r
}

fn opcode_then(opcode: u8, data: &Vec<u8>) -> (r: Vec<u8>)
    ensures
        r@ == seq![opcode] + data@,
{
    let mut r: Vec<u8> = Vec::new();
    r.push(opcode);
    let mut i: usize = 0;
    while i < data.len()
        invariant
            i <= data@.len(),
            r@ =~= seq![opcode] + data@.subrange(0, i as int),
        decreases data@.len() - i,
    {
        r.push(data[i]);
        i += 1;
        assert(r@ =~= seq![opcode] + data@.subrange(0, i as int));
    }
    assert(data@.subrange(0, data@.len() as int) =~= data@);
    r
}

/// The status byte leads every response, whatever the command.
pub open spec fn response_status(response: Seq<u8>) -> Status {
    Status(response[0])
}

/// Reads the status from the first byte of a response.
pub fn decode_status(response: &[u8]) -> (r: Status)
    requires
        response@.len() >= 1,
    ensures
        r == response_status(response@),
{
    Status(response[0])
}

/// Reads register `R` from the bytes after the status byte.
pub fn decode_register<R: Register>(response: &Vec<u8>) -> (r: R)
    requires
        response@.len() == 1 + R::spec_width(),
    ensures
        r == R::spec_decode(response@.subrange(1, response@.len() as int)),
{
    let mut bytes: Vec<u8> = Vec::new();
    let mut i: usize = 1;
    while i < response.len()
        invariant
            1 <= i <= response@.len(),
            bytes@ =~= response@.subrange(1, i as int),
        decreases response@.len() - i,
    {
        bytes.push(response[i]);
        i += 1;
        assert(bytes@ =~= response@.subrange(1, i as int));
    }
    R::decode(bytes.as_slice())
}

/// A received packet: up to 32 bytes, with its length.
pub struct Payload {
    data: Vec<u8>,
}

impl Payload {
    pub closed spec fn view(&self) -> Seq<u8> {
        self.data@
    }

    /// Takes the bytes after the status byte of a payload read.
    pub fn from_response(response: &Vec<u8>) -> (r: Payload)
        requires
            1 <= response@.len() <= 1 + MAX_PAYLOAD,
        ensures
            r.view() == response@.subrange(1, response@.len() as int),
            r.view().len() <= MAX_PAYLOAD,
    {
        let mut data: Vec<u8> = Vec::new();
        let mut i: usize = 1;
        while i < response.len()
            invariant
                1 <= i <= response@.len(),
                data@ =~= response@.subrange(1, i as int),
            decreases response@.len() - i,
        {
            data.push(response[i]);
            i += 1;
            assert(data@ =~= response@.subrange(1, i as int));
        }
        Payload { data }
    }

    /// Number of bytes received.
    pub fn len(&self) -> (r: usize)
        ensures
            r == self.view().len(),
    {
        self.data.len()
    }

    /// Whether the packet holds no byte.
    pub fn is_empty(&self) -> (r: bool)
        ensures
            r == (self.view().len() == 0),
    {
        self.data.len() == 0
    }

    /// The received bytes.
    pub fn as_slice(&self) -> (r: &[u8])
        ensures
            r@ == self.view(),
    {
        self.data.as_slice()
    }
}

/// Every command takes one opcode byte and then exactly as many bytes as
/// its register or payload is wide.
pub proof fn lemma_command_length(command: Command)
    requires
        command.wf(),
    ensures
        command.spec_bytes().len() == 1 + command.spec_data_len(),
        command.spec_bytes().len() <= 1 + MAX_PAYLOAD,
{
}

} // verus!
