//! The chip's registers: address, encoded width and bit-accurate field
//! accessors. Nothing here touches the bus.

use vstd::prelude::*;

verus! {

/// A register of the chip, stored as the bytes the chip exchanges for it.
pub trait Register: Sized {
    /// Register address, sent in the low five bits of the command byte.
    spec fn spec_addr() -> u8;

    /// Number of data bytes the register occupies on the bus.
    spec fn spec_width() -> nat;

    /// Bytes sent for this value, least significant byte first.
    spec fn spec_encode(&self) -> Seq<u8>;

    /// Value read back from `spec_width()` bytes.
    spec fn spec_decode(bytes: Seq<u8>) -> Self;

    fn addr() -> (r: u8)
        ensures
            r == Self::spec_addr(),
            r < 32,
    ;

    fn width() -> (r: usize)
        ensures
            r == Self::spec_width(),
            1 <= r <= 5,
    ;

    fn encode(&self) -> (r: Vec<u8>)
        ensures
            r@ == self.spec_encode(),
    ;

    fn decode(bytes: &[u8]) -> (r: Self)
        requires
            bytes@.len() == Self::spec_width(),
        ensures
            r == Self::spec_decode(bytes@),
    ;

    proof fn lemma_encoded_width(&self)
        ensures
            self.spec_encode().len() == Self::spec_width(),
            1 <= Self::spec_width() <= 5,
    ;

    /// Decoding what was encoded gives the value back.
    proof fn lemma_decode_encode(&self)
        ensures
            Self::spec_decode(self.spec_encode()) == *self,
    ;

    /// Encoding what was decoded gives the bytes back.
    proof fn lemma_encode_decode(bytes: Seq<u8>)
        requires
            bytes.len() == Self::spec_width(),
        ensures
            Self::spec_decode(bytes).spec_encode() == bytes,
    ;
}

/// Every register survives an encode and decode unchanged, and its bytes
/// survive a decode and encode unchanged.
pub proof fn lemma_register_round_trip<R: Register>(value: R, bytes: Seq<u8>)
    requires
        bytes.len() == R::spec_width(),
    ensures
        R::spec_decode(value.spec_encode()) == value,
        R::spec_decode(bytes).spec_encode() == bytes,
        value.spec_encode().len() == R::spec_width(),
{
    value.lemma_decode_encode();
    value.lemma_encoded_width();
    R::lemma_encode_decode(bytes);
}

/// Bit `i` of `x`.
pub open spec fn get_bit(x: u8, i: u8) -> bool {
    x & (1u8 << i) != 0
}

/// `x` with bit `i` set to `value` and every other bit kept.
pub open spec fn set_bit(x: u8, i: u8, value: bool) -> u8 {
    if value {
        x | (1u8 << i)
    } else {
        x & !(1u8 << i)
    }
}

/// The field of `x` that starts at bit `lo` and is selected by `mask`.
pub open spec fn get_field(x: u8, lo: u8, mask: u8) -> u8 {
    (x >> lo) & mask
}

/// `x` with the field at `lo` replaced by `value`, other bits kept.
pub open spec fn put_field(x: u8, lo: u8, mask: u8, value: u8) -> u8 {
    (x & !(mask << lo)) | ((value & mask) << lo)
}

/// Six per-pipe flags packed into the low six bits, pipe 0 first.
pub open spec fn bits_of(b: Seq<bool>) -> u8 {
    (if b[0] { 0x01u8 } else { 0u8 }) | (if b[1] { 0x02u8 } else { 0u8 }) | (if b[2] {
        0x04u8
    } else {
        0u8
    }) | (if b[3] { 0x08u8 } else { 0u8 }) | (if b[4] { 0x10u8 } else { 0u8 }) | (if b[5] {
        0x20u8
    } else {
        0u8
    })
}

fn pack_bools(b: &[bool; 6]) -> (r: u8)
    ensures
        r == bits_of(b@),
{
    (if b[0] { 0x01u8 } else { 0u8 }) | (if b[1] { 0x02u8 } else { 0u8 }) | (if b[2] {
        0x04u8
    } else {
        0u8
    }) | (if b[3] { 0x08u8 } else { 0u8 }) | (if b[4] { 0x10u8 } else { 0u8 }) | (if b[5] {
        0x20u8
    } else {
        0u8
    })
}

/// Setting a bit changes that bit to the value given and no other bit.
pub proof fn lemma_set_bit(x: u8, i: u8, j: u8, value: bool)
    requires
        i < 8,
        j < 8,
    ensures
        get_bit(set_bit(x, i, value), i) == value,
        i != j ==> get_bit(set_bit(x, i, value), j) == get_bit(x, j),
{
    if value {
        assert((x | (1u8 << i)) & (1u8 << i) != 0) by (bit_vector)
            requires
                i < 8,
        ;
        assert(i != j ==> (((x | (1u8 << i)) & (1u8 << j) != 0) == (x & (1u8 << j) != 0)))
            by (bit_vector)
            requires
                i < 8,
                j < 8,
        ;
    } else {
        assert((x & !(1u8 << i)) & (1u8 << i) == 0) by (bit_vector)
            requires
                i < 8,
        ;
        assert(i != j ==> (((x & !(1u8 << i)) & (1u8 << j) != 0) == (x & (1u8 << j) != 0)))
            by (bit_vector)
            requires
                i < 8,
                j < 8,
        ;
    }
}

/// `RX_ADDR_P1`: the five-byte address of pipe 1, least significant byte
/// first. Pipes 2 to 5 share its upper four bytes.
#[derive(Clone, Copy, PartialEq, Eq, Structural, Debug)]
pub struct RxAddrP1(pub u8, pub u8, pub u8, pub u8, pub u8);

impl Register for RxAddrP1 {
    open spec fn spec_addr() -> u8 {
        0x0b
    }

    open spec fn spec_width() -> nat {
        5
    }

    open spec fn spec_encode(&self) -> Seq<u8> {
        seq![self.0, self.1, self.2, self.3, self.4]
    }

    open spec fn spec_decode(bytes: Seq<u8>) -> Self {
        RxAddrP1(bytes[0], bytes[1], bytes[2], bytes[3], bytes[4])
    }

    fn addr() -> (r: u8) {
        0x0b
    }

    fn width() -> (r: usize) {
        5
    }

    fn encode(&self) -> (r: Vec<u8>) {
        vec![self.0, self.1, self.2, self.3, self.4]
    }

    fn decode(bytes: &[u8]) -> (r: Self) {
        RxAddrP1(bytes[0], bytes[1], bytes[2], bytes[3], bytes[4])
    }

    proof fn lemma_encoded_width(&self) {
    }

    proof fn lemma_decode_encode(&self) {
    }

    proof fn lemma_encode_decode(bytes: Seq<u8>) {
        assert(seq![bytes[0], bytes[1], bytes[2], bytes[3], bytes[4]] =~= bytes);
    }
}

/// `CONFIG`: interrupt masks, CRC, power and direction.
#[derive(Clone, Copy, PartialEq, Eq, Structural, Debug)]
pub struct Config(pub u8);

impl Register for Config {
    open spec fn spec_addr() -> u8 {
        0x00
    }

    open spec fn spec_width() -> nat {
        1
    }

    open spec fn spec_encode(&self) -> Seq<u8> {
        seq![self.0]
    }

    open spec fn spec_decode(bytes: Seq<u8>) -> Self {
        Config(bytes[0])
    }

    fn addr() -> (r: u8) {
        0x00
    }

    fn width() -> (r: usize) {
        1
    }

    fn encode(&self) -> (r: Vec<u8>) {
        vec![self.0]
    }

    fn decode(bytes: &[u8]) -> (r: Self) {
        Config(bytes[0])
    }

    proof fn lemma_encoded_width(&self) {
    }

    proof fn lemma_decode_encode(&self) {
    }

    proof fn lemma_encode_decode(bytes: Seq<u8>) {
        assert(seq![bytes[0]] =~= bytes);
    }
}

impl Config {
    pub fn mask_rx_dr(&self) -> (r: bool)
        ensures
            r == get_bit(self.0, 6),
    {
        self.0 & (1u8 << 6u8) != 0
    }

    pub fn set_mask_rx_dr(&mut self, value: bool)
        ensures
            final(self).0 == set_bit(old(self).0, 6, value),
    {
        self.0 = if value {
            self.0 | (1u8 << 6u8)
        } else {
            self.0 & !(1u8 << 6u8)
        };
    }

    pub fn mask_tx_ds(&self) -> (r: bool)
        ensures
            r == get_bit(self.0, 5),
    {
        self.0 & (1u8 << 5u8) != 0
    }

    pub fn set_mask_tx_ds(&mut self, value: bool)
        ensures
            final(self).0 == set_bit(old(self).0, 5, value),
    {
        self.0 = if value {
            self.0 | (1u8 << 5u8)
        } else {
            self.0 & !(1u8 << 5u8)
        };
    }

    pub fn mask_max_rt(&self) -> (r: bool)
        ensures
            r == get_bit(self.0, 4),
    {
        self.0 & (1u8 << 4u8) != 0
    }

    pub fn set_mask_max_rt(&mut self, value: bool)
        ensures
            final(self).0 == set_bit(old(self).0, 4, value),
    {
        self.0 = if value {
            self.0 | (1u8 << 4u8)
        } else {
            self.0 & !(1u8 << 4u8)
        };
    }

    pub fn en_crc(&self) -> (r: bool)
        ensures
            r == get_bit(self.0, 3),
    {
        self.0 & (1u8 << 3u8) != 0
    }

    pub fn set_en_crc(&mut self, value: bool)
        ensures
            final(self).0 == set_bit(old(self).0, 3, value),
    {
        self.0 = if value {
            self.0 | (1u8 << 3u8)
        } else {
            self.0 & !(1u8 << 3u8)
        };
    }

    pub fn crco(&self) -> (r: bool)
        ensures
            r == get_bit(self.0, 2),
    {
        self.0 & (1u8 << 2u8) != 0
    }

    pub fn set_crco(&mut self, value: bool)
        ensures
            final(self).0 == set_bit(old(self).0, 2, value),
    {
        self.0 = if value {
            self.0 | (1u8 << 2u8)
        } else {
            self.0 & !(1u8 << 2u8)
        };
    }

    pub fn pwr_up(&self) -> (r: bool)
        ensures
            r == get_bit(self.0, 1),
    {
        self.0 & (1u8 << 1u8) != 0
    }

    pub fn set_pwr_up(&mut self, value: bool)
        ensures
            final(self).0 == set_bit(old(self).0, 1, value),
    {
        self.0 = if value {
            self.0 | (1u8 << 1u8)
        } else {
            self.0 & !(1u8 << 1u8)
        };
    }

    pub fn prim_rx(&self) -> (r: bool)
        ensures
            r == get_bit(self.0, 0),
    {
        self.0 & (1u8 << 0u8) != 0
    }

    pub fn set_prim_rx(&mut self, value: bool)
        ensures
            final(self).0 == set_bit(old(self).0, 0, value),
    {
        self.0 = if value {
            self.0 | (1u8 << 0u8)
        } else {
            self.0 & !(1u8 << 0u8)
        };
    }
}

/// `EN_AA`: auto acknowledgement per pipe.
#[derive(Clone, Copy, PartialEq, Eq, Structural, Debug)]
pub struct EnAa(pub u8);

impl Register for EnAa {
    open spec fn spec_addr() -> u8 {
        0x01
    }

    open spec fn spec_width() -> nat {
        1
    }

    open spec fn spec_encode(&self) -> Seq<u8> {
        seq![self.0]
    }

    open spec fn spec_decode(bytes: Seq<u8>) -> Self {
        EnAa(bytes[0])
    }

    fn addr() -> (r: u8) {
        0x01
    }

    fn width() -> (r: usize) {
        1
    }

    fn encode(&self) -> (r: Vec<u8>) {
        vec![self.0]
    }

    fn decode(bytes: &[u8]) -> (r: Self) {
        EnAa(bytes[0])
    }

    proof fn lemma_encoded_width(&self) {
    }

    proof fn lemma_decode_encode(&self) {
    }

    proof fn lemma_encode_decode(bytes: Seq<u8>) {
        assert(seq![bytes[0]] =~= bytes);
    }
}

impl EnAa {
    /// One bit per pipe, pipe 0 in the least significant bit.
    pub fn from_bools(bools: &[bool; 6]) -> (r: Self)
        ensures
            r.0 == bits_of(bools@),
    {
        EnAa(pack_bools(bools))
    }
}

/// `EN_RXADDR`: enabled receive pipes.
#[derive(Clone, Copy, PartialEq, Eq, Structural, Debug)]
pub struct EnRxaddr(pub u8);

impl Register for EnRxaddr {
    open spec fn spec_addr() -> u8 {
        0x02
    }

    open spec fn spec_width() -> nat {
        1
    }

    open spec fn spec_encode(&self) -> Seq<u8> {
        seq![self.0]
    }

    open spec fn spec_decode(bytes: Seq<u8>) -> Self {
        EnRxaddr(bytes[0])
    }

    fn addr() -> (r: u8) {
        0x02
    }

    fn width() -> (r: usize) {
        1
    }

    fn encode(&self) -> (r: Vec<u8>) {
        vec![self.0]
    }

    fn decode(bytes: &[u8]) -> (r: Self) {
        EnRxaddr(bytes[0])
    }

    proof fn lemma_encoded_width(&self) {
    }

    proof fn lemma_decode_encode(&self) {
    }

    proof fn lemma_encode_decode(bytes: Seq<u8>) {
        assert(seq![bytes[0]] =~= bytes);
    }
}

impl EnRxaddr {
    /// One bit per pipe, pipe 0 in the least significant bit.
    pub fn from_bools(bools: &[bool; 6]) -> (r: Self)
        ensures
            r.0 == bits_of(bools@),
    {
        EnRxaddr(pack_bools(bools))
    }
}

/// `SETUP_AW`: address width.
#[derive(Clone, Copy, PartialEq, Eq, Structural, Debug)]
pub struct SetupAw(pub u8);

impl Register for SetupAw {
    open spec fn spec_addr() -> u8 {
        0x03
    }

    open spec fn spec_width() -> nat {
        1
    }

    open spec fn spec_encode(&self) -> Seq<u8> {
        seq![self.0]
    }

    open spec fn spec_decode(bytes: Seq<u8>) -> Self {
        SetupAw(bytes[0])
    }

    fn addr() -> (r: u8) {
        0x03
    }

    fn width() -> (r: usize) {
        1
    }

    fn encode(&self) -> (r: Vec<u8>) {
        vec![self.0]
    }

    fn decode(bytes: &[u8]) -> (r: Self) {
        SetupAw(bytes[0])
    }

    proof fn lemma_encoded_width(&self) {
    }

    proof fn lemma_decode_encode(&self) {
    }

    proof fn lemma_encode_decode(bytes: Seq<u8>) {
        assert(seq![bytes[0]] =~= bytes);
    }
}

impl SetupAw {
    /// The whole register. Only bits 1:0 hold the field; the chip reads
    /// the others as zero, so a value above 3 means no chip answered.
    pub fn aw(&self) -> (r: u8)
        ensures
            r == self.0,
    {
        self.0
    }

    /// Address width code: 1, 2 or 3 for three to five bytes.
    pub fn set_aw(&mut self, value: u8)
        requires
            value <= 3,
        ensures
            final(self).0 == put_field(old(self).0, 0, 0x03, value),
    {
        self.0 = (self.0 & !(0x03u8 << 0u8)) | ((value & 0x03u8) << 0u8);
    }
}

/// `SETUP_RETR`: automatic retransmission.
#[derive(Clone, Copy, PartialEq, Eq, Structural, Debug)]
pub struct SetupRetr(pub u8);

impl Register for SetupRetr {
    open spec fn spec_addr() -> u8 {
        0x04
    }

    open spec fn spec_width() -> nat {
        1
    }

    open spec fn spec_encode(&self) -> Seq<u8> {
        seq![self.0]
    }

    open spec fn spec_decode(bytes: Seq<u8>) -> Self {
        SetupRetr(bytes[0])
    }

    fn addr() -> (r: u8) {
        0x04
    }

    fn width() -> (r: usize) {
        1
    }

    fn encode(&self) -> (r: Vec<u8>) {
        vec![self.0]
    }

    fn decode(bytes: &[u8]) -> (r: Self) {
        SetupRetr(bytes[0])
    }

    proof fn lemma_encoded_width(&self) {
    }

    proof fn lemma_decode_encode(&self) {
    }

    proof fn lemma_encode_decode(bytes: Seq<u8>) {
        assert(seq![bytes[0]] =~= bytes);
    }
}

impl SetupRetr {
    pub fn ard(&self) -> (r: u8)
        ensures
            r == get_field(self.0, 4, 0x0f),
    {
        (self.0 >> 4u8) & 0x0fu8
    }

    pub fn set_ard(&mut self, value: u8)
        requires
            value <= 0x0f,
        ensures
            final(self).0 == put_field(old(self).0, 4, 0x0f, value),
    {
        self.0 = (self.0 & !(0x0fu8 << 4u8)) | ((value & 0x0fu8) << 4u8);
    }

    pub fn arc(&self) -> (r: u8)
        ensures
            r == get_field(self.0, 0, 0x0f),
    {
        (self.0 >> 0u8) & 0x0fu8
    }

    pub fn set_arc(&mut self, value: u8)
        requires
            value <= 0x0f,
        ensures
            final(self).0 == put_field(old(self).0, 0, 0x0f, value),
    {
        self.0 = (self.0 & !(0x0fu8 << 0u8)) | ((value & 0x0fu8) << 0u8);
    }
}

/// `RF_CH`: radio channel.
#[derive(Clone, Copy, PartialEq, Eq, Structural, Debug)]
pub struct RfCh(pub u8);

impl Register for RfCh {
    open spec fn spec_addr() -> u8 {
        0x05
    }

    open spec fn spec_width() -> nat {
        1
    }

    open spec fn spec_encode(&self) -> Seq<u8> {
        seq![self.0]
    }

    open spec fn spec_decode(bytes: Seq<u8>) -> Self {
        RfCh(bytes[0])
    }

    fn addr() -> (r: u8) {
        0x05
    }

    fn width() -> (r: usize) {
        1
    }

    fn encode(&self) -> (r: Vec<u8>) {
        vec![self.0]
    }

    fn decode(bytes: &[u8]) -> (r: Self) {
        RfCh(bytes[0])
    }

    proof fn lemma_encoded_width(&self) {
    }

    proof fn lemma_decode_encode(&self) {
    }

    proof fn lemma_encode_decode(bytes: Seq<u8>) {
        assert(seq![bytes[0]] =~= bytes);
    }
}

impl RfCh {
    pub fn rf_ch(&self) -> (r: u8)
        ensures
            r == get_field(self.0, 0, 0x7f),
    {
        (self.0 >> 0u8) & 0x7fu8
    }

    pub fn set_rf_ch(&mut self, value: u8)
        requires
            value <= 0x7f,
        ensures
            final(self).0 == put_field(old(self).0, 0, 0x7f, value),
    {
        self.0 = (self.0 & !(0x7fu8 << 0u8)) | ((value & 0x7fu8) << 0u8);
    }
}

/// `RF_SETUP`: data rate and output power.
#[derive(Clone, Copy, PartialEq, Eq, Structural, Debug)]
pub struct RfSetup(pub u8);

impl Register for RfSetup {
    open spec fn spec_addr() -> u8 {
        0x06
    }

    open spec fn spec_width() -> nat {
        1
    }

    open spec fn spec_encode(&self) -> Seq<u8> {
        seq![self.0]
    }

    open spec fn spec_decode(bytes: Seq<u8>) -> Self {
        RfSetup(bytes[0])
    }

    fn addr() -> (r: u8) {
        0x06
    }

    fn width() -> (r: usize) {
        1
    }

    fn encode(&self) -> (r: Vec<u8>) {
        vec![self.0]
    }

    fn decode(bytes: &[u8]) -> (r: Self) {
        RfSetup(bytes[0])
    }

    proof fn lemma_encoded_width(&self) {
    }

    proof fn lemma_decode_encode(&self) {
    }

    proof fn lemma_encode_decode(bytes: Seq<u8>) {
        assert(seq![bytes[0]] =~= bytes);
    }
}

impl RfSetup {
    pub fn rf_dr_low(&self) -> (r: bool)
        ensures
            r == get_bit(self.0, 5),
    {
        self.0 & (1u8 << 5u8) != 0
    }

    pub fn set_rf_dr_low(&mut self, value: bool)
        ensures
            final(self).0 == set_bit(old(self).0, 5, value),
    {
        self.0 = if value {
            self.0 | (1u8 << 5u8)
        } else {
            self.0 & !(1u8 << 5u8)
        };
    }

    pub fn rf_dr_high(&self) -> (r: bool)
        ensures
            r == get_bit(self.0, 3),
    {
        self.0 & (1u8 << 3u8) != 0
    }

    pub fn set_rf_dr_high(&mut self, value: bool)
        ensures
            final(self).0 == set_bit(old(self).0, 3, value),
    {
        self.0 = if value {
            self.0 | (1u8 << 3u8)
        } else {
            self.0 & !(1u8 << 3u8)
        };
    }

    pub fn rf_pwr(&self) -> (r: u8)
        ensures
            r == get_field(self.0, 1, 0x03),
    {
        (self.0 >> 1u8) & 0x03u8
    }

    pub fn set_rf_pwr(&mut self, value: u8)
        requires
            value <= 0x03,
        ensures
            final(self).0 == put_field(old(self).0, 1, 0x03, value),
    {
        self.0 = (self.0 & !(0x03u8 << 1u8)) | ((value & 0x03u8) << 1u8);
    }
}

/// `STATUS`: shifted out first in every transaction.
#[derive(Clone, Copy, PartialEq, Eq, Structural, Debug)]
pub struct Status(pub u8);

impl Register for Status {
    open spec fn spec_addr() -> u8 {
        0x07
    }

    open spec fn spec_width() -> nat {
        1
    }

    open spec fn spec_encode(&self) -> Seq<u8> {
        seq![self.0]
    }

    open spec fn spec_decode(bytes: Seq<u8>) -> Self {
        Status(bytes[0])
    }

    fn addr() -> (r: u8) {
        0x07
    }

    fn width() -> (r: usize) {
        1
    }

    fn encode(&self) -> (r: Vec<u8>) {
        vec![self.0]
    }

    fn decode(bytes: &[u8]) -> (r: Self) {
        Status(bytes[0])
    }

    proof fn lemma_encoded_width(&self) {
    }

    proof fn lemma_decode_encode(&self) {
    }

    proof fn lemma_encode_decode(bytes: Seq<u8>) {
        assert(seq![bytes[0]] =~= bytes);
    }
}

impl Status {
    pub fn rx_dr(&self) -> (r: bool)
        ensures
            r == get_bit(self.0, 6),
    {
        self.0 & (1u8 << 6u8) != 0
    }

    pub fn set_rx_dr(&mut self, value: bool)
        ensures
            final(self).0 == set_bit(old(self).0, 6, value),
    {
        self.0 = if value {
            self.0 | (1u8 << 6u8)
        } else {
            self.0 & !(1u8 << 6u8)
        };
    }

    pub fn tx_ds(&self) -> (r: bool)
        ensures
            r == get_bit(self.0, 5),
    {
        self.0 & (1u8 << 5u8) != 0
    }

    pub fn set_tx_ds(&mut self, value: bool)
        ensures
            final(self).0 == set_bit(old(self).0, 5, value),
    {
        self.0 = if value {
            self.0 | (1u8 << 5u8)
        } else {
            self.0 & !(1u8 << 5u8)
        };
    }

    pub fn max_rt(&self) -> (r: bool)
        ensures
            r == get_bit(self.0, 4),
    {
        self.0 & (1u8 << 4u8) != 0
    }

    pub fn set_max_rt(&mut self, value: bool)
        ensures
            final(self).0 == set_bit(old(self).0, 4, value),
    {
        self.0 = if value {
            self.0 | (1u8 << 4u8)
        } else {
            self.0 & !(1u8 << 4u8)
        };
    }

    pub fn rx_p_no(&self) -> (r: u8)
        ensures
            r == get_field(self.0, 1, 0x07),
    {
        (self.0 >> 1u8) & 0x07u8
    }

    pub fn set_rx_p_no(&mut self, value: u8)
        requires
            value <= 0x07,
        ensures
            final(self).0 == put_field(old(self).0, 1, 0x07, value),
    {
        self.0 = (self.0 & !(0x07u8 << 1u8)) | ((value & 0x07u8) << 1u8);
    }

    pub fn tx_full(&self) -> (r: bool)
        ensures
            r == get_bit(self.0, 0),
    {
        self.0 & (1u8 << 0u8) != 0
    }

    pub fn set_tx_full(&mut self, value: bool)
        ensures
            final(self).0 == set_bit(old(self).0, 0, value),
    {
        self.0 = if value {
            self.0 | (1u8 << 0u8)
        } else {
            self.0 & !(1u8 << 0u8)
        };
    }
}

/// `CD`: carrier detect.
#[derive(Clone, Copy, PartialEq, Eq, Structural, Debug)]
pub struct CD(pub u8);

impl Register for CD {
    open spec fn spec_addr() -> u8 {
        0x09
    }

    open spec fn spec_width() -> nat {
        1
    }

    open spec fn spec_encode(&self) -> Seq<u8> {
        seq![self.0]
    }

    open spec fn spec_decode(bytes: Seq<u8>) -> Self {
        CD(bytes[0])
    }

    fn addr() -> (r: u8) {
        0x09
    }

    fn width() -> (r: usize) {
        1
    }

    fn encode(&self) -> (r: Vec<u8>) {
        vec![self.0]
    }

    fn decode(bytes: &[u8]) -> (r: Self) {
        CD(bytes[0])
    }

    proof fn lemma_encoded_width(&self) {
    }

    proof fn lemma_decode_encode(&self) {
    }

    proof fn lemma_encode_decode(bytes: Seq<u8>) {
        assert(seq![bytes[0]] =~= bytes);
    }
}

/// `RX_ADDR_P2`: least significant address byte of pipe 2.
#[derive(Clone, Copy, PartialEq, Eq, Structural, Debug)]
pub struct RxAddrP2(pub u8);

impl Register for RxAddrP2 {
    open spec fn spec_addr() -> u8 {
        0x0c
    }

    open spec fn spec_width() -> nat {
        1
    }

    open spec fn spec_encode(&self) -> Seq<u8> {
        seq![self.0]
    }

    open spec fn spec_decode(bytes: Seq<u8>) -> Self {
        RxAddrP2(bytes[0])
    }

    fn addr() -> (r: u8) {
        0x0c
    }

    fn width() -> (r: usize) {
        1
    }

    fn encode(&self) -> (r: Vec<u8>) {
        vec![self.0]
    }

    fn decode(bytes: &[u8]) -> (r: Self) {
        RxAddrP2(bytes[0])
    }

    proof fn lemma_encoded_width(&self) {
    }

    proof fn lemma_decode_encode(&self) {
    }

    proof fn lemma_encode_decode(bytes: Seq<u8>) {
        assert(seq![bytes[0]] =~= bytes);
    }
}

/// `RX_ADDR_P3`: least significant address byte of pipe 3.
#[derive(Clone, Copy, PartialEq, Eq, Structural, Debug)]
pub struct RxAddrP3(pub u8);

impl Register for RxAddrP3 {
    open spec fn spec_addr() -> u8 {
        0x0d
    }

    open spec fn spec_width() -> nat {
        1
    }

    open spec fn spec_encode(&self) -> Seq<u8> {
        seq![self.0]
    }

    open spec fn spec_decode(bytes: Seq<u8>) -> Self {
        RxAddrP3(bytes[0])
    }

    fn addr() -> (r: u8) {
        0x0d
    }

    fn width() -> (r: usize) {
        1
    }

    fn encode(&self) -> (r: Vec<u8>) {
        vec![self.0]
    }

    fn decode(bytes: &[u8]) -> (r: Self) {
        RxAddrP3(bytes[0])
    }

    proof fn lemma_encoded_width(&self) {
    }

    proof fn lemma_decode_encode(&self) {
    }

    proof fn lemma_encode_decode(bytes: Seq<u8>) {
        assert(seq![bytes[0]] =~= bytes);
    }
}

/// `RX_ADDR_P4`: least significant address byte of pipe 4.
#[derive(Clone, Copy, PartialEq, Eq, Structural, Debug)]
pub struct RxAddrP4(pub u8);

impl Register for RxAddrP4 {
    open spec fn spec_addr() -> u8 {
        0x0e
    }

    open spec fn spec_width() -> nat {
        1
    }

    open spec fn spec_encode(&self) -> Seq<u8> {
        seq![self.0]
    }

    open spec fn spec_decode(bytes: Seq<u8>) -> Self {
        RxAddrP4(bytes[0])
    }

    fn addr() -> (r: u8) {
        0x0e
    }

    fn width() -> (r: usize) {
        1
    }

    fn encode(&self) -> (r: Vec<u8>) {
        vec![self.0]
    }

    fn decode(bytes: &[u8]) -> (r: Self) {
        RxAddrP4(bytes[0])
    }

    proof fn lemma_encoded_width(&self) {
    }

    proof fn lemma_decode_encode(&self) {
    }

    proof fn lemma_encode_decode(bytes: Seq<u8>) {
        assert(seq![bytes[0]] =~= bytes);
    }
}

/// `RX_ADDR_P5`: least significant address byte of pipe 5.
#[derive(Clone, Copy, PartialEq, Eq, Structural, Debug)]
pub struct RxAddrP5(pub u8);

impl Register for RxAddrP5 {
    open spec fn spec_addr() -> u8 {
        0x0f
    }

    open spec fn spec_width() -> nat {
        1
    }

    open spec fn spec_encode(&self) -> Seq<u8> {
        seq![self.0]
    }

    open spec fn spec_decode(bytes: Seq<u8>) -> Self {
        RxAddrP5(bytes[0])
    }

    fn addr() -> (r: u8) {
        0x0f
    }

    fn width() -> (r: usize) {
        1
    }

    fn encode(&self) -> (r: Vec<u8>) {
        vec![self.0]
    }

    fn decode(bytes: &[u8]) -> (r: Self) {
        RxAddrP5(bytes[0])
    }

    proof fn lemma_encoded_width(&self) {
    }

    proof fn lemma_decode_encode(&self) {
    }

    proof fn lemma_encode_decode(bytes: Seq<u8>) {
        assert(seq![bytes[0]] =~= bytes);
    }
}

/// `RX_PW_P0`: static payload width of pipe 0.
#[derive(Clone, Copy, PartialEq, Eq, Structural, Debug)]
pub struct RxPwP0(pub u8);

impl Register for RxPwP0 {
    open spec fn spec_addr() -> u8 {
        0x11
    }

    open spec fn spec_width() -> nat {
        1
    }

    open spec fn spec_encode(&self) -> Seq<u8> {
        seq![self.0]
    }

    open spec fn spec_decode(bytes: Seq<u8>) -> Self {
        RxPwP0(bytes[0])
    }

    fn addr() -> (r: u8) {
        0x11
    }

    fn width() -> (r: usize) {
        1
    }

    fn encode(&self) -> (r: Vec<u8>) {
        vec![self.0]
    }

    fn decode(bytes: &[u8]) -> (r: Self) {
        RxPwP0(bytes[0])
    }

    proof fn lemma_encoded_width(&self) {
    }

    proof fn lemma_decode_encode(&self) {
    }

    proof fn lemma_encode_decode(bytes: Seq<u8>) {
        assert(seq![bytes[0]] =~= bytes);
    }
}

impl RxPwP0 {
    pub fn rx_pw(&self) -> (r: u8)
        ensures
            r == get_field(self.0, 0, 0x3f),
    {
        (self.0 >> 0u8) & 0x3fu8
    }

    pub fn set_rx_pw(&mut self, value: u8)
        requires
            value <= 0x3f,
        ensures
            final(self).0 == put_field(old(self).0, 0, 0x3f, value),
    {
        self.0 = (self.0 & !(0x3fu8 << 0u8)) | ((value & 0x3fu8) << 0u8);
    }
}

/// `RX_PW_P1`: static payload width of pipe 1.
#[derive(Clone, Copy, PartialEq, Eq, Structural, Debug)]
pub struct RxPwP1(pub u8);

impl Register for RxPwP1 {
    open spec fn spec_addr() -> u8 {
        0x12
    }

    open spec fn spec_width() -> nat {
        1
    }

    open spec fn spec_encode(&self) -> Seq<u8> {
        seq![self.0]
    }

    open spec fn spec_decode(bytes: Seq<u8>) -> Self {
        RxPwP1(bytes[0])
    }

    fn addr() -> (r: u8) {
        0x12
    }

    fn width() -> (r: usize) {
        1
    }

    fn encode(&self) -> (r: Vec<u8>) {
        vec![self.0]
    }

    fn decode(bytes: &[u8]) -> (r: Self) {
        RxPwP1(bytes[0])
    }

    proof fn lemma_encoded_width(&self) {
    }

    proof fn lemma_decode_encode(&self) {
    }

    proof fn lemma_encode_decode(bytes: Seq<u8>) {
        assert(seq![bytes[0]] =~= bytes);
    }
}

impl RxPwP1 {
    pub fn rx_pw(&self) -> (r: u8)
        ensures
            r == get_field(self.0, 0, 0x3f),
    {
        (self.0 >> 0u8) & 0x3fu8
    }

    pub fn set_rx_pw(&mut self, value: u8)
        requires
            value <= 0x3f,
        ensures
            final(self).0 == put_field(old(self).0, 0, 0x3f, value),
    {
        self.0 = (self.0 & !(0x3fu8 << 0u8)) | ((value & 0x3fu8) << 0u8);
    }
}

/// `RX_PW_P2`: static payload width of pipe 2.
#[derive(Clone, Copy, PartialEq, Eq, Structural, Debug)]
pub struct RxPwP2(pub u8);

impl Register for RxPwP2 {
    open spec fn spec_addr() -> u8 {
        0x13
    }

    open spec fn spec_width() -> nat {
        1
    }

    open spec fn spec_encode(&self) -> Seq<u8> {
        seq![self.0]
    }

    open spec fn spec_decode(bytes: Seq<u8>) -> Self {
        RxPwP2(bytes[0])
    }

    fn addr() -> (r: u8) {
        0x13
    }

    fn width() -> (r: usize) {
        1
    }

    fn encode(&self) -> (r: Vec<u8>) {
        vec![self.0]
    }

    fn decode(bytes: &[u8]) -> (r: Self) {
        RxPwP2(bytes[0])
    }

    proof fn lemma_encoded_width(&self) {
    }

    proof fn lemma_decode_encode(&self) {
    }

    proof fn lemma_encode_decode(bytes: Seq<u8>) {
        assert(seq![bytes[0]] =~= bytes);
    }
}

impl RxPwP2 {
    pub fn rx_pw(&self) -> (r: u8)
        ensures
            r == get_field(self.0, 0, 0x3f),
    {
        (self.0 >> 0u8) & 0x3fu8
    }

    pub fn set_rx_pw(&mut self, value: u8)
        requires
            value <= 0x3f,
        ensures
            final(self).0 == put_field(old(self).0, 0, 0x3f, value),
    {
        self.0 = (self.0 & !(0x3fu8 << 0u8)) | ((value & 0x3fu8) << 0u8);
    }
}

/// `RX_PW_P3`: static payload width of pipe 3.
#[derive(Clone, Copy, PartialEq, Eq, Structural, Debug)]
pub struct RxPwP3(pub u8);

impl Register for RxPwP3 {
    open spec fn spec_addr() -> u8 {
        0x14
    }

    open spec fn spec_width() -> nat {
        1
    }

    open spec fn spec_encode(&self) -> Seq<u8> {
        seq![self.0]
    }

    open spec fn spec_decode(bytes: Seq<u8>) -> Self {
        RxPwP3(bytes[0])
    }

    fn addr() -> (r: u8) {
        0x14
    }

    fn width() -> (r: usize) {
        1
    }

    fn encode(&self) -> (r: Vec<u8>) {
        vec![self.0]
    }

    fn decode(bytes: &[u8]) -> (r: Self) {
        RxPwP3(bytes[0])
    }

    proof fn lemma_encoded_width(&self) {
    }

    proof fn lemma_decode_encode(&self) {
    }

    proof fn lemma_encode_decode(bytes: Seq<u8>) {
        assert(seq![bytes[0]] =~= bytes);
    }
}

impl RxPwP3 {
    pub fn rx_pw(&self) -> (r: u8)
        ensures
            r == get_field(self.0, 0, 0x3f),
    {
        (self.0 >> 0u8) & 0x3fu8
    }

    pub fn set_rx_pw(&mut self, value: u8)
        requires
            value <= 0x3f,
        ensures
            final(self).0 == put_field(old(self).0, 0, 0x3f, value),
    {
        self.0 = (self.0 & !(0x3fu8 << 0u8)) | ((value & 0x3fu8) << 0u8);
    }
}

/// `RX_PW_P4`: static payload width of pipe 4.
#[derive(Clone, Copy, PartialEq, Eq, Structural, Debug)]
pub struct RxPwP4(pub u8);

impl Register for RxPwP4 {
    open spec fn spec_addr() -> u8 {
        0x15
    }

    open spec fn spec_width() -> nat {
        1
    }

    open spec fn spec_encode(&self) -> Seq<u8> {
        seq![self.0]
    }

    open spec fn spec_decode(bytes: Seq<u8>) -> Self {
        RxPwP4(bytes[0])
    }

    fn addr() -> (r: u8) {
        0x15
    }

    fn width() -> (r: usize) {
        1
    }

    fn encode(&self) -> (r: Vec<u8>) {
        vec![self.0]
    }

    fn decode(bytes: &[u8]) -> (r: Self) {
        RxPwP4(bytes[0])
    }

    proof fn lemma_encoded_width(&self) {
    }

    proof fn lemma_decode_encode(&self) {
    }

    proof fn lemma_encode_decode(bytes: Seq<u8>) {
        assert(seq![bytes[0]] =~= bytes);
    }
}

impl RxPwP4 {
    pub fn rx_pw(&self) -> (r: u8)
        ensures
            r == get_field(self.0, 0, 0x3f),
    {
        (self.0 >> 0u8) & 0x3fu8
    }

    pub fn set_rx_pw(&mut self, value: u8)
        requires
            value <= 0x3f,
        ensures
            final(self).0 == put_field(old(self).0, 0, 0x3f, value),
    {
        self.0 = (self.0 & !(0x3fu8 << 0u8)) | ((value & 0x3fu8) << 0u8);
    }
}

/// `RX_PW_P5`: static payload width of pipe 5.
#[derive(Clone, Copy, PartialEq, Eq, Structural, Debug)]
pub struct RxPwP5(pub u8);

impl Register for RxPwP5 {
    open spec fn spec_addr() -> u8 {
        0x16
    }

    open spec fn spec_width() -> nat {
        1
    }

    open spec fn spec_encode(&self) -> Seq<u8> {
        seq![self.0]
    }

    open spec fn spec_decode(bytes: Seq<u8>) -> Self {
        RxPwP5(bytes[0])
    }

    fn addr() -> (r: u8) {
        0x16
    }

    fn width() -> (r: usize) {
        1
    }

    fn encode(&self) -> (r: Vec<u8>) {
        vec![self.0]
    }

    fn decode(bytes: &[u8]) -> (r: Self) {
        RxPwP5(bytes[0])
    }

    proof fn lemma_encoded_width(&self) {
    }

    proof fn lemma_decode_encode(&self) {
    }

    proof fn lemma_encode_decode(bytes: Seq<u8>) {
        assert(seq![bytes[0]] =~= bytes);
    }
}

impl RxPwP5 {
    pub fn rx_pw(&self) -> (r: u8)
        ensures
            r == get_field(self.0, 0, 0x3f),
    {
        (self.0 >> 0u8) & 0x3fu8
    }

    pub fn set_rx_pw(&mut self, value: u8)
        requires
            value <= 0x3f,
        ensures
            final(self).0 == put_field(old(self).0, 0, 0x3f, value),
    {
        self.0 = (self.0 & !(0x3fu8 << 0u8)) | ((value & 0x3fu8) << 0u8);
    }
}

/// `FIFO_STATUS`: queue fill state.
#[derive(Clone, Copy, PartialEq, Eq, Structural, Debug)]
pub struct FifoStatus(pub u8);

impl Register for FifoStatus {
    open spec fn spec_addr() -> u8 {
        0x17
    }

    open spec fn spec_width() -> nat {
        1
    }

    open spec fn spec_encode(&self) -> Seq<u8> {
        seq![self.0]
    }

    open spec fn spec_decode(bytes: Seq<u8>) -> Self {
        FifoStatus(bytes[0])
    }

    fn addr() -> (r: u8) {
        0x17
    }

    fn width() -> (r: usize) {
        1
    }

    fn encode(&self) -> (r: Vec<u8>) {
        vec![self.0]
    }

    fn decode(bytes: &[u8]) -> (r: Self) {
        FifoStatus(bytes[0])
    }

    proof fn lemma_encoded_width(&self) {
    }

    proof fn lemma_decode_encode(&self) {
    }

    proof fn lemma_encode_decode(bytes: Seq<u8>) {
        assert(seq![bytes[0]] =~= bytes);
    }
}

impl FifoStatus {
    pub fn tx_reuse(&self) -> (r: bool)
        ensures
            r == get_bit(self.0, 6),
    {
        self.0 & (1u8 << 6u8) != 0
    }

    pub fn set_tx_reuse(&mut self, value: bool)
        ensures
            final(self).0 == set_bit(old(self).0, 6, value),
    {
        self.0 = if value {
            self.0 | (1u8 << 6u8)
        } else {
            self.0 & !(1u8 << 6u8)
        };
    }

    pub fn tx_full(&self) -> (r: bool)
        ensures
            r == get_bit(self.0, 5),
    {
        self.0 & (1u8 << 5u8) != 0
    }

    pub fn set_tx_full(&mut self, value: bool)
        ensures
            final(self).0 == set_bit(old(self).0, 5, value),
    {
        self.0 = if value {
            self.0 | (1u8 << 5u8)
        } else {
            self.0 & !(1u8 << 5u8)
        };
    }

    pub fn tx_empty(&self) -> (r: bool)
        ensures
            r == get_bit(self.0, 4),
    {
        self.0 & (1u8 << 4u8) != 0
    }

    pub fn set_tx_empty(&mut self, value: bool)
        ensures
            final(self).0 == set_bit(old(self).0, 4, value),
    {
        self.0 = if value {
            self.0 | (1u8 << 4u8)
        } else {
            self.0 & !(1u8 << 4u8)
        };
    }

    pub fn rx_full(&self) -> (r: bool)
        ensures
            r == get_bit(self.0, 1),
    {
        self.0 & (1u8 << 1u8) != 0
    }

    pub fn set_rx_full(&mut self, value: bool)
        ensures
            final(self).0 == set_bit(old(self).0, 1, value),
    {
        self.0 = if value {
            self.0 | (1u8 << 1u8)
        } else {
            self.0 & !(1u8 << 1u8)
        };
    }

    pub fn rx_empty(&self) -> (r: bool)
        ensures
            r == get_bit(self.0, 0),
    {
        self.0 & (1u8 << 0u8) != 0
    }

    pub fn set_rx_empty(&mut self, value: bool)
        ensures
            final(self).0 == set_bit(old(self).0, 0, value),
    {
        self.0 = if value {
            self.0 | (1u8 << 0u8)
        } else {
            self.0 & !(1u8 << 0u8)
        };
    }
}

/// `DYNPD`: dynamic payload length per pipe.
#[derive(Clone, Copy, PartialEq, Eq, Structural, Debug)]
pub struct Dynpd(pub u8);

impl Register for Dynpd {
    open spec fn spec_addr() -> u8 {
        0x1c
    }

    open spec fn spec_width() -> nat {
        1
    }

    open spec fn spec_encode(&self) -> Seq<u8> {
        seq![self.0]
    }

    open spec fn spec_decode(bytes: Seq<u8>) -> Self {
        Dynpd(bytes[0])
    }

    fn addr() -> (r: u8) {
        0x1c
    }

    fn width() -> (r: usize) {
        1
    }

    fn encode(&self) -> (r: Vec<u8>) {
        vec![self.0]
    }

    fn decode(bytes: &[u8]) -> (r: Self) {
        Dynpd(bytes[0])
    }

    proof fn lemma_encoded_width(&self) {
    }

    proof fn lemma_decode_encode(&self) {
    }

    proof fn lemma_encode_decode(bytes: Seq<u8>) {
        assert(seq![bytes[0]] =~= bytes);
    }
}

impl Dynpd {
    /// One bit per pipe, pipe 0 in the least significant bit.
    pub fn from_bools(bools: &[bool; 6]) -> (r: Self)
        ensures
            r.0 == bits_of(bools@),
    {
        Dynpd(pack_bools(bools))
    }
}

/// `FEATURE`: optional protocol features.
#[derive(Clone, Copy, PartialEq, Eq, Structural, Debug)]
pub struct Feature(pub u8);

impl Register for Feature {
    open spec fn spec_addr() -> u8 {
        0x1d
    }

    open spec fn spec_width() -> nat {
        1
    }

    open spec fn spec_encode(&self) -> Seq<u8> {
        seq![self.0]
    }

    open spec fn spec_decode(bytes: Seq<u8>) -> Self {
        Feature(bytes[0])
    }

    fn addr() -> (r: u8) {
        0x1d
    }

    fn width() -> (r: usize) {
        1
    }

    fn encode(&self) -> (r: Vec<u8>) {
        vec![self.0]
    }

    fn decode(bytes: &[u8]) -> (r: Self) {
        Feature(bytes[0])
    }

    proof fn lemma_encoded_width(&self) {
    }

    proof fn lemma_decode_encode(&self) {
    }

    proof fn lemma_encode_decode(bytes: Seq<u8>) {
        assert(seq![bytes[0]] =~= bytes);
    }
}

impl Feature {
    pub fn en_dpl(&self) -> (r: bool)
        ensures
            r == get_bit(self.0, 2),
    {
        self.0 & (1u8 << 2u8) != 0
    }

    pub fn set_en_dpl(&mut self, value: bool)
        ensures
            final(self).0 == set_bit(old(self).0, 2, value),
    {
        self.0 = if value {
            self.0 | (1u8 << 2u8)
        } else {
            self.0 & !(1u8 << 2u8)
        };
    }

    pub fn en_ack_pay(&self) -> (r: bool)
        ensures
            r == get_bit(self.0, 1),
    {
        self.0 & (1u8 << 1u8) != 0
    }

    pub fn set_en_ack_pay(&mut self, value: bool)
        ensures
            final(self).0 == set_bit(old(self).0, 1, value),
    {
        self.0 = if value {
            self.0 | (1u8 << 1u8)
        } else {
            self.0 & !(1u8 << 1u8)
        };
    }

    pub fn en_dyn_ack(&self) -> (r: bool)
        ensures
            r == get_bit(self.0, 0),
    {
        self.0 & (1u8 << 0u8) != 0
    }

    pub fn set_en_dyn_ack(&mut self, value: bool)
        ensures
            final(self).0 == set_bit(old(self).0, 0, value),
    {
        self.0 = if value {
            self.0 | (1u8 << 0u8)
        } else {
            self.0 & !(1u8 << 0u8)
        };
    }
}

} // verus!
