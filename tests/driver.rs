use std::cell::RefCell;
use std::rc::Rc;

use nrf24l01::command::Command;
use nrf24l01::config::{CrcMode, DataRate};
use nrf24l01::device::{connection_outcome, Device, DeviceImpl, OutputLine, SpiTransfer};
use nrf24l01::registers::{Config as ConfigRegister, FifoStatus, RxAddrP1, SetupRetr, Status};
use nrf24l01::registers::Register;
use nrf24l01::rx::RxMode;
use nrf24l01::{Config, DriverError, Nrf24l01};

#[derive(Debug, Clone, PartialEq)]
enum Event {
    Ce(bool),
    Csn(bool),
    Exchange(Vec<u8>),
}

struct Chip {
    regs: [u8; 32],
    status: u8,
    rx_width: u8,
    rx_payload: Vec<u8>,
    fail: bool,
    events: Vec<Event>,
}

type Shared = Rc<RefCell<Chip>>;

fn chip() -> Shared {
    let mut regs = [0u8; 32];
    regs[0x03] = 0x03;
    regs[0x17] = 0x11;
    Rc::new(RefCell::new(Chip {
        regs,
        status: 0x0e,
        rx_width: 0,
        rx_payload: Vec::new(),
        fail: false,
        events: Vec::new(),
    }))
}

struct Line {
    chip: Shared,
    is_ce: bool,
}

impl OutputLine for Line {
    fn set_high(&mut self) {
        let e = if self.is_ce { Event::Ce(true) } else { Event::Csn(true) };
        self.chip.borrow_mut().events.push(e);
    }

    fn set_low(&mut self) {
        let e = if self.is_ce { Event::Ce(false) } else { Event::Csn(false) };
        self.chip.borrow_mut().events.push(e);
    }
}

struct Bus {
    chip: Shared,
}

impl SpiTransfer for Bus {
    type Fault = &'static str;

    fn transfer(&mut self, buf: &mut [u8]) -> Result<(), &'static str> {
        let mut c = self.chip.borrow_mut();
        c.events.push(Event::Exchange(buf.to_vec()));
        if c.fail {
            return Err("bus fault");
        }
        let op = buf[0];
        let status = c.status;
        if op < 0x20 {
            let addr = (op & 0x1f) as usize;
            for i in 1..buf.len() {
                buf[i] = c.regs[addr];
            }
        } else if op < 0x40 {
            let addr = (op & 0x1f) as usize;
            c.regs[addr] = buf[1];
        } else if op == 0x60 {
            buf[1] = c.rx_width;
        } else if op == 0x61 {
            for i in 1..buf.len() {
                buf[i] = c.rx_payload.get(i - 1).copied().unwrap_or(0);
            }
        }
        buf[0] = status;
        Ok(())
    }
}

fn parts(c: &Shared) -> (Line, Line, Bus) {
    (
        Line { chip: c.clone(), is_ce: true },
        Line { chip: c.clone(), is_ce: false },
        Bus { chip: c.clone() },
    )
}

fn exchanges(c: &Shared) -> Vec<Vec<u8>> {
    c.borrow()
        .events
        .iter()
        .filter_map(|e| match e {
            Event::Exchange(b) => Some(b.clone()),
            _ => None,
        })
        .collect()
}

fn driver(c: &Shared) -> Nrf24l01<Line, Line, Bus> {
    let (ce, csn, spi) = parts(c);
    match Nrf24l01::new(ce, csn, spi, Config::default()) {
        Ok(d) => d,
        Err(_) => panic!("construction failed"),
    }
}

#[test]
fn construct_with_valid_address_width() {
    let c = chip();
    c.borrow_mut().regs[0x03] = 1;
    let (ce, csn, spi) = parts(&c);
    assert!(Nrf24l01::new(ce, csn, spi, Config::default()).is_ok());
    let events = c.borrow().events.clone();
    assert_eq!(events[0], Event::Ce(false));
    assert_eq!(events[1], Event::Csn(true));
    assert_eq!(events[3], Event::Exchange(vec![0x03, 0x00]));
}

#[test]
fn construct_with_garbage_address_width_is_not_connected() {
    let c = chip();
    c.borrow_mut().regs[0x03] = 7;
    let (ce, csn, spi) = parts(&c);
    assert!(matches!(
        Nrf24l01::new(ce, csn, spi, Config::default()),
        Err(DriverError::NotConnected)
    ));
    let c = chip();
    c.borrow_mut().regs[0x03] = 0xff;
    let (ce, csn, spi) = parts(&c);
    assert!(matches!(DeviceImpl::new(ce, csn, spi), Err(DriverError::NotConnected)));
}

#[test]
fn construct_with_bus_fault_reports_spi_error() {
    let c = chip();
    c.borrow_mut().fail = true;
    let (ce, csn, spi) = parts(&c);
    assert!(matches!(
        Nrf24l01::new(ce, csn, spi, Config::default()),
        Err(DriverError::Spi("bus fault"))
    ));
}

#[test]
fn construction_powers_up_with_two_byte_crc() {
    let c = chip();
    let _d = driver(&c);
    // CONFIG: reset value 0x08, CRC two bytes (0x0c), then PWR_UP (0x0e).
    let ex = exchanges(&c);
    assert!(ex.contains(&vec![0x20, 0x0c]));
    assert_eq!(ex.last().unwrap(), &vec![0x20, 0x0e]);
    assert!(ex.contains(&vec![0x24, 0x1a]));
    assert!(ex.contains(&vec![0x26, 0x26]));
    assert!(ex.contains(&vec![0x25, 42]));
}

#[test]
fn send_then_wait_tx_ready_with_room_is_ok() {
    let c = chip();
    let mut d = driver(&c);
    c.borrow_mut().regs[0x17] = 0x11;
    let before = exchanges(&c).len();
    assert!(d.send(&[0xaa, 0xbb]).is_ok());
    let ex = exchanges(&c);
    assert!(ex[before..].contains(&vec![0xa0, 0xaa, 0xbb]));
    assert_eq!(c.borrow().events.last(), Some(&Event::Ce(true)));
    assert!(d.wait_tx_ready().is_ok());
}

#[test]
fn wait_tx_ready_after_max_retransmits_flushes_and_blocks() {
    let c = chip();
    let mut d = driver(&c);
    assert!(d.send(&[0xaa, 0xbb]).is_ok());
    {
        let mut chip = c.borrow_mut();
        chip.status = 0x1e;
        chip.regs[0x17] = 0x01;
    }
    let before = exchanges(&c).len();
    assert!(matches!(d.wait_tx_ready(), Err(nb::Error::WouldBlock)));
    let ex = exchanges(&c);
    assert_eq!(ex[before..].to_vec(), vec![vec![0x17, 0x00], vec![0xe1], vec![0x27, 0x30]]);
}

#[test]
fn wait_tx_empty_after_max_retransmits_flushes_and_blocks() {
    let c = chip();
    let mut d = driver(&c);
    {
        let mut chip = c.borrow_mut();
        chip.status = 0x1e;
        chip.regs[0x17] = 0x11;
    }
    let before = exchanges(&c).len();
    assert!(matches!(d.wait_tx_empty(), Err(nb::Error::WouldBlock)));
    let ex = exchanges(&c);
    assert_eq!(ex[before..].to_vec(), vec![vec![0x17, 0x00], vec![0xe1], vec![0x27, 0x30]]);
    c.borrow_mut().status = 0x0e;
    assert!(d.wait_tx_empty().is_ok());
    assert_eq!(c.borrow().events.last(), Some(&Event::Ce(false)));
}

#[test]
fn wait_rx_ready_reports_pipe_and_read_takes_two_commands() {
    let c = chip();
    let mut d = driver(&c);
    {
        let mut chip = c.borrow_mut();
        chip.regs[0x17] = 0x10;
        chip.status = 0x04;
        chip.rx_width = 3;
        chip.rx_payload = vec![1, 2, 3];
    }
    assert_eq!(d.wait_rx_ready().ok(), Some(2));
    let before = exchanges(&c).len();
    let payload = match d.read() {
        Ok(p) => p,
        Err(_) => panic!("read failed"),
    };
    let ex = exchanges(&c);
    assert_eq!(ex.len() - before, 2);
    assert_eq!(ex[before], vec![0x60, 0x00]);
    assert_eq!(ex[before + 1], vec![0x61, 0, 0, 0]);
    assert_eq!(payload.len(), 3);
    assert_eq!(payload.as_slice(), &[1, 2, 3]);
}

#[test]
fn wait_rx_ready_on_empty_queue_would_block() {
    let c = chip();
    let mut d = driver(&c);
    c.borrow_mut().regs[0x17] = 0x11;
    assert!(matches!(d.wait_rx_ready(), Err(nb::Error::WouldBlock)));
}

#[test]
fn rx_switch_waits_for_tx_queue_to_drain() {
    let c = chip();
    let mut d = driver(&c);
    c.borrow_mut().regs[0x17] = 0x01;
    assert!(matches!(d.wait_rx_ready(), Err(nb::Error::WouldBlock)));
    assert!(!c.borrow().events.contains(&Event::Ce(true)));
}

#[test]
fn mode_switches_order_chip_enable_and_config() {
    let c = chip();
    let mut d = driver(&c);
    c.borrow_mut().regs[0x17] = 0x11;
    let start = c.borrow().events.len();
    assert!(d.wait_tx_empty().is_ok());
    assert!(d.wait_rx_ready().is_err());
    assert!(d.wait_tx_ready().is_ok());
    let events = c.borrow().events[start..].to_vec();
    // Into TX: chip enable low, then PRIM_RX cleared (no change: no write).
    assert_eq!(events[0], Event::Ce(false));
    // Into RX: chip enable high, then CONFIG with PRIM_RX set.
    let raise = events.iter().position(|e| *e == Event::Ce(true)).unwrap();
    assert_eq!(events[raise + 2], Event::Exchange(vec![0x20, 0x0f]));
    // Back into TX: chip enable low before CONFIG with PRIM_RX clear.
    let back = events.iter().rposition(|e| *e == Event::Ce(false)).unwrap();
    assert!(back > raise);
    assert_eq!(events[back + 2], Event::Exchange(vec![0x20, 0x0e]));
}

#[test]
fn clear_interrupts_writes_three_flags() {
    let c = chip();
    let mut d = driver(&c);
    assert!(d.clear_interrupts().is_ok());
    assert_eq!(exchanges(&c).last().unwrap(), &vec![0x27, 0x70]);
}

#[test]
fn update_config_writes_only_on_change() {
    let c = chip();
    let (ce, csn, spi) = parts(&c);
    let mut dev = match DeviceImpl::new(ce, csn, spi) {
        Ok(d) => d,
        Err(_) => panic!("no device"),
    };
    let before = exchanges(&c).len();
    assert!(dev.update_config(|cfg: ConfigRegister| cfg).is_ok());
    assert_eq!(exchanges(&c).len(), before);
    assert!(dev
        .update_config(|cfg: ConfigRegister| {
            let mut cfg = cfg;
            cfg.set_pwr_up(true);
            cfg
        })
        .is_ok());
    let ex = exchanges(&c);
    assert_eq!(ex.len(), before + 1);
    assert_eq!(ex[before], vec![0x20, 0x0a]);
    assert!(dev
        .update_config(|cfg: ConfigRegister| {
            let mut cfg = cfg;
            cfg.set_pwr_up(true);
            cfg
        })
        .is_ok());
    assert_eq!(exchanges(&c).len(), before + 1);
}

#[test]
fn update_register_skips_unchanged_write() {
    let c = chip();
    c.borrow_mut().regs[0x04] = 0x13;
    let (ce, csn, spi) = parts(&c);
    let mut dev = match DeviceImpl::new(ce, csn, spi) {
        Ok(d) => d,
        Err(_) => panic!("no device"),
    };
    let before = exchanges(&c).len();
    assert!(dev.update_register::<SetupRetr, _>(|r: SetupRetr| r).is_ok());
    assert_eq!(exchanges(&c).len(), before + 1);
    assert!(dev
        .update_register::<SetupRetr, _>(|r: SetupRetr| {
            let mut r = r;
            r.set_arc(5);
            r
        })
        .is_ok());
    let ex = exchanges(&c);
    assert_eq!(ex.len(), before + 3);
    assert_eq!(ex[before + 2], vec![0x24, 0x15]);
}

#[test]
fn chip_select_released_once_on_bus_fault() {
    let c = chip();
    let (ce, csn, spi) = parts(&c);
    let mut dev = match DeviceImpl::new(ce, csn, spi) {
        Ok(d) => d,
        Err(_) => panic!("no device"),
    };
    c.borrow_mut().fail = true;
    let start = c.borrow().events.len();
    assert!(dev.send_command(&Command::FlushRx).is_err());
    let events = c.borrow().events[start..].to_vec();
    assert_eq!(
        events,
        vec![Event::Csn(false), Event::Exchange(vec![0xe2]), Event::Csn(true)]
    );
}

#[test]
fn status_is_first_response_byte_for_every_command() {
    let c = chip();
    let (ce, csn, spi) = parts(&c);
    let mut dev = match DeviceImpl::new(ce, csn, spi) {
        Ok(d) => d,
        Err(_) => panic!("no device"),
    };
    c.borrow_mut().status = 0x4e;
    for cmd in [Command::FlushTx, Command::ReadRxPayloadWidth, Command::read_register::<RxAddrP1>()] {
        let (status, response) = dev.send_command(&cmd).ok().unwrap();
        assert_eq!(status, Status(0x4e));
        assert!(status.rx_dr());
        assert_eq!(response.len(), cmd.len());
    }
}

#[test]
fn command_lengths_and_opcodes() {
    assert_eq!(Command::FlushTx.encode(), vec![0xe1]);
    assert_eq!(Command::FlushRx.encode(), vec![0xe2]);
    assert_eq!(Command::ReadRxPayloadWidth.encode(), vec![0x60, 0x00]);
    assert_eq!(Command::ReadRxPayload { width: 0 }.encode(), vec![0x61]);
    assert_eq!(Command::ReadRxPayload { width: 32 }.len(), 33);
    assert_eq!(Command::WriteTxPayload { data: vec![] }.encode(), vec![0xa0]);
    assert_eq!(Command::read_register::<RxAddrP1>().encode(), vec![0x0b, 0, 0, 0, 0, 0]);
    assert_eq!(
        Command::write_register(&RxAddrP1(1, 2, 3, 4, 5)).encode(),
        vec![0x2b, 1, 2, 3, 4, 5]
    );
    assert_eq!(Command::write_register(&FifoStatus(0)).len(), 2);
}

#[test]
fn register_round_trip() {
    let a = RxAddrP1(0xe7, 0xe6, 0xe5, 0xe4, 0xe3);
    assert_eq!(RxAddrP1::decode(&a.encode()), a);
    let s = SetupRetr(0x5a);
    assert_eq!(SetupRetr::decode(&s.encode()), s);
    assert_eq!(SetupRetr::decode(&[0x3c]).encode(), vec![0x3c]);
}

#[test]
fn bit_accessors_mask_and_shift() {
    let mut r = SetupRetr(0);
    r.set_ard(0x0f);
    r.set_arc(0x03);
    assert_eq!(r, SetupRetr(0xf3));
    assert_eq!(r.ard(), 0x0f);
    assert_eq!(r.arc(), 0x03);
    let s = Status(0x0e);
    assert_eq!(s.rx_p_no(), 7);
    let mut cfg = ConfigRegister(0x7f);
    cfg.set_mask_rx_dr(false);
    assert_eq!(cfg, ConfigRegister(0x3f));
    assert!(!cfg.mask_rx_dr());
}

#[test]
fn config_builder_values_reach_the_chip() {
    let c = chip();
    let config = Config::default()
        .frequency(76)
        .power(1)
        .data_rate(DataRate::R2Mbps)
        .crc_mode(CrcMode::OneByte)
        .auto_retransmit_delay(2)
        .auto_retransmit_count(200)
        .rx_full(2, 0xc3, 8, false)
        .rx_prefix([1, 2, 3, 4])
        .rx(1, 0xc2);
    let (ce, csn, spi) = parts(&c);
    assert!(Nrf24l01::new(ce, csn, spi, config).is_ok());
    let ex = exchanges(&c);
    assert!(ex.contains(&vec![0x25, 76]));
    assert!(ex.contains(&vec![0x26, 0x0a]));
    assert!(ex.contains(&vec![0x24, 0x2f]));
    assert!(!ex.contains(&vec![0x20, 0x0c]));
    assert!(ex.contains(&vec![0x3d, 0x04]));
    assert!(ex.contains(&vec![0x22, 0x06]));
    assert!(ex.contains(&vec![0x21, 0x3b]));
    assert!(ex.contains(&vec![0x2b, 0xc2, 1, 2, 3, 4]));
    assert!(ex.contains(&vec![0x2c, 0xc3]));
    assert!(ex.contains(&vec![0x33, 8]));
    assert!(ex.contains(&vec![0x3c, 0x3b]));
    assert_eq!(ex.last().unwrap(), &vec![0x20, 0x0a]);
}

#[test]
fn rx_mode_polls_and_reads() {
    let c = chip();
    let (ce, csn, spi) = parts(&c);
    let dev = match DeviceImpl::new(ce, csn, spi) {
        Ok(d) => d,
        Err(_) => panic!("no device"),
    };
    let mut rx = RxMode::new(dev);
    c.borrow_mut().regs[0x17] = 0x03;
    assert_eq!(rx.is_empty().ok(), Some(true));
    assert_eq!(rx.is_full().ok(), Some(true));
    assert!(matches!(rx.pipe(), Err(nb::Error::WouldBlock)));
    {
        let mut chip = c.borrow_mut();
        chip.regs[0x17] = 0x00;
        chip.regs[0x09] = 0x01;
        chip.status = 0x02;
        chip.rx_width = 40;
        chip.rx_payload = vec![9; 40];
    }
    assert_eq!(rx.pipe().ok(), Some(1));
    assert_eq!(rx.has_carrier().ok(), Some(true));
    let payload = rx.read().ok().unwrap();
    assert_eq!(payload.len(), 32);
    assert!(rx.clear_interrupts().is_ok());
    assert_eq!(exchanges(&c).last().unwrap(), &vec![0x27, 0x70]);
    let _dev = rx.standby();
    assert_eq!(c.borrow().events.last(), Some(&Event::Ce(false)));
}

#[test]
fn empty_payload_read_is_not_an_error() {
    let c = chip();
    let mut d = driver(&c);
    {
        let mut chip = c.borrow_mut();
        chip.regs[0x17] = 0x10;
        chip.rx_width = 0;
    }
    let payload = match d.read() {
        Ok(p) => p,
        Err(_) => panic!("read failed"),
    };
    assert!(payload.is_empty());
    assert_eq!(exchanges(&c).last().unwrap(), &vec![0x61]);
}

#[test]
fn bus_fault_is_reported_not_would_block() {
    let c = chip();
    let mut d = driver(&c);
    c.borrow_mut().fail = true;
    assert!(matches!(d.wait_tx_ready(), Err(nb::Error::Other("bus fault"))));
    assert!(matches!(d.clear_interrupts(), Err("bus fault")));
}

#[test]
fn connection_outcome_follows_the_check() {
    assert!(matches!(connection_outcome(5u8, Ok::<bool, &str>(true)), Ok(5)));
    assert!(matches!(connection_outcome(5u8, Ok::<bool, &str>(false)), Err(DriverError::NotConnected)));
    assert!(matches!(connection_outcome(5u8, Err::<bool, &str>("bus fault")), Err(DriverError::Spi("bus fault"))));
}
