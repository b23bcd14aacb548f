use std::cell::RefCell;
use std::rc::Rc;

use thermostat::ad7172::Ad7172;
use thermostat::ad7172::AdcReg;
use thermostat::ad7172::Error;
use thermostat::bus::ChipSelect;
use thermostat::bus::DelayUs;
use thermostat::bus::SpiBus;
use thermostat::dac::Dac;
use thermostat::dac::DacCode;
use thermostat::dac::DacPins;
use thermostat::dac::Error as DacError;
use thermostat::dac::OutputChannelIdx;
use thermostat::dac::MAX_CURRENT_UA;

/// Shared log of every frame shifted out on a bus.
type FrameLog = Rc<RefCell<Vec<Vec<u8>>>>;

/// A simulated ADC-side device: latches register writes, answers
/// register reads from its register map, and records every frame.
struct SimRegisterBus {
    log: FrameLog,
    /// (address, value) pairs of latched registers.
    regs: RefCell<std::collections::HashMap<u8, u64>>,
    /// Fixed identity register value.
    id: u64,
    /// Fixed conversion word answered for the data register.
    data: u64,
}

impl SimRegisterBus {
    fn new(log: FrameLog, id: u64) -> SimRegisterBus {
        SimRegisterBus {
            log,
            regs: RefCell::new(std::collections::HashMap::new()),
            id,
            data: 0,
        }
    }
}

impl SpiBus for SimRegisterBus {
    fn transfer(&mut self, buf: &mut Vec<u8>) {
        self.log.borrow_mut().push(buf.clone());
        if buf.len() >= 2 && buf[0] & 0x40 != 0 {
            // register read: answer with the latched value, big-endian
            let addr = buf[0] & !0x40;
            let size = buf.len() - 1;
            let value = if addr == 0x07 {
                self.id
            } else if addr == 0x04 {
                self.data
            } else {
                *self.regs.borrow().get(&addr).unwrap_or(&0)
            };
            for k in 0..size {
                buf[1 + k] = (value >> (8 * (size - 1 - k))) as u8;
            }
        }
    }

    fn send(&mut self, buf: &Vec<u8>) {
        self.log.borrow_mut().push(buf.clone());
        if !buf.is_empty() {
            let addr = buf[0];
            let mut value: u64 = 0;
            for b in &buf[1..] {
                value = value << 8 | *b as u64;
            }
            self.regs.borrow_mut().insert(addr, value);
        }
    }
}

struct SimPin {
    high: bool,
}

impl ChipSelect for SimPin {
    fn set_high(&mut self) {
        self.high = true;
    }

    fn set_low(&mut self) {
        self.high = false;
    }
}

struct SimDelay;

impl DelayUs for SimDelay {
    fn delay_us(&mut self, _us: u16) {}
}

fn new_adc(id: u64) -> (Result<Ad7172<SimRegisterBus, SimPin>, Error>, FrameLog) {
    new_adc_with_data(id, 0)
}

fn new_adc_with_data(
    id: u64,
    data: u64,
) -> (Result<Ad7172<SimRegisterBus, SimPin>, Error>, FrameLog) {
    let log: FrameLog = Rc::new(RefCell::new(Vec::new()));
    let mut bus = SimRegisterBus::new(log.clone(), id);
    bus.data = data;
    let r = Ad7172::new(&mut SimDelay, bus, SimPin { high: false });
    (r, log)
}

#[test]
fn adc_new_checks_identity_and_configures() {
    let (r, log) = new_adc(0x00d2);
    assert!(r.is_ok());
    let frames = log.borrow();
    // reset, id read, ADCMODE, IFMODE, CH0, CH1, SETUPCON0, SETUPCON1,
    // FILTCON0, FILTCON1
    assert_eq!(frames.len(), 10);
    assert_eq!(frames[0], vec![0xff; 8]);
    assert_eq!(frames[1], vec![0x07 | 0x40, 0x00, 0x00]);
    assert_eq!(frames[2], vec![0x01, 0x80, 0x08]);
    assert_eq!(frames[3], vec![0x02, 0x00, 0x40]);
    assert_eq!(frames[4], vec![0x10, 0x80, 0x01]);
    assert_eq!(frames[5], vec![0x11, 0x90, 0x43]);
    assert_eq!(frames[6], vec![0x20, 0x0f, 0x00]);
    assert_eq!(frames[7], vec![0x21, 0x0f, 0x00]);
    assert_eq!(frames[8], vec![0x28, 0x0e, 0x13]);
    assert_eq!(frames[9], vec![0x29, 0x0e, 0x13]);
}

#[test]
fn adc_id_mismatch_aborts_before_configuration() {
    // top nibble of the low byte is 0xA, not 0xD
    let (r, log) = new_adc(0x00a0);
    assert!(matches!(r, Err(Error::AdcId)));
    // only the reset and the identity read reached the bus
    assert_eq!(log.borrow().len(), 2);
}

#[test]
fn register_write_read_round_trip() {
    let (r, log) = new_adc(0x00d0);
    let mut adc = r.unwrap();
    drop(log);
    for size in 1..=3usize {
        let mask: u64 = (1u64 << (8 * size)) - 1;
        for value in [0u32, 1, 0xa5, 0x1234, 0xabcdef, 0xffffffff] {
            adc.write(AdcReg::OFFSET0, size, value);
            let got = adc.read(AdcReg::OFFSET0, size);
            assert_eq!(got as u64, value as u64 & mask);
        }
    }
}

#[test]
fn read_data_splits_value_and_channel_tag() {
    // conversion word: 24-bit value 0x123456, channel tag 0x02
    let (r, log) = new_adc_with_data(0x00d0, 0x12345602);
    let mut adc = r.unwrap();
    drop(log);
    let (data, ch) = adc.read_data();
    assert_eq!(data, 0x123456);
    assert_eq!(ch, 2);
}

#[test]
fn dac_code_zero_current_is_mid_scale() {
    let code = DacCode::try_from_current(0).unwrap();
    assert_eq!(code.code(), 0x80000);
    assert_eq!(DacCode::zero().code(), 0x80000);
}

#[test]
fn dac_code_is_monotonic_in_current() {
    let mut last = 0u32;
    for ua in (-3_000_001..=2_999_999i64).step_by(13_177) {
        let code = DacCode::try_from_current(ua).unwrap().code();
        assert!(code >= last);
        last = code;
    }
}

#[test]
fn dac_code_bounds() {
    // the reported maximum current maps exactly to the top code
    assert_eq!(MAX_CURRENT_UA, 2_999_999);
    let top = DacCode::try_from_current(MAX_CURRENT_UA).unwrap();
    assert_eq!(top.code(), 0xfffff);
    assert!(matches!(
        DacCode::try_from_current(MAX_CURRENT_UA + 1),
        Err(DacError::Bounds)
    ));
    assert!(matches!(
        DacCode::try_from_current(-3_000_002),
        Err(DacError::Bounds)
    ));
    // the most negative representable current
    assert_eq!(DacCode::try_from_current(-3_000_001).unwrap().code(), 0);
}

#[test]
fn dac_new_commands_zero_current_everywhere() {
    let log: FrameLog = Rc::new(RefCell::new(Vec::new()));
    let bus = SimRegisterBus::new(log.clone(), 0);
    let pins = DacPins {
        sync: (
            SimPin { high: false },
            SimPin { high: false },
            SimPin { high: false },
            SimPin { high: false },
        ),
    };
    let mut dac = Dac::new(bus, pins);
    {
        let frames = log.borrow();
        assert_eq!(frames.len(), 4);
        for f in frames.iter() {
            // 0x80000 as a 3-byte big-endian field
            assert_eq!(*f, vec![0x08, 0x00, 0x00]);
        }
    }
    let code = DacCode::try_from_current(1_000_000).unwrap();
    dac.set(OutputChannelIdx::Two, code);
    let frames = log.borrow();
    assert_eq!(frames.len(), 5);
    // 1 A: half 500000 uV + 1.5 V = 2.0 V -> code 2/3 * 2^20 = 0xaaaaa
    assert_eq!(code.code(), 0xaaaaa);
    assert_eq!(u32::from(code), 0xaaaaa);
    assert_eq!(frames[4], vec![0x0a, 0xaa, 0xaa]);
}
