use std::cell::RefCell;
use std::collections::VecDeque;
use std::rc::Rc;

use gy271::registers::Registers;
use gy271::transfer::I2c;
use gy271::{compose, data_ready, Gy271, Gy271Error, Sample};

#[derive(Debug, Clone, PartialEq)]
enum Call {
    Write(u8, Vec<u8>),
    WriteRead(u8, Vec<u8>, usize),
}

#[derive(Debug, Clone, PartialEq)]
struct BusFault(u8);

/// A bus that answers from a script and remembers every call made on it.
struct ScriptedBus {
    calls: Rc<RefCell<Vec<Call>>>,
    reads: VecDeque<Result<u8, BusFault>>,
    writes: VecDeque<Result<(), BusFault>>,
}

impl I2c for ScriptedBus {
    type Error = BusFault;

    fn write(&mut self, address: u8, bytes: &[u8]) -> Result<(), BusFault> {
        self.calls.borrow_mut().push(Call::Write(address, bytes.to_vec()));
        self.writes.pop_front().unwrap_or(Ok(()))
    }

    fn write_read(&mut self, address: u8, bytes: &[u8], buffer: &mut [u8]) -> Result<(), BusFault> {
        self.calls
            .borrow_mut()
            .push(Call::WriteRead(address, bytes.to_vec(), buffer.len()));
        match self.reads.pop_front().expect("unscripted read") {
            Ok(b) => {
                buffer[0] = b;
                Ok(())
            }
            Err(e) => Err(e),
        }
    }
}

fn driver(
    reads: Vec<Result<u8, BusFault>>,
    writes: Vec<Result<(), BusFault>>,
) -> (Gy271<ScriptedBus>, Rc<RefCell<Vec<Call>>>) {
    let calls = Rc::new(RefCell::new(Vec::new()));
    let bus = ScriptedBus {
        calls: calls.clone(),
        reads: reads.into_iter().collect(),
        writes: writes.into_iter().collect(),
    };
    (Gy271::new(bus), calls)
}

fn read_of(reg: u8) -> Call {
    Call::WriteRead(0x0D, vec![reg], 1)
}

#[test]
fn register_addresses() {
    let table = [
        (Registers::SLAVE_ADDR, 0x0D),
        (Registers::DATA_X_LSB, 0x00),
        (Registers::DATA_X_MSB, 0x01),
        (Registers::DATA_Y_LSB, 0x02),
        (Registers::DATA_Y_MSB, 0x03),
        (Registers::DATA_Z_LSB, 0x04),
        (Registers::DATA_Z_MSB, 0x05),
        (Registers::STATUS_REG, 0x06),
        (Registers::TEMP_DATA_LSB, 0x07),
        (Registers::TEMP_DATA_MSB, 0x08),
        (Registers::CONTROL_REG_1, 0x09),
        (Registers::CONTROL_REG_2, 0x0A),
        (Registers::SET_PERIOD_REG, 0x0B),
    ];
    for (reg, addr) in table {
        assert_eq!(reg.addr(), addr);
        assert_eq!(reg.addr(), reg.addr());
    }
}

#[test]
fn init_writes_period_then_control() {
    let (mut dev, calls) = driver(vec![], vec![]);
    assert!(dev.init().is_ok());
    assert_eq!(
        *calls.borrow(),
        vec![Call::Write(0x0D, vec![0x0B, 0x01]), Call::Write(0x0D, vec![0x09, 0x1D])]
    );
}

#[test]
fn init_stops_after_failed_first_write() {
    let (mut dev, calls) = driver(vec![], vec![Err(BusFault(7))]);
    assert!(matches!(dev.init(), Err(Gy271Error::I2c(BusFault(7)))));
    assert_eq!(*calls.borrow(), vec![Call::Write(0x0D, vec![0x0B, 0x01])]);
}

#[test]
fn init_reports_failed_second_write() {
    let (mut dev, calls) = driver(vec![], vec![Ok(()), Err(BusFault(9))]);
    assert!(matches!(dev.init(), Err(Gy271Error::I2c(BusFault(9)))));
    assert_eq!(calls.borrow().len(), 2);
}

#[test]
fn data_ready_follows_lowest_bit() {
    assert!(data_ready(0x01));
    assert!(data_ready(0xFF));
    assert!(!data_ready(0x00));
    assert!(!data_ready(0x02));
    assert!(!data_ready(0xFE));
}

#[test]
fn is_data_ready_on_status_bytes() {
    let (mut dev, calls) = driver(vec![Ok(0x01), Ok(0x00), Ok(0x02), Ok(0x03)], vec![]);
    assert!(dev.is_data_ready().is_ok());
    assert!(matches!(dev.is_data_ready(), Err(Gy271Error::DataNotReady)));
    assert!(matches!(dev.is_data_ready(), Err(Gy271Error::DataNotReady)));
    assert!(dev.is_data_ready().is_ok());
    assert_eq!(*calls.borrow(), vec![read_of(0x06); 4]);
}

#[test]
fn is_data_ready_hands_on_bus_error() {
    let (mut dev, _calls) = driver(vec![Err(BusFault(3))], vec![]);
    assert!(matches!(dev.is_data_ready(), Err(Gy271Error::I2c(BusFault(3)))));
}

#[test]
fn compose_joins_high_and_low() {
    assert_eq!(compose(0x01, 0x02), 258);
    assert_eq!(compose(0xFF, 0xFF), -1);
    assert_eq!(compose(0x80, 0x00), i16::MIN);
    assert_eq!(compose(0x7F, 0xFF), i16::MAX);
    assert_eq!(compose(0x00, 0x00), 0);
    assert_eq!(compose(0x00, 0x10), 0x10);
}

#[test]
fn get_data_scripted_sample() {
    let (mut dev, calls) = driver(
        vec![Ok(0x01), Ok(0x12), Ok(0x34), Ok(0x56), Ok(0x78), Ok(0x9A), Ok(0xBC)],
        vec![],
    );
    let sample = dev.get_data().expect("sample");
    assert_eq!(
        sample,
        Sample { x: 0x1234, y: 0x5678, z: 0x9ABCu16 as i16 }
    );
    assert_eq!(sample.z, -25924);
    assert_eq!(
        *calls.borrow(),
        vec![
            read_of(0x06),
            read_of(0x01),
            read_of(0x00),
            read_of(0x03),
            read_of(0x02),
            read_of(0x05),
            read_of(0x04),
        ]
    );
}

#[test]
fn get_data_composes_signed_axes() {
    let (mut dev, _calls) = driver(
        vec![Ok(0x01), Ok(0x01), Ok(0x02), Ok(0xFF), Ok(0xFF), Ok(0x00), Ok(0x00)],
        vec![],
    );
    assert_eq!(dev.get_data().expect("sample"), Sample { x: 258, y: -1, z: 0 });
}

#[test]
fn get_data_not_ready_reads_no_data() {
    let (mut dev, calls) = driver(vec![Ok(0x00)], vec![]);
    assert!(matches!(dev.get_data(), Err(Gy271Error::DataNotReady)));
    assert_eq!(*calls.borrow(), vec![read_of(0x06)]);
}

#[test]
fn get_data_status_bus_error_is_not_ready() {
    let (mut dev, calls) = driver(vec![Err(BusFault(1))], vec![]);
    assert!(matches!(dev.get_data(), Err(Gy271Error::DataNotReady)));
    assert_eq!(calls.borrow().len(), 1);
}

#[test]
fn get_data_fails_whole_on_any_data_read() {
    for failing in 0..6usize {
        let mut reads = vec![Ok(0x01)];
        for i in 0..6usize {
            if i == failing {
                reads.push(Err(BusFault(i as u8)));
            } else {
                reads.push(Ok(0x11));
            }
        }
        let (mut dev, calls) = driver(reads, vec![]);
        match dev.get_data() {
            Err(Gy271Error::I2c(BusFault(code))) => assert_eq!(code as usize, failing),
            other => panic!("expected a bus error, got {:?}", other),
        }
        assert_eq!(calls.borrow().len(), failing + 2);
    }
}

#[test]
fn read_u8_is_one_write_read() {
    let (mut dev, calls) = driver(vec![Ok(0x42)], vec![]);
    assert_eq!(dev.read_u8(0x07).ok(), Some(0x42));
    assert_eq!(*calls.borrow(), vec![read_of(0x07)]);
}

#[test]
fn read_u8_failure_is_not_retried() {
    let (mut dev, calls) = driver(vec![Err(BusFault(5))], vec![]);
    assert!(matches!(dev.read_u8(0x08), Err(Gy271Error::I2c(BusFault(5)))));
    assert_eq!(calls.borrow().len(), 1);
}

#[test]
fn write_u8_is_one_write() {
    let (mut dev, calls) = driver(vec![], vec![Err(BusFault(2))]);
    assert!(matches!(dev.write_u8(0x0A, 0x80), Err(Gy271Error::I2c(BusFault(2)))));
    assert!(dev.write_u8(0x0A, 0x01).is_ok());
    assert_eq!(
        *calls.borrow(),
        vec![Call::Write(0x0D, vec![0x0A, 0x80]), Call::Write(0x0D, vec![0x0A, 0x01])]
    );
}
