use vstd::prelude::*;

pub mod registers;
pub mod transfer;

use crate::registers::Registers;
use crate::transfer::{I2c, LoggedBus, Transfer};

verus! {

/// What can go wrong when talking to the sensor.
#[derive(Debug)]
pub enum Gy271Error<E> {
    /// The bus reported a failure; its error is handed on unchanged.
    I2c(E),
    /// Kept for a device whose identity byte does not match; no operation returns it.
    InvalidChipId(u8),
    /// The status register did not report a new measurement.
    DataNotReady,
}

/// One measurement of the three axes, in raw signed counts.
#[derive(Copy, Clone, Debug, PartialEq, Eq, Structural)]
pub struct Sample {
    pub x: i16,
    pub y: i16,
    pub z: i16,
}

/// What the driver returns for one finished write transfer.
pub open spec fn write_result<E>(t: Transfer<E>) -> Result<(), Gy271Error<E>> {
    match t.outcome() {
        Ok(_) => Ok(()),
        Err(e) => Err(Gy271Error::I2c(e)),
    }
}

/// What the driver returns for one finished single-byte read transfer.
pub open spec fn byte_result<E>(t: Transfer<E>) -> Result<u8, Gy271Error<E>> {
    match t.outcome() {
        Ok(bytes) => Ok(bytes[0]),
        Err(e) => Err(Gy271Error::I2c(e)),
    }
}

/// Whether a status byte reports a new measurement: its lowest bit is set.
pub open spec fn status_ready(status: u8) -> bool {
    status & 1 == 1
}

/// What the driver returns for a finished read of the status register.
pub open spec fn ready_result<E>(t: Transfer<E>) -> Result<(), Gy271Error<E>> {
    match byte_result(t) {
        Ok(status) => if status_ready(status) {
            Ok(())
        } else {
            Err(Gy271Error::DataNotReady)
        },
        Err(e) => Err(e),
    }
}

/// The signed value of an axis whose high byte is `high` and low byte is `low`.
pub open spec fn axis_value(high: u8, low: u8) -> int {
    let u = high as int * 256 + low as int;
    if u < 0x8000 {
        u
    } else {
        u - 0x10000
    }
}

/// The data registers read for one sample, in the order in which they are read.
pub open spec fn sample_registers() -> Seq<u8> {
    seq![
        Registers::DATA_X_MSB.spec_addr(),
        Registers::DATA_X_LSB.spec_addr(),
        Registers::DATA_Y_MSB.spec_addr(),
        Registers::DATA_Y_LSB.spec_addr(),
        Registers::DATA_Z_MSB.spec_addr(),
        Registers::DATA_Z_LSB.spec_addr(),
    ]
}

/// The byte that a successful single-byte read brought back.
pub open spec fn read_byte<E>(t: Transfer<E>) -> u8 {
    match t.outcome() {
        Ok(bytes) => bytes[0],
        Err(_) => 0,
    }
}

/// The sample made of the bytes that six successful data reads brought back.
pub open spec fn sample_of<E>(d: Seq<Transfer<E>>) -> Sample {
    Sample {
        x: axis_value(read_byte(d[0]), read_byte(d[1])) as i16,
        y: axis_value(read_byte(d[2]), read_byte(d[3])) as i16,
        z: axis_value(read_byte(d[4]), read_byte(d[5])) as i16,
    }
}

/// `t` and `r` are what `init` does and returns: it writes 0x01 to the sampling
/// period register and then, only if that write went through, 0x1D to the first
/// control register.
pub open spec fn initialized<E>(t: Seq<Transfer<E>>, r: Result<(), Gy271Error<E>>) -> bool {
    &&& t.len() >= 1
    &&& t[0].writes(Registers::SET_PERIOD_REG.spec_addr(), 0x01)
    &&& if t[0].succeeded() {
        &&& t.len() == 2
        &&& t[1].writes(Registers::CONTROL_REG_1.spec_addr(), 0x1D)
        &&& r == write_result(t[1])
    } else {
        &&& t.len() == 1
        &&& r == write_result(t[0])
    }
}

/// `t` and `r` are what `get_data` does and returns: a read of the status register;
/// if that fails or reports no new data, nothing more and `DataNotReady`; otherwise
/// the six data registers in order, up to the first failed read, whose error is
/// returned, or the sample the six bytes make.
pub open spec fn sampled<E>(t: Seq<Transfer<E>>, r: Result<Sample, Gy271Error<E>>) -> bool {
    &&& t.len() >= 1
    &&& t[0].reads(Registers::STATUS_REG.spec_addr())
    &&& if ready_result(t[0]) is Err {
        &&& t.len() == 1
        &&& r matches Err(Gy271Error::DataNotReady)
    } else {
        let d = t.skip(1);
        &&& 1 <= d.len() <= 6
        &&& forall|i: int| #![trigger d[i]] 0 <= i < d.len() ==> d[i].reads(sample_registers()[i])
        &&& forall|i: int| 0 <= i < d.len() - 1 ==> (#[trigger] d[i]).succeeded()
        &&& match d.last().outcome() {
            Ok(_) => d.len() == 6 && r == Ok::<Sample, Gy271Error<E>>(sample_of(d)),
            Err(e) => r == Err::<Sample, Gy271Error<E>>(Gy271Error::I2c(e)),
        }
    }
}

/// Reports whether a status byte announces a new measurement.
pub fn data_ready(status: u8) -> (r: bool)
    ensures
        r == status_ready(status),
{
    status & 1 == 1
}

/// Joins the high and low byte of an axis into its signed 16-bit value.
pub fn compose(high: u8, low: u8) -> (r: i16)
    ensures
        r as int == axis_value(high, low),
{
    let word: u16 = ((high as u16) << 8u16) | (low as u16);
    assert(word as int == high as int * 256 + low as int) by (bit_vector)
        requires
            word == ((high as u16) << 8u16) | (low as u16),
    ;
    assert((word as i16) as int == if (word as int) < 0x8000 {
        word as int
    } else {
        word as int - 0x10000
    }) by (bit_vector);
    #[verifier::truncate]
    (word as i16)
}

/// The driver for the sensor; it owns the bus it talks over.
pub struct Gy271<I: I2c> {
    i2c: LoggedBus<I>,
}

impl<I: I2c> Gy271<I> {
    /// Every transfer this driver has made on its bus, oldest first.
    pub closed spec fn transfers(&self) -> Seq<Transfer<I::Error>> {
        self.i2c.log()
    }

    /// The bus the driver talks over.
    pub closed spec fn bus(&self) -> I {
        self.i2c.bus()
    }

    /// The transfers made since the driver was in the state `earlier`.
    pub open spec fn since(&self, earlier: &Self) -> Seq<Transfer<I::Error>> {
        self.transfers().skip(earlier.transfers().len() as int)
    }

    /// `self` is `earlier` followed by more transfers.
    pub open spec fn extends(&self, earlier: &Self) -> bool {
        self.transfers() == earlier.transfers() + self.since(earlier)
    }

    pub fn new(i2c: I) -> (r: Self)
        ensures
            r.bus() == i2c,
            r.transfers() == Seq::<Transfer<I::Error>>::empty(),
    {
        Gy271 { i2c: LoggedBus::new(i2c) }
    }

    /// Configures the sensor: sampling period first, then continuous measurement.
    pub fn init(&mut self) -> (r: Result<(), Gy271Error<I::Error>>)
        ensures
            final(self).extends(old(self)),
            initialized(final(self).since(old(self)), r),
    {
        let ghost t0 = self.transfers();
        match self.write_u8(Registers::SET_PERIOD_REG.addr(), 0x01) {
            Ok(()) => {},
            Err(e) => {
                return Err(e);
            },
        }
        let ghost t1 = self.transfers();
        let r = self.write_u8(Registers::CONTROL_REG_1.addr(), 0x1D);
        proof {
            lemma_chain(t0, t1, self.transfers());
        }
        match r {
            Ok(()) => Ok(()),
            Err(e) => Err(e),
        }
    }

    /// Reads the status register and succeeds when it reports a new measurement.
    pub fn is_data_ready(&mut self) -> (r: Result<(), Gy271Error<I::Error>>)
        ensures
            final(self).extends(old(self)),
            final(self).since(old(self)).len() == 1,
            final(self).since(old(self))[0].reads(Registers::STATUS_REG.spec_addr()),
            r == ready_result(final(self).since(old(self))[0]),
    {
        match self.read_u8(Registers::STATUS_REG.addr()) {
            Ok(status) => if data_ready(status) {
                Ok(())
            } else {
                Err(Gy271Error::DataNotReady)
            },
            Err(e) => Err(e),
        }
    }

    /// Writes `byte` into register `reg`: one write of the two bytes.
    pub fn write_u8(&mut self, reg: u8, byte: u8) -> (r: Result<(), Gy271Error<I::Error>>)
        ensures
            final(self).extends(old(self)),
            final(self).since(old(self)).len() == 1,
            final(self).since(old(self))[0].writes(reg, byte),
            r == write_result(final(self).since(old(self))[0]),
    {
        let request: [u8; 2] = [reg, byte];
        let result = self.i2c.write(Registers::SLAVE_ADDR.addr(), &request);
        proof {
            assert(request@ =~= seq![reg, byte]);
            assert(self.since(old(self)) =~= seq![self.transfers().last()]);
            assert(self.transfers() =~= old(self).transfers() + self.since(old(self)));
        }
        match result {
            Ok(()) => Ok(()),
            Err(e) => Err(Gy271Error::I2c(e)),
        }
    }

    /// Reads one measurement, once the status register reports that one is ready.
    pub fn get_data(&mut self) -> (r: Result<Sample, Gy271Error<I::Error>>)
        ensures
            final(self).extends(old(self)),
            sampled(final(self).since(old(self)), r),
    {
        let ghost t0 = self.transfers();
        let ghost mut seen: Seq<Transfer<I::Error>> = Seq::empty();
        proof {
            assert(t0 =~= t0 + seen);
        }
        let ready = self.is_data_ready();
        proof {
            lemma_one_more(t0, seen, self.transfers());
            seen = seen.push(self.transfers().last());
        }
        if ready.is_err() {
            return Err(Gy271Error::DataNotReady);
        }
        let read = self.read_next(Registers::DATA_X_MSB.addr(), Ghost(t0), Ghost(seen));
        proof {
            seen = seen.push(self.transfers().last());
        }
        let x_msb = match read {
            Ok(b) => b,
            Err(e) => return Err(e),
        };
        let read = self.read_next(Registers::DATA_X_LSB.addr(), Ghost(t0), Ghost(seen));
        proof {
            seen = seen.push(self.transfers().last());
        }
        let x_lsb = match read {
            Ok(b) => b,
            Err(e) => return Err(e),
        };
        let x_data: i16 = compose(x_msb, x_lsb);
        let read = self.read_next(Registers::DATA_Y_MSB.addr(), Ghost(t0), Ghost(seen));
        proof {
            seen = seen.push(self.transfers().last());
        }
        let y_msb = match read {
            Ok(b) => b,
            Err(e) => return Err(e),
        };
        let read = self.read_next(Registers::DATA_Y_LSB.addr(), Ghost(t0), Ghost(seen));
        proof {
            seen = seen.push(self.transfers().last());
        }
        let y_lsb = match read {
            Ok(b) => b,
            Err(e) => return Err(e),
        };
        let y_data: i16 = compose(y_msb, y_lsb);
        let read = self.read_next(Registers::DATA_Z_MSB.addr(), Ghost(t0), Ghost(seen));
        proof {
            seen = seen.push(self.transfers().last());
        }
        let z_msb = match read {
            Ok(b) => b,
            Err(e) => return Err(e),
        };
        let read = self.read_next(Registers::DATA_Z_LSB.addr(), Ghost(t0), Ghost(seen));
        proof {
            seen = seen.push(self.transfers().last());
        }
        let z_lsb = match read {
            Ok(b) => b,
            Err(e) => return Err(e),
        };
        let z_data: i16 = compose(z_msb, z_lsb);
        Ok(Sample { x: x_data, y: y_data, z: z_data })
    }

    /// Reads `reg` as the next data read of a sample: `t0` is the log before the
    /// sample began and `seen` what the sample has made since.
    fn read_next(
        &mut self,
        reg: u8,
        Ghost(t0): Ghost<Seq<Transfer<I::Error>>>,
        Ghost(seen): Ghost<Seq<Transfer<I::Error>>>,
    ) -> (r: Result<u8, Gy271Error<I::Error>>)
        requires
            old(self).transfers() == t0 + seen,
            seen.len() >= 1,
        ensures
            final(self).transfers() == t0 + seen.push(final(self).transfers().last()),
            final(self).transfers().skip(t0.len() as int) == seen.push(
                final(self).transfers().last(),
            ),
            seen.push(final(self).transfers().last()).skip(1) == seen.skip(1).push(
                final(self).transfers().last(),
            ),
            final(self).transfers().last().reads(reg),
            r == byte_result(final(self).transfers().last()),
    {
        let r = self.read_u8(reg);
        proof {
            lemma_one_more(t0, seen, self.transfers());
            let last = self.transfers().last();
            assert(seen.push(last).skip(1) =~= seen.skip(1).push(last));
        }
        r
    }

    /// Reads one register: a write of its address followed by a read of one byte.
    pub fn read_u8(&mut self, reg: u8) -> (r: Result<u8, Gy271Error<I::Error>>)
        ensures
            final(self).extends(old(self)),
            final(self).since(old(self)).len() == 1,
            final(self).since(old(self))[0].reads(reg),
            r == byte_result(final(self).since(old(self))[0]),
    {
        let request: [u8; 1] = [reg];
        let mut byte: [u8; 1] = [0; 1];
        let result = self.i2c.write_read(Registers::SLAVE_ADDR.addr(), &request, &mut byte);
        proof {
            assert(request@ =~= seq![reg]);
            assert(self.since(old(self)) =~= seq![self.transfers().last()]);
            assert(self.transfers() =~= old(self).transfers() + self.since(old(self)));
        }
        match result {
            Ok(()) => Ok(byte[0]),
            Err(e) => Err(Gy271Error::I2c(e)),
        }
    }
}

/// A sample reads data registers only after a status read that `is_data_ready`
/// would accept, and then reads them in the fixed order, high byte before low.
pub proof fn lemma_data_read_only_when_ready<E>(t: Seq<Transfer<E>>, r: Result<Sample, Gy271Error<E>>)
    requires
        sampled(t, r),
    ensures
        t.len() > 1 <==> ready_result(t[0]) is Ok,
        forall|i: int| 1 <= i < t.len() ==> #[trigger] t[i].reads(sample_registers()[i - 1]),
{
    assert forall|i: int| 1 <= i < t.len() implies #[trigger] t[i].reads(sample_registers()[i - 1]) by {
        assert(t[i] == t.skip(1)[i - 1]);
    }
}

/// When one of the data reads of a sample fails, it is the last transfer made and
/// the whole read fails with its error: no sample comes back.
pub proof fn lemma_failed_read_gives_no_sample<E>(
    t: Seq<Transfer<E>>,
    r: Result<Sample, Gy271Error<E>>,
    i: int,
)
    requires
        sampled(t, r),
        1 <= i < t.len(),
        !t[i].succeeded(),
    ensures
        i == t.len() - 1,
        r is Err,
        r == Err::<Sample, Gy271Error<E>>(Gy271Error::I2c(t[i].outcome()->Err_0)),
{
    let d = t.skip(1);
    assert(t[i] == d[i - 1]);
    assert(d.last() == t[t.len() - 1]);
}

/// One more transfer after `t0` and `seen` extends `seen` by that transfer.
proof fn lemma_one_more<E>(t0: Seq<Transfer<E>>, seen: Seq<Transfer<E>>, after: Seq<Transfer<E>>)
    requires
        after == (t0 + seen) + after.skip((t0 + seen).len() as int),
        after.skip((t0 + seen).len() as int).len() == 1,
    ensures
        after.len() == t0.len() + seen.len() + 1,
        after.last() == after.skip((t0 + seen).len() as int)[0],
        after == t0 + seen.push(after.last()),
        after.skip(t0.len() as int) == seen.push(after.last()),
{
    assert(after =~= t0 + seen.push(after.last()));
    assert(after.skip(t0.len() as int) =~= seen.push(after.last()));
}

/// Transfers made in two stretches are the first stretch followed by the second.
proof fn lemma_chain<E>(a: Seq<Transfer<E>>, b: Seq<Transfer<E>>, c: Seq<Transfer<E>>)
    requires
        b == a + b.skip(a.len() as int),
        c == b + c.skip(b.len() as int),
    ensures
        c == a + c.skip(a.len() as int),
        c.skip(a.len() as int) == b.skip(a.len() as int) + c.skip(b.len() as int),
{
    assert(c.skip(a.len() as int) =~= b.skip(a.len() as int) + c.skip(b.len() as int));
    assert(c =~= a + c.skip(a.len() as int));
}

} // verus!
