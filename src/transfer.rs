use vstd::prelude::*;

use crate::registers::Registers;

verus! {

/// A two-wire bus on which the driver reaches the sensor.
pub trait I2c {
    type Error;

    /// Sends `bytes` to the device at `address`.
    fn write(&mut self, address: u8, bytes: &[u8]) -> Result<(), Self::Error>;

    /// Sends `bytes` to the device at `address`, then reads `buffer.len()` bytes
    /// back into `buffer`, as one transaction.
    fn write_read(&mut self, address: u8, bytes: &[u8], buffer: &mut [u8]) -> Result<
        (),
        Self::Error,
    >;
}

/// One transaction on the bus: what was handed to it and what came back.
pub enum Transfer<E> {
    Write { address: u8, bytes: Seq<u8>, status: Result<(), E> },
    WriteRead { address: u8, bytes: Seq<u8>, len: nat, reply: Result<Seq<u8>, E> },
}

impl<E> Transfer<E> {
    /// The bytes read back on success (none for a write), or the bus's error.
    pub open spec fn outcome(self) -> Result<Seq<u8>, E> {
        match self {
            Transfer::Write { status, .. } => match status {
                Ok(_) => Ok(Seq::empty()),
                Err(e) => Err(e),
            },
            Transfer::WriteRead { reply, .. } => reply,
        }
    }

    /// The record of a write-then-read transfer into a buffer of `len` bytes, whose
    /// bus call gave `status` and left `buffer` behind.
    pub open spec fn write_read(
        address: u8,
        bytes: Seq<u8>,
        len: nat,
        status: Result<(), E>,
        buffer: Seq<u8>,
    ) -> Self {
        Transfer::WriteRead {
            address,
            bytes,
            len,
            reply: match status {
                Ok(_) => Ok(buffer),
                Err(e) => Err(e),
            },
        }
    }

    /// The record of a write transfer whose bus call gave `status`.
    pub open spec fn write(address: u8, bytes: Seq<u8>, status: Result<(), E>) -> Self {
        Transfer::Write { address, bytes, status }
    }

    pub open spec fn succeeded(self) -> bool {
        self.outcome() is Ok
    }

    /// A write of `value` into register `reg` of the sensor.
    pub open spec fn writes(self, reg: u8, value: u8) -> bool {
        &&& self matches Transfer::Write { address, bytes, .. }
        &&& address == Registers::SLAVE_ADDR.spec_addr()
        &&& bytes == seq![reg, value]
    }

    /// A read of one byte from register `reg` of the sensor.
    pub open spec fn reads(self, reg: u8) -> bool {
        &&& self matches Transfer::WriteRead { address, bytes, len, reply }
        &&& address == Registers::SLAVE_ADDR.spec_addr()
        &&& bytes == seq![reg]
        &&& len == 1
        &&& reply matches Ok(r) ==> r.len() == 1
    }
}

/// A bus together with the record of every call made on it. The bus is reached
/// only through the two methods below, each of which makes one call and records it.
pub(crate) struct LoggedBus<I: I2c> {
    bus: I,
    log: Ghost<Seq<Transfer<I::Error>>>,
}

impl<I: I2c> LoggedBus<I> {
    pub(crate) closed spec fn bus(&self) -> I {
        self.bus
    }

    pub(crate) closed spec fn log(&self) -> Seq<Transfer<I::Error>> {
        self.log@
    }

    pub(crate) fn new(bus: I) -> (r: Self)
        ensures
            r.bus() == bus,
            r.log() == Seq::<Transfer<I::Error>>::empty(),
    {
        LoggedBus { bus, log: Ghost(Seq::empty()) }
    }

    /// Sends `bytes` to `address` and records the call.
    pub(crate) fn write(&mut self, address: u8, bytes: &[u8]) -> (r: Result<(), I::Error>)
        ensures
            final(self).log() == old(self).log().push(Transfer::write(address, bytes@, r)),
    {
        let r = self.bus.write(address, bytes);
        self.log = Ghost(self.log@.push(Transfer::write(address, bytes@, r)));
        r
    }

    /// Sends `bytes` to `address`, reads into `buffer`, and records the call.
    pub(crate) fn write_read<const N: usize>(
        &mut self,
        address: u8,
        bytes: &[u8],
        buffer: &mut [u8; N],
    ) -> (r: Result<(), I::Error>)
        ensures
            final(self).log() == old(self).log().push(
                Transfer::write_read(address, bytes@, N as nat, r, final(buffer)@),
            ),
    {
        let r = self.bus.write_read(address, bytes, buffer);
        self.log = Ghost(
            self.log@.push(Transfer::write_read(address, bytes@, N as nat, r, buffer@)),
        );
        r
    }
}

} // verus!
