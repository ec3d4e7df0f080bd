use vstd::prelude::*;

verus! {

/// The registers of the sensor, together with its fixed bus address.
#[allow(non_camel_case_types)]
#[derive(Copy, Clone, Debug, PartialEq, Eq, Structural)]
pub enum Registers {
    SLAVE_ADDR,
    DATA_X_LSB,
    DATA_X_MSB,
    DATA_Y_LSB,
    DATA_Y_MSB,
    DATA_Z_LSB,
    DATA_Z_MSB,
    STATUS_REG,
    TEMP_DATA_LSB,
    TEMP_DATA_MSB,
    CONTROL_REG_1,
    CONTROL_REG_2,
    SET_PERIOD_REG,
}

impl Registers {
    /// The byte that addresses this register on the device, or the device on the bus.
    pub open spec fn spec_addr(self) -> u8 {
        match self {
            Registers::SLAVE_ADDR => 0x0D,
            Registers::DATA_X_LSB => 0x00,
            Registers::DATA_X_MSB => 0x01,
            Registers::DATA_Y_LSB => 0x02,
            Registers::DATA_Y_MSB => 0x03,
            Registers::DATA_Z_LSB => 0x04,
            Registers::DATA_Z_MSB => 0x05,
            Registers::STATUS_REG => 0x06,
            Registers::TEMP_DATA_LSB => 0x07,
            Registers::TEMP_DATA_MSB => 0x08,
            Registers::CONTROL_REG_1 => 0x09,
            Registers::CONTROL_REG_2 => 0x0A,
            Registers::SET_PERIOD_REG => 0x0B,
        }
    }

    /// Looks up the address byte; it has no effect besides returning it.
    pub fn addr(&self) -> (r: u8)
        ensures
            r == self.spec_addr(),
    {
        match self {
            Registers::SLAVE_ADDR => 0x0D,
            Registers::DATA_X_LSB => 0x00,
            Registers::DATA_X_MSB => 0x01,
            Registers::DATA_Y_LSB => 0x02,
            Registers::DATA_Y_MSB => 0x03,
            Registers::DATA_Z_LSB => 0x04,
            Registers::DATA_Z_MSB => 0x05,
            Registers::STATUS_REG => 0x06,
            Registers::TEMP_DATA_LSB => 0x07,
            Registers::TEMP_DATA_MSB => 0x08,
            Registers::CONTROL_REG_1 => 0x09,
            Registers::CONTROL_REG_2 => 0x0A,
            Registers::SET_PERIOD_REG => 0x0B,
        }
    }
}

} // verus!
