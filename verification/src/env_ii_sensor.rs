//! The SHT3x ambient sensor: the command that starts a measurement and what
//! the six bytes of its answer mean.
//!
//! Readings are kept as whole numbers of 1/65535 of their unit, in which the
//! sensor's conversion formulas are exact, and handed out in tenths.
use vstd::prelude::*;
use crate::fixed::{lemma_nearest_tenths_is_near, nearest_tenths, round_to_tenths};

verus! {

/// The command for one measurement at high repeatability with clock
/// stretching.
pub const MEASURE_COMMAND: [u8; 2] = [0x2C, 0x06];

/// Parts that one degree Celsius, and one percent of humidity, are divided
/// into.
pub const SCALE: u16 = 65535;

/// The bus did not deliver the sensor's answer.
#[derive(Clone, Copy, Debug, PartialEq, Eq, Structural)]
pub struct I2cError;

/// An SHT3x at an I2C address, with the readings of its last measurement.
#[derive(Clone, Copy, Debug)]
pub struct SHT3X {
    address: u8,
    c_temp: i32,
    humid: u32,
}

/// The state of the sensor's driver as plain values.
pub struct Sht3xState {
    pub address: u8,
    /// Temperature in 1/65535 degree Celsius.
    pub c_temp: int,
    /// Relative humidity in 1/65535 percent.
    pub humid: int,
}

/// The sixteen-bit word that two bytes carry, high byte first.
pub open spec fn word(high: u8, low: u8) -> int {
    high * 256 + low
}

/// The temperature that a raw word stands for, in 1/65535 degree Celsius:
/// `-45 + 175 * raw / 65535` degrees.
pub open spec fn temperature_of(raw: int) -> int {
    175 * raw - 45 * 65535
}

/// The relative humidity that a raw word stands for, in 1/65535 percent:
/// `100 * raw / 65535` percent.
pub open spec fn humidity_of(raw: int) -> int {
    100 * raw
}

impl View for SHT3X {
    type V = Sht3xState;

    closed spec fn view(&self) -> Sht3xState {
        Sht3xState {
            address: self.address,
            c_temp: self.c_temp as int,
            humid: self.humid as int,
        }
    }
}

/// What the readings of every driver satisfy: the humidity lies between 0
/// and 100 percent, the temperature between -45 and 130 degrees.
pub open spec fn in_range(s: Sht3xState) -> bool {
    &&& 0 <= s.humid <= 100 * 65535
    &&& -45 * 65535 <= s.c_temp <= 130 * 65535
}

impl SHT3X {
    #[verifier::type_invariant]
    closed spec fn inv(self) -> bool {
        in_range(self@)
    }

    /// A driver for the sensor at `addr`. Before the first measurement both
    /// readings are zero.
    pub fn new(addr: u8) -> (r: Self)
        ensures
            r@ == (Sht3xState { address: addr, c_temp: 0, humid: 0 }),
    {
        SHT3X { address: addr, c_temp: 0, humid: 0 }
    }

    /// The sensor's I2C address.
    pub fn address(&self) -> (r: u8)
        ensures
            r == self@.address,
    {
        self.address
    }

    /// Takes in what the bus returned for a measurement: the six bytes of the
    /// sensor's answer, or `None` when the write or the read failed. An
    /// answer replaces both readings; its third and sixth byte, the
    /// checksums, are not looked at. A failure leaves the readings as they
    /// were and is reported.
    pub fn measure(&mut self, rdata: Option<[u8; 6]>) -> (r: Result<(), I2cError>)
        ensures
            match rdata {
                Some(bytes) => r is Ok && final(self)@ == (Sht3xState {
                    address: old(self)@.address,
                    c_temp: temperature_of(word(bytes[0], bytes[1])),
                    humid: humidity_of(word(bytes[3], bytes[4])),
                }),
                None => r is Err && final(self)@ == old(self)@,
            },
    {
        proof {
            use_type_invariant(&*self);
        }
        match rdata {
            Some(bytes) => {
                let raw_temp: i32 = bytes[0] as i32 * 256 + bytes[1] as i32;
                let raw_humid: u32 = bytes[3] as u32 * 256 + bytes[4] as u32;
                self.c_temp = 175 * raw_temp - 45 * 65535;
                self.humid = 100 * raw_humid;
                Ok(())
            },
            None => Err(I2cError),
        }
    }

    /// The last temperature in tenths of a degree Celsius, between -45 and
    /// 130 degrees.
    pub fn get_temp(&self) -> (r: i32)
        ensures
            r == nearest_tenths(self@.c_temp, 65535),
            -450 <= r <= 1300,
    {
        proof {
            use_type_invariant(self);
            lemma_nearest_tenths_is_near(self@.c_temp, 65535);
        }
        round_to_tenths(self.c_temp, SCALE)
    }

    /// The last relative humidity in tenths of a percent, between 0 and 100
    /// percent.
    pub fn get_humid(&self) -> (r: i32)
        ensures
            r == nearest_tenths(self@.humid, 65535),
            0 <= r <= 1000,
    {
        proof {
            use_type_invariant(self);
            lemma_nearest_tenths_is_near(self@.humid, 65535);
        }
        round_to_tenths(self.humid as i32, SCALE)
    }
}

} // verus!
