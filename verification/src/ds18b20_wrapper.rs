//! The DS18B20 water-bath thermometer: which devices are accepted, how a
//! scratchpad is checked and decoded, and when a measurement gives up.
//!
//! The bus itself is driven by the caller. One trial is: start a conversion,
//! wait for it, read the nine bytes of the scratchpad, and hand them to
//! [`Ds18b20Wrapper::measurement`], which says whether to try again.
use vstd::prelude::*;
use crate::fixed::{nearest_tenths, round_to_tenths};

verus! {

/// Family code of the DS18B20, the first byte of its address.
pub const FAMILY_CODE: u8 = 0x28;

/// Trials that one measurement makes at most.
pub const MAX_TRIALS: u8 = 20;

/// What a measurement reports when every trial failed: 100 degrees Celsius,
/// in sixteenths of a degree.
pub const FAILED_READING: i16 = 1600;

/// What stands for the water bath's temperature where no probe is fitted:
/// 19.8 degrees Celsius, in tenths of a degree.
pub const DUMMY_WATER_TEMP: i32 = 198;

/// The device's address does not begin with the DS18B20 family code.
#[derive(Clone, Copy, Debug, PartialEq, Eq, Structural)]
pub struct WrongFamily {
    /// The family code that the address carries.
    pub actual: u8,
}

/// What one trial of a measurement led to.
#[derive(Clone, Copy, Debug, PartialEq, Eq, Structural)]
pub enum Trial {
    /// The scratchpad was not usable: start another conversion.
    Again,
    /// The measurement is over.
    Done {
        /// The temperature in sixteenths of a degree Celsius;
        /// [`FAILED_READING`] when no trial succeeded.
        sixteenths: i16,
        /// Trials made, this one included.
        trials: u8,
    },
}

/// A DS18B20 on the bus, known by its address.
#[derive(Clone, Copy, Debug)]
pub struct Ds18b20Wrapper {
    address: [u8; 8],
}

/// The checksum that `onewire` computes over a device address followed by
/// data read from that device.
pub uninterp spec fn wire_crc(address: Seq<u8>, data: Seq<u8>) -> u8;

/// `onewire::ensure_correct_rcr8`: whether the checksum that the crate
/// computes over the device address and the data equals `crc`.
#[verifier::external_body]
fn crc_matches(address: &[u8; 8], data: &[u8; 8], crc: u8) -> (ok: bool)
    ensures
        ok == (wire_crc(address@, data@) == crc),
{
    let device = onewire::Device { address: *address };
    onewire::ensure_correct_rcr8::<core::convert::Infallible>(&device, data, crc).is_ok()
}

/// The sixteen-bit reading as the signed number it encodes in two's
/// complement.
pub open spec fn signed(raw: u16) -> int {
    if raw < 0x8000 {
        raw as int
    } else {
        raw - 0x10000
    }
}

/// Raw readings and temperatures correspond one to one: a reading stands
/// for a whole number of sixteenths that fits into sixteen bits with sign,
/// two readings for the same temperature are the same reading, and every
/// such temperature has its reading.
pub proof fn lemma_raw_reading_one_to_one(a: u16, b: u16, sixteenths: int)
    ensures
        -0x8000 <= signed(a) <= 0x7fff,
        signed(a) == signed(b) ==> a == b,
        -0x8000 <= sixteenths <= 0x7fff ==> exists|raw: u16| signed(raw) == sixteenths,
{
    if -0x8000 <= sixteenths <= 0x7fff {
        let raw: u16 = if sixteenths < 0 {
            (sixteenths + 0x10000) as u16
        } else {
            sixteenths as u16
        };
        assert(signed(raw) == sixteenths);
    }
}

/// The reading that a scratchpad carries in its first two bytes, low byte
/// first.
pub open spec fn raw_reading(scratchpad: Seq<u8>) -> u16 {
    (scratchpad[1] * 256 + scratchpad[0]) as u16
}

/// Whether the ninth byte of a scratchpad is the checksum of the other eight.
pub open spec fn scratchpad_valid(address: Seq<u8>, scratchpad: Seq<u8>) -> bool {
    wire_crc(address, scratchpad.subrange(0, 8)) == scratchpad[8]
}

/// What a trial leads to, given the trials made before it and what the read
/// returned: a scratchpad with a matching checksum ends the measurement with
/// its reading; anything else asks for another trial, until the twentieth
/// ends the measurement with [`FAILED_READING`].
pub open spec fn trial_outcome(address: Seq<u8>, before: u8, read: Option<[u8; 9]>) -> Trial {
    if read is Some && scratchpad_valid(address, read->0@) {
        Trial::Done {
            sixteenths: signed(raw_reading(read->0@)) as i16,
            trials: if before < 20 {
                (before + 1) as u8
            } else {
                20
            },
        }
    } else if before >= 19 {
        Trial::Done { sixteenths: 1600, trials: 20 }
    } else {
        Trial::Again
    }
}

/// A temperature in sixteenths of a degree, rounded to tenths of a degree.
pub fn sixteenths_to_tenths(sixteenths: i16) -> (r: i32)
    ensures
        r == nearest_tenths(sixteenths as int, 16),
{
    round_to_tenths(sixteenths as i32, 16)
}

impl View for Ds18b20Wrapper {
    type V = Seq<u8>;

    closed spec fn view(&self) -> Seq<u8> {
        self.address@
    }
}

impl Ds18b20Wrapper {
    /// Accepts a device whose address begins with the DS18B20 family code.
    pub fn new(address: [u8; 8]) -> (r: Result<Self, WrongFamily>)
        ensures
            match r {
                Ok(dev) => address[0] == 0x28 && dev@ == address@,
                Err(e) => address[0] != 0x28 && e.actual == address[0],
            },
    {
        if address[0] != FAMILY_CODE {
            Err(WrongFamily { actual: address[0] })
        } else {
            Ok(Ds18b20Wrapper { address })
        }
    }

    /// The device's address.
    pub fn address(&self) -> (r: [u8; 8])
        ensures
            r@ == self@,
    {
        self.address
    }

    /// The temperature that a raw reading stands for, in sixteenths of a
    /// degree Celsius: the reading taken as a signed number.
    pub fn raw_to_cel(&self, raw: u16) -> (r: i16)
        ensures
            r == signed(raw),
    {
        if raw < 0x8000 {
            raw as i16
        } else {
            (raw as i32 - 0x10000) as i16
        }
    }

    /// Whether the checksum of a scratchpad matches.
    pub fn check_scratchpad(&self, scratchpad: &[u8; 9]) -> (ok: bool)
        ensures
            ok == scratchpad_valid(self@, scratchpad@),
    {
        let data: [u8; 8] = [
            scratchpad[0],
            scratchpad[1],
            scratchpad[2],
            scratchpad[3],
            scratchpad[4],
            scratchpad[5],
            scratchpad[6],
            scratchpad[7],
        ];
        assert(data@ =~= scratchpad@.subrange(0, 8));
        crc_matches(&self.address, &data, scratchpad[8])
    }

    /// Judges one trial of a measurement. `before` is the number of trials
    /// already made, and `read` the scratchpad that this trial read, `None`
    /// when the bus reported an error.
    pub fn measurement(&self, before: u8, read: Option<[u8; 9]>) -> (r: Trial)
        ensures
            r == trial_outcome(self@, before, read),
    {
        if let Some(scratchpad) = read {
            if self.check_scratchpad(&scratchpad) {
                let raw: u16 = scratchpad[1] as u16 * 256 + scratchpad[0] as u16;
                return Trial::Done {
                    sixteenths: self.raw_to_cel(raw),
                    trials: if before < MAX_TRIALS {
                        before + 1
                    } else {
                        MAX_TRIALS
                    },
                };
            }
        }
        if before >= MAX_TRIALS - 1 {
            Trial::Done { sixteenths: FAILED_READING, trials: MAX_TRIALS }
        } else {
            Trial::Again
        }
    }
}

} // verus!
