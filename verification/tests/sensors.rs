use sauna_monitor::decimal::append_tenths;
use sauna_monitor::ds18b20_wrapper::{
    sixteenths_to_tenths, Ds18b20Wrapper, Trial, WrongFamily, FAILED_READING, FAMILY_CODE,
    MAX_TRIALS,
};
use sauna_monitor::env_ii_sensor::{I2cError, MEASURE_COMMAND, SCALE, SHT3X};

const ADDRESS: [u8; 8] = [0x28, 0xFF, 0x4B, 0x46, 0x7F, 0xFF, 0x0C, 0xAA];
const POWER_ON: [u8; 9] = [0x50, 0x05, 0x4B, 0x46, 0x7F, 0xFF, 0x0C, 0x10, 0x1C];

fn probe() -> Ds18b20Wrapper {
    Ds18b20Wrapper::new(ADDRESS).unwrap()
}

fn celsius(sixteenths: i16) -> f32 {
    sixteenths as f32 * 0.0625
}

#[test]
fn raw_reading_is_signed_sixteenths() {
    let ds = probe();
    assert_eq!(ds.raw_to_cel(0xFFF8), -8);
    assert_eq!(ds.raw_to_cel(0x0190), 400);
    assert_eq!(ds.raw_to_cel(0x07D0), 2000);
    assert_eq!(ds.raw_to_cel(0xFC90), -880);
    assert_eq!(celsius(ds.raw_to_cel(0xFFF8)), -0.5);
    assert_eq!(celsius(ds.raw_to_cel(0x0190)), 25.0);
    assert_eq!(celsius(ds.raw_to_cel(0x07D0)), 125.0);
    assert_eq!(celsius(ds.raw_to_cel(0xFC90)), -55.0);
}

#[test]
fn raw_reading_agrees_with_sixteen_bit_cast() {
    let ds = probe();
    for raw in 0..=0xFFFFu16 {
        assert_eq!(ds.raw_to_cel(raw), raw as i16);
    }
    assert_eq!(ds.raw_to_cel(0x7FFF), 32767);
    assert_eq!(ds.raw_to_cel(0x8000), -32768);
    assert_eq!(ds.raw_to_cel(0xFFFF), -1);
}

#[test]
fn only_the_family_code_is_accepted() {
    assert_eq!(FAMILY_CODE, 0x28);
    assert_eq!(probe().address(), ADDRESS);
    let mut other = ADDRESS;
    other[0] = 0x10;
    assert_eq!(Ds18b20Wrapper::new(other).err(), Some(WrongFamily { actual: 0x10 }));
}

#[test]
fn scratchpad_checksum_of_reference_vector() {
    let ds = probe();
    assert!(ds.check_scratchpad(&POWER_ON));
    for wrong in [0x00u8, 0x1D, 0xAD, 0xC9, 0xFF] {
        let mut pad = POWER_ON;
        pad[8] = wrong;
        assert!(!ds.check_scratchpad(&pad));
    }
    let mut flipped = POWER_ON;
    flipped[3] ^= 0x01;
    assert!(!ds.check_scratchpad(&flipped));
}

#[test]
fn valid_scratchpad_ends_the_measurement() {
    let ds = probe();
    assert_eq!(ds.measurement(0, Some(POWER_ON)), Trial::Done { sixteenths: 1360, trials: 1 });
    let pad = [0x91, 0x01, 0x4B, 0x46, 0x7F, 0xFF, 0x0F, 0x10, 0x25];
    assert_eq!(ds.measurement(3, Some(pad)), Trial::Done { sixteenths: 401, trials: 4 });
    let pad = [0xF8, 0xFF, 0x4B, 0x46, 0x7F, 0xFF, 0x08, 0x10, 0xF8];
    assert_eq!(ds.measurement(19, Some(pad)), Trial::Done { sixteenths: -8, trials: 20 });
}

#[test]
fn fifth_trial_succeeds_after_four_bad_checksums() {
    let ds = probe();
    let mut bad = POWER_ON;
    bad[8] = 0xC9;
    let reads = [bad, bad, bad, bad, POWER_ON];
    let mut before: u8 = 0;
    let outcome = loop {
        match ds.measurement(before, Some(reads[before as usize])) {
            Trial::Again => before += 1,
            done => break done,
        }
    };
    assert_eq!(outcome, Trial::Done { sixteenths: 1360, trials: 5 });
    assert_eq!(celsius(1360), 85.0);
}

#[test]
fn twenty_failed_trials_give_the_failed_reading() {
    let ds = probe();
    assert_eq!(MAX_TRIALS, 20);
    let mut bad = POWER_ON;
    bad[0] ^= 0xFF;
    let mut before: u8 = 0;
    let outcome = loop {
        let read = if before % 2 == 0 { Some(bad) } else { None };
        match ds.measurement(before, read) {
            Trial::Again => before += 1,
            done => break done,
        }
    };
    assert_eq!(before, 19);
    assert_eq!(outcome, Trial::Done { sixteenths: FAILED_READING, trials: 20 });
    assert_eq!(celsius(FAILED_READING), 100.0);
    assert_eq!(ds.measurement(200, None), Trial::Done { sixteenths: 1600, trials: 20 });
}

#[test]
fn sixteenths_round_to_the_nearest_tenth() {
    assert_eq!(sixteenths_to_tenths(0), 0);
    assert_eq!(sixteenths_to_tenths(1360), 850);
    assert_eq!(sixteenths_to_tenths(400), 250);
    assert_eq!(sixteenths_to_tenths(401), 251);
    assert_eq!(sixteenths_to_tenths(-8), -5);
    assert_eq!(sixteenths_to_tenths(-880), -550);
    assert_eq!(sixteenths_to_tenths(1), 1);
    assert_eq!(sixteenths_to_tenths(-1), -1);
    assert_eq!(sixteenths_to_tenths(FAILED_READING), 1000);
    assert_eq!(sixteenths_to_tenths(i16::MAX), 20479);
    assert_eq!(sixteenths_to_tenths(i16::MIN), -20480);
}

#[test]
fn sixteenths_halfway_round_to_the_even_tenth() {
    assert_eq!(sixteenths_to_tenths(4), 2);
    assert_eq!(sixteenths_to_tenths(12), 8);
    assert_eq!(sixteenths_to_tenths(20), 12);
    assert_eq!(sixteenths_to_tenths(-4), -2);
    assert_eq!(sixteenths_to_tenths(-12), -8);
    assert_eq!(sixteenths_to_tenths(-20), -12);
}

#[test]
fn tenths_read_like_a_float_with_one_decimal() {
    for raw in 0..=0xFFFFu16 {
        let sixteenths = raw as i16;
        let mut text: heapless::String<256> = heapless::String::new();
        append_tenths(&mut text, sixteenths_to_tenths(sixteenths)).unwrap();
        assert_eq!(text.as_str(), format!("{:.1}", celsius(sixteenths)));
    }
}

#[test]
fn sht3x_decodes_temperature_and_humidity() {
    let mut sht = SHT3X::new(0x44);
    assert_eq!(sht.address(), 0x44);
    assert_eq!(MEASURE_COMMAND, [0x2C, 0x06]);
    assert_eq!(SCALE, 65535);
    assert_eq!((sht.get_temp(), sht.get_humid()), (0, 0));
    assert_eq!(sht.measure(Some([0x66, 0x3A, 0x00, 0x80, 0x00, 0x00])), Ok(()));
    // -45 + 175 * 26170 / 65535 = 24.88..., 100 * 32768 / 65535 = 50.0007...
    assert_eq!(sht.get_temp(), 249);
    assert_eq!(sht.get_humid(), 500);
    let t = -45.0 + 175.0 * 26170.0 / 65535.0f32;
    let h = 100.0 * 32768.0 / 65535.0f32;
    assert!((sht.get_temp() as f32 / 10.0 - t).abs() <= 0.05);
    assert!((sht.get_humid() as f32 / 10.0 - h).abs() <= 0.05);
    assert!((sht.get_humid() as f32 / 10.0 - 50.0).abs() < 0.1);
}

#[test]
fn sht3x_exact_values_at_the_ends_of_the_range() {
    let mut sht = SHT3X::new(0x44);
    sht.measure(Some([0x00, 0x00, 0xAB, 0x00, 0x00, 0xCD])).unwrap();
    assert_eq!((sht.get_temp(), sht.get_humid()), (-450, 0));
    sht.measure(Some([0xFF, 0xFF, 0, 0xFF, 0xFF, 0])).unwrap();
    assert_eq!((sht.get_temp(), sht.get_humid()), (1300, 1000));
    sht.measure(Some([0x66, 0x66, 0, 0x80, 0x00, 0])).unwrap();
    assert_eq!(sht.get_temp(), 250);
    sht.measure(Some([0x00, 0x01, 0, 0x00, 0x21, 0])).unwrap();
    // 175 / 65535 = 0.0027 above -45; 3300 / 65535 = 0.0503...
    assert_eq!((sht.get_temp(), sht.get_humid()), (-450, 1));
}

#[test]
fn sht3x_readings_are_the_nearest_tenths() {
    let mut sht = SHT3X::new(0x44);
    for raw in (0..=0xFFFFu32).step_by(7) {
        let bytes = [(raw >> 8) as u8, raw as u8, 0, (raw >> 8) as u8, raw as u8, 0];
        sht.measure(Some(bytes)).unwrap();
        let t = 10 * (175 * raw as i64 - 45 * 65535);
        let h = 10 * (100 * raw as i64);
        assert!(2 * (t - sht.get_temp() as i64 * 65535).abs() <= 65535);
        assert!(2 * (h - sht.get_humid() as i64 * 65535).abs() <= 65535);
    }
}

#[test]
fn sht3x_bus_error_keeps_previous_readings() {
    let mut sht = SHT3X::new(0x44);
    sht.measure(Some([0x66, 0x3A, 0x00, 0x80, 0x00, 0x00])).unwrap();
    assert_eq!(sht.measure(None), Err(I2cError));
    assert_eq!(sht.get_temp(), 249);
    assert_eq!(sht.get_humid(), 500);
}
