use ruuvi_exporter::data::{log_sensor, modio_log_sensor, DecidedSensorState, DecodedSensor};
use ruuvi_exporter::prom::{register_sensor, Axis, PromMetric, PromSample};
use ruuvi_exporter::reading::{from_manuf, SensorReading};
use ruuvi_exporter::text::format_decimal;

const V5: [u8; 24] = [
    0x05, 0x12, 0xFC, 0x53, 0x94, 0xC3, 0x7C, 0x00, 0x04, 0xFF, 0xFC, 0x04, 0x0C, 0xAC, 0x36,
    0x42, 0x00, 0xCD, 0xCB, 0xB8, 0x33, 0x4C, 0x88, 0x4F,
];
const V3: [u8; 14] = [
    0x03, 0x17, 0x01, 0x45, 0x35, 0x58, 0x03, 0xE8, 0x04, 0xE7, 0x05, 0xE6, 0x08, 0x86,
];

fn v5_reading() -> SensorReading {
    from_manuf(&vec![(0x0499, V5.to_vec())]).unwrap()
}

fn v3_reading() -> SensorReading {
    from_manuf(&vec![(0x0499, V3.to_vec())]).unwrap()
}

fn triple(a: &str, b: &str, c: &str) -> (String, String, String) {
    (a.to_string(), b.to_string(), c.to_string())
}

#[test]
fn decodes_format_5() {
    let r = v5_reading();
    assert_eq!(
        r,
        SensorReading {
            humidity_ppm: Some(534_900),
            temperature_millicelsius: Some(24_300),
            pressure_pa: Some(100_044),
            acceleration_milli_g: Some((4, -4, 1036)),
            battery_millivolts: Some(2977),
            tx_power_dbm: Some(4),
            movement_counter: Some(66),
            mac: Some([0xCB, 0xB8, 0x33, 0x4C, 0x88, 0x4F]),
        }
    );
}

#[test]
fn decodes_format_3() {
    let r = v3_reading();
    assert_eq!(r.humidity_ppm, Some(115_000));
    assert_eq!(r.temperature_millicelsius, Some(1690));
    assert_eq!(r.pressure_pa, Some(63656));
    assert_eq!(r.acceleration_milli_g, Some((1000, 1255, 1510)));
    assert_eq!(r.battery_millivolts, Some(2182));
    assert_eq!(r.tx_power_dbm, None);
    assert_eq!(r.movement_counter, None);
    assert_eq!(r.mac, None);
}

#[test]
fn from_manuf_rejects_what_does_not_decode() {
    assert_eq!(from_manuf(&vec![]), None);
    assert_eq!(from_manuf(&vec![(0x0477, V5.to_vec())]), None);
    assert_eq!(from_manuf(&vec![(0x0499, vec![])]), None);
    assert_eq!(from_manuf(&vec![(0x0499, vec![7, 1, 2, 3])]), None);
    assert_eq!(from_manuf(&vec![(0x0499, V5[..10].to_vec())]), None);
}

#[test]
fn from_manuf_takes_first_entry_that_decodes() {
    let entries = vec![(0x004C, vec![0x12, 0x02]), (0x0499, V3.to_vec()), (0x0499, V5.to_vec())];
    assert_eq!(from_manuf(&entries), Some(v3_reading()));
    let entries = vec![(0x0499, vec![0x05]), (0x0499, V5.to_vec())];
    assert_eq!(from_manuf(&entries), Some(v5_reading()));
}

#[test]
fn decoder_walks_all_values_of_format_5() {
    let r = v5_reading();
    let mut d = DecodedSensor::new(&r);
    assert_eq!(d.next(), Some(triple("humidity", "53.49", "/")));
    assert_eq!(d.next(), Some(triple("pressure", "100044", "Pa")));
    assert_eq!(d.next(), Some(triple("temperature", "24.3", "Cel")));
    assert_eq!(d.next(), Some(triple("volts", "2.977", "V")));
    assert_eq!(d.next(), Some(triple("txpow", "4", "dBm")));
    assert_eq!(d.next(), Some(triple("movement", "66", "count")));
    assert_eq!(d.next(), Some(triple("accel_x", "0.004", "g")));
    assert_eq!(d.next(), Some(triple("accel_y", "-0.004", "g")));
    assert_eq!(d.next(), Some(triple("accel_z", "1.036", "g")));
    assert_eq!(d.state, DecidedSensorState::Done);
    assert_eq!(d.next(), None);
    assert_eq!(d.next(), None);
    assert_eq!(d.state, DecidedSensorState::Done);
}

#[test]
fn decoder_entries_stop_at_first_missing_value() {
    let r = v3_reading();
    let mut d = DecodedSensor::new(&r);
    let es = d.entries();
    assert_eq!(
        es,
        vec![
            triple("humidity", "11.5", "/"),
            triple("pressure", "63656", "Pa"),
            triple("temperature", "1.69", "Cel"),
            triple("volts", "2.182", "V"),
        ]
    );
    // the missing transmitter power moved the decoder past it
    assert_eq!(d.state, DecidedSensorState::Movement);
}

#[test]
fn decoder_mac_is_compact_hex() {
    let r = v5_reading();
    assert_eq!(DecodedSensor::new(&r).mac(), Some("CBB8334C884F".to_string()));
    assert_eq!(DecodedSensor::new(&v3_reading()).mac(), None);
}

#[test]
fn state_names_and_units() {
    assert_eq!(DecidedSensorState::Humidity.as_str(), "humidity");
    assert_eq!(DecidedSensorState::AccelZ.as_str(), "accel_z");
    assert_eq!(DecidedSensorState::Done.as_str(), "__done");
    assert_eq!(DecidedSensorState::Humidity.senml_str(), "/");
    assert_eq!(DecidedSensorState::Temperature.senml_str(), "Cel");
    assert_eq!(DecidedSensorState::Done.senml_str(), "");
    assert_eq!(DecidedSensorState::AccelZ.next_state(), DecidedSensorState::Done);
    assert_eq!(DecidedSensorState::Done.next_state(), DecidedSensorState::Done);
}

#[test]
fn decode_gives_scaled_integers() {
    let r = v5_reading();
    let mut d = DecodedSensor::new(&r);
    assert_eq!(d.decode(), Some((534_900, 4)));
    d.state = DecidedSensorState::AccelY;
    assert_eq!(d.decode(), Some((-4, 3)));
    d.state = DecidedSensorState::Done;
    assert_eq!(d.decode(), None);
}

#[test]
fn log_sensor_needs_a_mac() {
    let (mac, es) = log_sensor(&v5_reading()).unwrap();
    assert_eq!(mac, "CBB8334C884F");
    assert_eq!(es.len(), 9);
    assert_eq!(log_sensor(&v3_reading()), None);
}

#[test]
fn modio_keys_carry_mac_and_name() {
    let records = modio_log_sensor(&v5_reading());
    assert_eq!(records.len(), 9);
    assert_eq!(records[0], ("ruuvi.CBB8334C884F.humidity".to_string(), "53.49".to_string()));
    assert_eq!(records[8], ("ruuvi.CBB8334C884F.accel_z".to_string(), "1.036".to_string()));
    assert!(modio_log_sensor(&v3_reading()).is_empty());
}

#[test]
fn prometheus_samples_of_format_5() {
    let u = register_sensor(&v5_reading()).unwrap();
    assert_eq!(u.mac, "CB:B8:33:4C:88:4F");
    let s = |metric, raw, scale| PromSample { metric, raw, scale };
    assert_eq!(
        u.samples,
        vec![
            s(PromMetric::Humidity, 534_900, 4),
            s(PromMetric::Pressure, 100_044, 0),
            s(PromMetric::Temperature, 24_300, 3),
            s(PromMetric::BatteryPotential, 2977, 3),
            s(PromMetric::TxPower, 4, 0),
            s(PromMetric::Movement, 66, 0),
            s(PromMetric::Acceleration(Axis::X), 4, 3),
            s(PromMetric::Acceleration(Axis::Y), -4, 3),
            s(PromMetric::Acceleration(Axis::Z), 1036, 3),
        ]
    );
    assert!(register_sensor(&v3_reading()).is_none());
}

#[test]
fn decimal_text_edge_cases() {
    assert_eq!(format_decimal(0, 3), "0");
    assert_eq!(format_decimal(-500, 3), "-0.5");
    assert_eq!(format_decimal(250_000, 4), "25");
    assert_eq!(format_decimal(1, 4), "0.0001");
    assert_eq!(format_decimal(-1234, 0), "-1234");
    assert_eq!(format_decimal(i64::MIN, 0), "-9223372036854775808");
    assert_eq!(format_decimal(4_294_967_295, 4), "429496.7295");
}

#[test]
fn decimal_text_matches_float_display() {
    let mut n: i64 = -40_000_000;
    while n < 40_000_000 {
        for (scale, div) in [(0u32, 1.0f64), (3, 1000.0), (4, 10000.0)] {
            assert_eq!(format_decimal(n, scale), (n as f64 / div).to_string());
        }
        n += 7_919;
    }
    for n in [u32::MAX as i64, i32::MIN as i64, i16::MIN as i64, 273_150] {
        for (scale, div) in [(0u32, 1.0f64), (3, 1000.0), (4, 10000.0)] {
            assert_eq!(format_decimal(n, scale), (n as f64 / div).to_string());
        }
    }
}
