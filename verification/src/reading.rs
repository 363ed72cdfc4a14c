//! Sensor readings decoded from RuuviTag manufacturer data.
use vstd::prelude::*;

use ruuvi_sensor_protocol::{
    Acceleration, BatteryPotential, Humidity, MacAddress, MovementCounter, Pressure,
    SensorValues, Temperature, TransmitterPower,
};

verus! {

/// The values that one RuuviTag advertisement carries, each where the sensor reported it.
#[derive(Clone, Copy, Debug, PartialEq, Eq)]
pub struct SensorReading {
    /// Relative humidity in parts per million.
    pub humidity_ppm: Option<u32>,
    /// Temperature in thousandths of a degree Celsius.
    pub temperature_millicelsius: Option<i32>,
    /// Pressure in pascals.
    pub pressure_pa: Option<u32>,
    /// Acceleration along the x, y and z axes in thousandths of g.
    pub acceleration_milli_g: Option<(i16, i16, i16)>,
    /// Battery potential in millivolts.
    pub battery_millivolts: Option<u16>,
    /// Transmitter power in dBm.
    pub tx_power_dbm: Option<i8>,
    /// Movement counter.
    pub movement_counter: Option<u32>,
    /// MAC address of the sensor.
    pub mac: Option<[u8; 6]>,
}

/// The Bluetooth manufacturer id of Ruuvi Innovations.
pub const RUUVI_MANUFACTURER_ID: u16 = 0x0499;

/// The length, format byte included, of the manufacturer data of each data format that
/// the decoder supports (formats 3, 5, 6 and E1).
pub open spec fn format_length(version: u8) -> Option<nat> {
    if version == 3 {
        Some(14)
    } else if version == 5 {
        Some(24)
    } else if version == 6 {
        Some(20)
    } else if version == 0xE1 {
        Some(40)
    } else {
        None
    }
}

/// Whether manufacturer data decodes: the Ruuvi manufacturer id, and a supported format
/// byte followed by exactly that format's payload.
pub open spec fn decodes(id: u16, data: Seq<u8>) -> bool {
    &&& id == RUUVI_MANUFACTURER_ID
    &&& data.len() > 0
    &&& format_length(data[0]) == Some(data.len())
}

/// The reading that `SensorValues::from_manufacturer_specific_data` of the
/// `ruuvi_sensor_protocol` crate decodes from manufacturer data that it accepts.
pub uninterp spec fn ruuvi_sensor_values(id: u16, data: Seq<u8>) -> SensorReading;

/// Decodes one manufacturer data entry.
///
/// Trusted: wraps `SensorValues::from_manufacturer_specific_data` of
/// `ruuvi_sensor_protocol` and reads the decoded values through that crate's accessor
/// traits. Its source accepts exactly the Ruuvi id with format 3, 5, 6 or E1 and the
/// format's length, and fails on everything else; what the payload decodes to is the
/// named function `ruuvi_sensor_values`, not spelled out here.
#[verifier::external_body]
fn decode_manufacturer_data(id: u16, data: &[u8]) -> (r: Option<SensorReading>)
    ensures
        decodes(id, data@) ==> r == Some(ruuvi_sensor_values(id, data@)),
        !decodes(id, data@) ==> r is None,
{
    match SensorValues::from_manufacturer_specific_data(id, data) {
        Ok(v) => Some(SensorReading {
            humidity_ppm: v.humidity_as_ppm(),
            temperature_millicelsius: v.temperature_as_millicelsius(),
            pressure_pa: v.pressure_as_pascals(),
            acceleration_milli_g: v.acceleration_vector_as_milli_g().map(|a| (a.0, a.1, a.2)),
            battery_millivolts: v.battery_potential_as_millivolts(),
            tx_power_dbm: v.tx_power_as_dbm(),
            movement_counter: v.movement_counter(),
            mac: v.mac_address(),
        }),
        Err(_) => None,
    }
}

/// The manufacturer data entries with their bytes as sequences.
pub open spec fn manufacturer_view(entries: Seq<(u16, Vec<u8>)>) -> Seq<(u16, Seq<u8>)> {
    entries.map_values(|e: (u16, Vec<u8>)| (e.0, e.1@))
}

/// The reading of the first entry that decodes, if any does.
pub open spec fn first_reading(entries: Seq<(u16, Seq<u8>)>) -> Option<SensorReading>
    decreases entries.len(),
{
    if entries.len() == 0 {
        None
    } else if decodes(entries[0].0, entries[0].1) {
        Some(ruuvi_sensor_values(entries[0].0, entries[0].1))
    } else {
        first_reading(entries.drop_first())
    }
}

/// Finds the first entry of a device's manufacturer data that decodes as a RuuviTag
/// reading, in the order given.
pub fn from_manuf(manufacturer_data: &Vec<(u16, Vec<u8>)>) -> (r: Option<SensorReading>)
    ensures
        r == first_reading(manufacturer_view(manufacturer_data@)),
{
    let ghost all = manufacturer_view(manufacturer_data@);
    let mut i: usize = 0;
    assert(all.skip(0) =~= all);
    while i < manufacturer_data.len()
        invariant
            i <= manufacturer_data.len(),
            all == manufacturer_view(manufacturer_data@),
            first_reading(all) == first_reading(all.skip(i as int)),
        decreases manufacturer_data.len() - i,
    {
        let entry = &manufacturer_data[i];
        assert(all.skip(i as int)[0] == (entry.0, entry.1@));
        assert(all.skip(i as int).drop_first() =~= all.skip(i + 1));
        if let Some(reading) = decode_manufacturer_data(entry.0, entry.1.as_slice()) {
            return Some(reading);
        }
        i = i + 1;
    }
    assert(all.skip(i as int) =~= Seq::<(u16, Seq<u8>)>::empty());
    None
}

} // verus!
