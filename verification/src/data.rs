//! Turning a sensor reading into named values with units, one step at a time.
use vstd::prelude::*;

use crate::addr::{compact_hex, not_colon, Address, compact_hex_drops_colons};
use crate::reading::SensorReading;
use crate::text::{decimal_digits, decimal_text, format_decimal, pow10, push_char};

verus! {

/// The state of the decoder: the value that it reports next, or `Done`.
///
/// The states follow one another in the order in which they are declared.
#[derive(PartialEq, Eq, Structural, Clone, Copy, Debug)]
pub enum DecidedSensorState {
    Humidity,
    Pressure,
    Temperature,
    Volts,
    Txpow,
    Movement,
    AccelX,
    AccelY,
    AccelZ,
    Done,
}

impl DecidedSensorState {
    /// The name under which the state's value is reported.
    pub open spec fn name(self) -> Seq<char> {
        match self {
            DecidedSensorState::Humidity => "humidity"@,
            DecidedSensorState::Pressure => "pressure"@,
            DecidedSensorState::Temperature => "temperature"@,
            DecidedSensorState::Volts => "volts"@,
            DecidedSensorState::Txpow => "txpow"@,
            DecidedSensorState::Movement => "movement"@,
            DecidedSensorState::AccelX => "accel_x"@,
            DecidedSensorState::AccelY => "accel_y"@,
            DecidedSensorState::AccelZ => "accel_z"@,
            DecidedSensorState::Done => "__done"@,
        }
    }

    /// The SenML unit of the state's value.
    pub open spec fn unit(self) -> Seq<char> {
        match self {
            DecidedSensorState::Humidity => "/"@,
            DecidedSensorState::Pressure => "Pa"@,
            DecidedSensorState::Temperature => "Cel"@,
            DecidedSensorState::Volts => "V"@,
            DecidedSensorState::Txpow => "dBm"@,
            DecidedSensorState::Movement => "count"@,
            DecidedSensorState::AccelX => "g"@,
            DecidedSensorState::AccelY => "g"@,
            DecidedSensorState::AccelZ => "g"@,
            DecidedSensorState::Done => ""@,
        }
    }

    /// The state after this one; `Done` stays `Done`.
    pub open spec fn successor(self) -> DecidedSensorState {
        match self {
            DecidedSensorState::Humidity => DecidedSensorState::Pressure,
            DecidedSensorState::Pressure => DecidedSensorState::Temperature,
            DecidedSensorState::Temperature => DecidedSensorState::Volts,
            DecidedSensorState::Volts => DecidedSensorState::Txpow,
            DecidedSensorState::Txpow => DecidedSensorState::Movement,
            DecidedSensorState::Movement => DecidedSensorState::AccelX,
            DecidedSensorState::AccelX => DecidedSensorState::AccelY,
            DecidedSensorState::AccelY => DecidedSensorState::AccelZ,
            DecidedSensorState::AccelZ => DecidedSensorState::Done,
            DecidedSensorState::Done => DecidedSensorState::Done,
        }
    }

    /// The position of the state in the order, from 0 for `Humidity` to 9 for `Done`.
    pub open spec fn position(self) -> nat {
        match self {
            DecidedSensorState::Humidity => 0,
            DecidedSensorState::Pressure => 1,
            DecidedSensorState::Temperature => 2,
            DecidedSensorState::Volts => 3,
            DecidedSensorState::Txpow => 4,
            DecidedSensorState::Movement => 5,
            DecidedSensorState::AccelX => 6,
            DecidedSensorState::AccelY => 7,
            DecidedSensorState::AccelZ => 8,
            DecidedSensorState::Done => 9,
        }
    }

    /// The name under which the state's value is reported.
    pub fn as_str(&self) -> (r: &'static str)
        ensures
            r@ == self.name(),
    {
        match self {
            DecidedSensorState::Humidity => "humidity",
            DecidedSensorState::Pressure => "pressure",
            DecidedSensorState::Temperature => "temperature",
            DecidedSensorState::Volts => "volts",
            DecidedSensorState::Txpow => "txpow",
            DecidedSensorState::Movement => "movement",
            DecidedSensorState::AccelX => "accel_x",
            DecidedSensorState::AccelY => "accel_y",
            DecidedSensorState::AccelZ => "accel_z",
            DecidedSensorState::Done => "__done",
        }
    }

    /// The SenML unit of the state's value.
    pub fn senml_str(&self) -> (r: &'static str)
        ensures
            r@ == self.unit(),
    {
        match self {
            DecidedSensorState::Humidity => "/",
            DecidedSensorState::Pressure => "Pa",
            DecidedSensorState::Temperature => "Cel",
            DecidedSensorState::Volts => "V",
            DecidedSensorState::Txpow => "dBm",
            DecidedSensorState::Movement => "count",
            DecidedSensorState::AccelX => "g",
            DecidedSensorState::AccelY => "g",
            DecidedSensorState::AccelZ => "g",
            DecidedSensorState::Done => "",
        }
    }

    /// The state after this one; `Done` stays `Done`.
    pub fn next_state(&self) -> (r: DecidedSensorState)
        ensures
            r == self.successor(),
    {
        match self {
            DecidedSensorState::Humidity => DecidedSensorState::Pressure,
            DecidedSensorState::Pressure => DecidedSensorState::Temperature,
            DecidedSensorState::Temperature => DecidedSensorState::Volts,
            DecidedSensorState::Volts => DecidedSensorState::Txpow,
            DecidedSensorState::Txpow => DecidedSensorState::Movement,
            DecidedSensorState::Movement => DecidedSensorState::AccelX,
            DecidedSensorState::AccelX => DecidedSensorState::AccelY,
            DecidedSensorState::AccelY => DecidedSensorState::AccelZ,
            DecidedSensorState::AccelZ => DecidedSensorState::Done,
            DecidedSensorState::Done => DecidedSensorState::Done,
        }
    }
}

/// An integer reading together with the power of ten that divides it: the reported value
/// is `raw / 10^scale`.
pub open spec fn scaled(raw: int, scale: nat) -> Option<(int, nat)> {
    Some((raw, scale))
}

/// The value that a state reports for a reading, as an integer and a power of ten that
/// divides it; `None` where the reading lacks it, and always for `Done`.
/// Humidity is reported as percent relative humidity (ppm / 10^4), temperature in degrees Celsius,
/// battery potential in volts and acceleration in g (each thousandths / 10^3);
/// pressure, transmitter power and the movement counter as they are.
pub open spec fn measurement(state: DecidedSensorState, r: SensorReading) -> Option<(int, nat)> {
    match state {
        DecidedSensorState::Humidity => match r.humidity_ppm {
            Some(v) => scaled(v as int, 4),
            None => None,
        },
        DecidedSensorState::Pressure => match r.pressure_pa {
            Some(v) => scaled(v as int, 0),
            None => None,
        },
        DecidedSensorState::Temperature => match r.temperature_millicelsius {
            Some(v) => scaled(v as int, 3),
            None => None,
        },
        DecidedSensorState::Volts => match r.battery_millivolts {
            Some(v) => scaled(v as int, 3),
            None => None,
        },
        DecidedSensorState::Txpow => match r.tx_power_dbm {
            Some(v) => scaled(v as int, 0),
            None => None,
        },
        DecidedSensorState::Movement => match r.movement_counter {
            Some(v) => scaled(v as int, 0),
            None => None,
        },
        DecidedSensorState::AccelX => match r.acceleration_milli_g {
            Some(a) => scaled(a.0 as int, 3),
            None => None,
        },
        DecidedSensorState::AccelY => match r.acceleration_milli_g {
            Some(a) => scaled(a.1 as int, 3),
            None => None,
        },
        DecidedSensorState::AccelZ => match r.acceleration_milli_g {
            Some(a) => scaled(a.2 as int, 3),
            None => None,
        },
        DecidedSensorState::Done => None,
    }
}

/// The text of the value that a state reports for a reading.
pub open spec fn value_text(state: DecidedSensorState, r: SensorReading) -> Option<Seq<char>> {
    match measurement(state, r) {
        Some((raw, scale)) => Some(decimal_text(raw, scale)),
        None => None,
    }
}

/// A reported value as texts: its name, its value and its unit.
pub type Entry = (String, String, String);

/// The texts of a reported value.
pub open spec fn entry_view(e: Entry) -> (Seq<char>, Seq<char>, Seq<char>) {
    (e.0@, e.1@, e.2@)
}

/// The texts of a list of reported values.
pub open spec fn entries_view(v: Seq<Entry>) -> Seq<(Seq<char>, Seq<char>, Seq<char>)> {
    v.map_values(|e: Entry| entry_view(e))
}

/// The values that the decoder reports from a state on: one per state, in order, up to
/// the first state whose value the reading lacks, or up to `Done`.
pub open spec fn entries_from(state: DecidedSensorState, r: SensorReading) -> Seq<
    (Seq<char>, Seq<char>, Seq<char>),
>
    decreases 9 - state.position(),
{
    if state == DecidedSensorState::Done {
        seq![]
    } else {
        match value_text(state, r) {
            None => seq![],
            Some(v) => seq![(state.name(), v, state.unit())] + entries_from(state.successor(), r),
        }
    }
}

/// Walks the values of one reading: humidity, pressure, temperature, battery potential,
/// transmitter power, movement counter and the three axes of acceleration, each with its
/// name and SenML unit.
pub struct DecodedSensor {
    pub state: DecidedSensorState,
    pub sensor: SensorReading,
}

impl DecodedSensor {
    /// A decoder at the first value of a reading.
    pub fn new(sensor: &SensorReading) -> (r: DecodedSensor)
        ensures
            r.state == DecidedSensorState::Humidity,
            r.sensor == *sensor,
    {
        DecodedSensor { sensor: *sensor, state: DecidedSensorState::Humidity }
    }

    /// The sensor's MAC address as twelve upper-case hexadecimal digits, if the reading
    /// has one: the address text with its colons taken out.
    pub fn mac(&self) -> (r: Option<String>)
        ensures
            match self.sensor.mac {
                Some(m) => r matches Some(s) && s@ == compact_hex(m@),
                None => r is None,
            },
    {
        match self.sensor.mac {
            Some(m) => Some(mac_text(m)),
            None => None,
        }
    }

    /// The current value, as an integer and the power of ten that divides it.
    pub fn decode(&self) -> (r: Option<(i64, u32)>)
        ensures
            match measurement(self.state, self.sensor) {
                Some((raw, scale)) => r matches Some((v, s)) && v == raw && s == scale,
                None => r is None,
            },
    {
        let r = &self.sensor;
        match self.state {
            DecidedSensorState::Humidity => match r.humidity_ppm {
                Some(v) => Some((v as i64, 4)),
                None => None,
            },
            DecidedSensorState::Pressure => match r.pressure_pa {
                Some(v) => Some((v as i64, 0)),
                None => None,
            },
            DecidedSensorState::Temperature => match r.temperature_millicelsius {
                Some(v) => Some((v as i64, 3)),
                None => None,
            },
            DecidedSensorState::Volts => match r.battery_millivolts {
                Some(v) => Some((v as i64, 3)),
                None => None,
            },
            DecidedSensorState::Txpow => match r.tx_power_dbm {
                Some(v) => Some((v as i64, 0)),
                None => None,
            },
            DecidedSensorState::Movement => match r.movement_counter {
                Some(v) => Some((v as i64, 0)),
                None => None,
            },
            DecidedSensorState::AccelX => match r.acceleration_milli_g {
                Some(a) => Some((a.0 as i64, 3)),
                None => None,
            },
            DecidedSensorState::AccelY => match r.acceleration_milli_g {
                Some(a) => Some((a.1 as i64, 3)),
                None => None,
            },
            DecidedSensorState::AccelZ => match r.acceleration_milli_g {
                Some(a) => Some((a.2 as i64, 3)),
                None => None,
            },
            DecidedSensorState::Done => None,
        }
    }

    /// Reports the current value and moves to the next state. At `Done` it reports nothing
    /// and stays. Elsewhere it moves on whether or not the reading has the value, and
    /// reports the value's name, text and unit where it does.
    pub fn next(&mut self) -> (r: Option<Entry>)
        ensures
            final(self).sensor == old(self).sensor,
            final(self).state == old(self).state.successor(),
            old(self).state == DecidedSensorState::Done ==> r is None,
            old(self).state != DecidedSensorState::Done ==> match value_text(
                old(self).state,
                old(self).sensor,
            ) {
                Some(v) => r matches Some(e) && entry_view(e) == (
                    old(self).state.name(),
                    v,
                    old(self).state.unit(),
                ),
                None => r is None,
            },
    {
        if self.state == DecidedSensorState::Done {
            return None;
        }
        let step = self.state.as_str().to_owned();
        let unit = self.state.senml_str().to_owned();
        let val = self.decode();
        self.state = self.state.next_state();
        match val {
            Some((v, scale)) => Some((step, format_decimal(v, scale), unit)),
            None => None,
        }
    }

    /// Every value that stepping the decoder reports before it first reports nothing.
    pub fn entries(&mut self) -> (r: Vec<Entry>)
        ensures
            entries_view(r@) == entries_from(old(self).state, old(self).sensor),
            final(self).sensor == old(self).sensor,
    {
        let mut out: Vec<Entry> = Vec::new();
        loop
            invariant
                self.sensor == old(self).sensor,
                entries_view(out@) + entries_from(self.state, self.sensor) == entries_from(
                    old(self).state,
                    old(self).sensor,
                ),
            decreases 9 - self.state.position(),
        {
            let ghost before = self.state;
            let ghost prev = out@;
            match self.next() {
                Some(e) => {
                    out.push(e);
                    assert(entries_view(out@) =~= entries_view(prev).push(entry_view(e)));
                    assert(entries_from(before, self.sensor) =~= seq![entry_view(e)]
                        + entries_from(self.state, self.sensor));
                },
                None => {
                    assert(entries_from(before, self.sensor) =~= seq![]);
                    assert(entries_view(out@) + entries_from(before, self.sensor) =~= entries_view(out@));
                    return out;
                },
            }
        }
    }
}

/// The colon-free hexadecimal text of a MAC address.
fn mac_text(m: [u8; 6]) -> (r: String)
    ensures
        r@ == compact_hex(m@),
{
    let t = Address(m).to_string();
    let n = t.as_str().unicode_len();
    let mut out = String::new();
    let mut i: usize = 0;
    assert(t@.take(0).filter(not_colon()) =~= Seq::<char>::empty()) by {
        reveal(Seq::filter);
    }
    while i < n
        invariant
            i <= n,
            n == t@.len(),
            out@ == t@.take(i as int).filter(not_colon()),
        decreases n - i,
    {
        let c = t.as_str().get_char(i);
        assert(t@.take(i + 1).drop_last() =~= t@.take(i as int));
        reveal(Seq::filter);
        if c != ':' {
            push_char(&mut out, c);
        }
        i = i + 1;
    }
    assert(t@.take(n as int) =~= t@);
    proof {
        compact_hex_drops_colons(m@);
    }
    out
}

/// The state reached from `s` after `n` steps.
pub open spec fn steps(s: DecidedSensorState, n: nat) -> DecidedSensorState
    decreases n,
{
    if n == 0 {
        s
    } else {
        steps(s.successor(), (n - 1) as nat)
    }
}

/// However the decoder starts, nine steps bring it to `Done`, where it stays and reports
/// nothing more, whatever the reading.
pub proof fn decoder_finishes(s: DecidedSensorState, n: nat, r: SensorReading)
    requires
        n >= 9,
    ensures
        steps(s, n) == DecidedSensorState::Done,
        steps(s, n).successor() == DecidedSensorState::Done,
        value_text(steps(s, n), r) is None,
    decreases n,
{
    lemma_steps_done(s, n);
}

proof fn lemma_steps_done(s: DecidedSensorState, n: nat)
    requires
        n + s.position() >= 9,
    ensures
        steps(s, n) == DecidedSensorState::Done,
    decreases n,
{
    if n > 0 {
        lemma_steps_done(s.successor(), (n - 1) as nat);
    }
}

/// Whether a reported value carries the name and unit of a state.
pub open spec fn reported_by(e: (Seq<char>, Seq<char>, Seq<char>), st: DecidedSensorState) -> bool {
    e.0 == st.name() && e.2 == st.unit()
}

/// The decoder reports at most one value per state, in the order of the states.
pub proof fn entries_follow_the_states(s: DecidedSensorState, r: SensorReading)
    ensures
        entries_from(s, r).len() + s.position() <= 9,
        forall|i: int|
            #![trigger entries_from(s, r)[i]]
            0 <= i < entries_from(s, r).len() ==> reported_by(entries_from(s, r)[i], steps(s, i as nat)),
    decreases 9 - s.position(),
{
    if s != DecidedSensorState::Done {
        entries_follow_the_states(s.successor(), r);
        if value_text(s, r) is Some {
            let es = entries_from(s, r);
            let rest = entries_from(s.successor(), r);
            assert(es == seq![(s.name(), value_text(s, r).unwrap(), s.unit())] + rest);
            assert forall|i: int| 0 <= i < es.len() implies reported_by(#[trigger] es[i], steps(s, i as nat)) by {
                if i == 0 {
                    assert(steps(s, 0) == s);
                } else {
                    assert(es[i] == rest[i - 1]);
                    assert(steps(s, i as nat) == steps(s.successor(), (i - 1) as nat));
                }
            }
        }
    }
}

/// Each state reports the field of the reading that it names, exactly as read (sign
/// included), with the power of ten of its unit: 10^4 for humidity in ppm, 10^3 for the
/// thousandths of temperature, battery potential and acceleration, 1 for the rest. A state
/// whose field is absent reports nothing.
pub proof fn reported_values_are_the_readings(r: SensorReading)
    ensures
        r.humidity_ppm matches Some(v) ==> measurement(DecidedSensorState::Humidity, r) == Some(
            (v as int, 4nat),
        ),
        r.pressure_pa matches Some(v) ==> measurement(DecidedSensorState::Pressure, r) == Some(
            (v as int, 0nat),
        ),
        r.temperature_millicelsius matches Some(v) ==> measurement(
            DecidedSensorState::Temperature,
            r,
        ) == Some((v as int, 3nat)),
        r.battery_millivolts matches Some(v) ==> measurement(DecidedSensorState::Volts, r) == Some(
            (v as int, 3nat),
        ),
        r.tx_power_dbm matches Some(v) ==> measurement(DecidedSensorState::Txpow, r) == Some(
            (v as int, 0nat),
        ),
        r.movement_counter matches Some(v) ==> measurement(DecidedSensorState::Movement, r) == Some(
            (v as int, 0nat),
        ),
        r.acceleration_milli_g matches Some(a) ==> measurement(DecidedSensorState::AccelX, r)
            == Some((a.0 as int, 3nat)) && measurement(DecidedSensorState::AccelY, r) == Some(
            (a.1 as int, 3nat),
        ) && measurement(DecidedSensorState::AccelZ, r) == Some((a.2 as int, 3nat)),
        r.humidity_ppm is None ==> measurement(DecidedSensorState::Humidity, r) is None,
        r.pressure_pa is None ==> measurement(DecidedSensorState::Pressure, r) is None,
        r.temperature_millicelsius is None ==> measurement(DecidedSensorState::Temperature, r) is None,
        r.battery_millivolts is None ==> measurement(DecidedSensorState::Volts, r) is None,
        r.tx_power_dbm is None ==> measurement(DecidedSensorState::Txpow, r) is None,
        r.movement_counter is None ==> measurement(DecidedSensorState::Movement, r) is None,
        r.acceleration_milli_g is None ==> measurement(DecidedSensorState::AccelX, r) is None
            && measurement(DecidedSensorState::AccelY, r) is None && measurement(
            DecidedSensorState::AccelZ,
            r,
        ) is None,
        measurement(DecidedSensorState::Done, r) is None,
{
}

/// The decimal digits of a number start with a digit, never with a sign.
proof fn lemma_decimal_digits_start(n: nat)
    ensures
        decimal_digits(n).len() > 0,
        48 <= decimal_digits(n)[0] as int <= 57,
    decreases n,
{
    if n >= 10 {
        lemma_decimal_digits_start(n / 10);
    }
}

/// The text of a number starts with a minus sign exactly when the number is negative.
pub proof fn decimal_text_keeps_the_sign(num: int, scale: nat)
    ensures
        decimal_text(num, scale).len() > 0,
        decimal_text(num, scale)[0] == '-' <==> num < 0,
{
    let m: nat = if num < 0 {
        (-num) as nat
    } else {
        num as nat
    };
    crate::text::lemma_pow10_positive(scale);
    lemma_decimal_digits_start(m / pow10(scale));
}

/// A reported value is negative exactly when the field it reports is: the text of a
/// below-zero temperature, transmitter power or acceleration starts with a minus sign,
/// and the text of any other starts with a digit.
pub proof fn negative_readings_are_reported_negative(s: DecidedSensorState, r: SensorReading)
    ensures
        measurement(s, r) matches Some((raw, k)) ==> value_text(s, r) matches Some(t) && t.len() > 0
            && (t[0] == '-' <==> raw < 0),
        r.temperature_millicelsius matches Some(v) ==> value_text(
            DecidedSensorState::Temperature,
            r,
        ) matches Some(t) && t.len() > 0 && (t[0] == '-' <==> v < 0),
        r.tx_power_dbm matches Some(v) ==> value_text(DecidedSensorState::Txpow, r) matches Some(t)
            && t.len() > 0 && (t[0] == '-' <==> v < 0),
        r.acceleration_milli_g matches Some(a) ==> (value_text(DecidedSensorState::AccelX, r) matches Some(
            t,
        ) && t.len() > 0 && (t[0] == '-' <==> a.0 < 0)) && (value_text(DecidedSensorState::AccelY, r) matches Some(
            t,
        ) && t.len() > 0 && (t[0] == '-' <==> a.1 < 0)) && (value_text(DecidedSensorState::AccelZ, r) matches Some(
            t,
        ) && t.len() > 0 && (t[0] == '-' <==> a.2 < 0)),
{
    reported_values_are_the_readings(r);
    if let Some((raw, k)) = measurement(s, r) {
        decimal_text_keeps_the_sign(raw, k);
    }
    if let Some(v) = r.temperature_millicelsius {
        decimal_text_keeps_the_sign(v as int, 3);
    }
    if let Some(v) = r.tx_power_dbm {
        decimal_text_keeps_the_sign(v as int, 0);
    }
    if let Some(a) = r.acceleration_milli_g {
        decimal_text_keeps_the_sign(a.0 as int, 3);
        decimal_text_keeps_the_sign(a.1 as int, 3);
        decimal_text_keeps_the_sign(a.2 as int, 3);
    }
}

/// What logging a reading reports: the compact MAC address and the decoded values, or
/// nothing for a reading without a MAC address.
pub open spec fn log_record(r: SensorReading) -> Option<(Seq<char>, Seq<(Seq<char>, Seq<char>, Seq<char>)>)> {
    match r.mac {
        Some(m) => Some((compact_hex(m@), entries_from(DecidedSensorState::Humidity, r))),
        None => None,
    }
}

/// What the log reports of one reading: its compact MAC address and each decoded value
/// with its name and unit; nothing when the reading carries no MAC address.
pub fn log_sensor(sensor: &SensorReading) -> (r: Option<(String, Vec<Entry>)>)
    ensures
        match log_record(*sensor) {
            Some((mac, es)) => r matches Some((m, v)) && m@ == mac && entries_view(v@) == es,
            None => r is None,
        },
{
    let mut decoder = DecodedSensor::new(sensor);
    match decoder.mac() {
        Some(mac) => Some((mac, decoder.entries())),
        None => None,
    }
}

/// The key under which the logger stores a value: `ruuvi.<mac>.<name>`.
pub open spec fn modio_key(mac: Seq<char>, name: Seq<char>) -> Seq<char> {
    "ruuvi."@ + mac + "."@ + name
}

/// The key and value of each decoded value, keyed by the compact MAC address.
pub open spec fn modio_records(mac: Seq<char>, es: Seq<(Seq<char>, Seq<char>, Seq<char>)>) -> Seq<
    (Seq<char>, Seq<char>),
> {
    es.map_values(|e: (Seq<char>, Seq<char>, Seq<char>)| (modio_key(mac, e.0), e.1))
}

/// Every stored pair is one decoded value, in the same order: its value text unchanged,
/// under the key `ruuvi.` + MAC + `.` + the value's name.
pub proof fn modio_stores_the_decoded_texts(mac: Seq<char>, es: Seq<(Seq<char>, Seq<char>, Seq<char>)>)
    ensures
        modio_records(mac, es).len() == es.len(),
        forall|i: int|
            0 <= i < es.len() ==> #[trigger] modio_records(mac, es)[i].1 == es[i].1
                && modio_records(mac, es)[i].0 == "ruuvi."@ + mac + "."@ + es[i].0,
{
}

/// The key-value pairs that are stored in the modio logger for one reading: for a reading
/// with a MAC address, one pair per decoded value, keyed `ruuvi.<mac>.<name>`; none
/// otherwise.
pub fn modio_log_sensor(sensor: &SensorReading) -> (r: Vec<(String, String)>)
    ensures
        match log_record(*sensor) {
            Some((mac, es)) => r@.map_values(|p: (String, String)| (p.0@, p.1@)) == modio_records(
                mac,
                es,
            ),
            None => r@.len() == 0,
        },
{
    let mut out: Vec<(String, String)> = Vec::new();
    match log_sensor(sensor) {
        Some((mac, entries)) => {
            let ghost es = entries_view(entries@);
            let mut i: usize = 0;
            while i < entries.len()
                invariant
                    i <= entries.len(),
                    es == entries_view(entries@),
                    out@.map_values(|p: (String, String)| (p.0@, p.1@)) == modio_records(
                        mac@,
                        es.take(i as int),
                    ),
                decreases entries.len() - i,
            {
                let mut key = "ruuvi.".to_owned();
                key.append(mac.as_str());
                key.append(".");
                key.append(entries[i].0.as_str());
                let value = entries[i].1.clone();
                let ghost prev = out@;
                out.push((key, value));
                assert(es.take(i + 1) =~= es.take(i as int).push(es[i as int]));
                assert(out@.map_values(|p: (String, String)| (p.0@, p.1@)) =~= prev.map_values(
                    |p: (String, String)| (p.0@, p.1@),
                ).push((modio_key(mac@, es[i as int].0), es[i as int].1)));
                assert(modio_records(mac@, es.take(i + 1)) =~= modio_records(mac@, es.take(i as int)).push(
                    (modio_key(mac@, es[i as int].0), es[i as int].1),
                ));
                i = i + 1;
            }
            assert(es.take(entries.len() as int) =~= es);
        },
        None => {},
    }
    out
}

} // verus!
