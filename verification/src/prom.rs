//! Which Prometheus gauges a reading updates, and with what.
use vstd::prelude::*;

use crate::addr::{colon_hex, Address};
use crate::reading::SensorReading;

verus! {

/// The axis label of an acceleration sample.
#[derive(PartialEq, Eq, Structural, Clone, Copy, Debug)]
pub enum Axis {
    X,
    Y,
    Z,
}

/// The gauge that a sample sets.
#[derive(PartialEq, Eq, Structural, Clone, Copy, Debug)]
pub enum PromMetric {
    /// `humidity`, percent relative humidity (ppm / 10^4).
    Humidity,
    /// `pressure` in pascals.
    Pressure,
    /// `temperature` in degrees Celsius.
    Temperature,
    /// `battery_potential` in volts.
    BatteryPotential,
    /// `tx_power` in dBm, an integer gauge.
    TxPower,
    /// `movement_counter`, an integer gauge.
    Movement,
    /// `acceleration` in g along one axis.
    Acceleration(Axis),
}

/// One gauge update: the gauge and the value `raw / 10^scale`.
#[derive(PartialEq, Eq, Structural, Clone, Copy, Debug)]
pub struct PromSample {
    pub metric: PromMetric,
    pub raw: i64,
    pub scale: u32,
}

/// Everything that registering one reading does: the `signals` counter of the MAC address
/// goes up by one, and each sample sets its gauge for that address.
pub struct PromUpdate {
    /// The MAC address label, in colon-hexadecimal notation.
    pub mac: String,
    pub samples: Vec<PromSample>,
}

/// A one-sample list for a present value, an empty one otherwise.
pub open spec fn sample_of(v: Option<i64>, metric: PromMetric, scale: u32) -> Seq<PromSample> {
    match v {
        Some(x) => seq![PromSample { metric, raw: x, scale }],
        None => seq![],
    }
}

/// The acceleration samples of a reading: x, y and z, or none.
pub open spec fn acceleration_samples(a: Option<(i16, i16, i16)>) -> Seq<PromSample> {
    match a {
        Some(v) => seq![
            PromSample { metric: PromMetric::Acceleration(Axis::X), raw: v.0 as i64, scale: 3 },
            PromSample { metric: PromMetric::Acceleration(Axis::Y), raw: v.1 as i64, scale: 3 },
            PromSample { metric: PromMetric::Acceleration(Axis::Z), raw: v.2 as i64, scale: 3 },
        ],
        None => seq![],
    }
}

/// The gauge updates of a reading, in this order: humidity (ppm / 10^4), pressure
/// (Pa), temperature (m°C / 10^3), battery potential (mV / 10^3), transmitter
/// power, movement counter, then acceleration along x, y and z (milli-g / 10^3); each
/// only where the reading has it.
pub open spec fn prom_samples(r: SensorReading) -> Seq<PromSample> {
    sample_of(
        match r.humidity_ppm {
            Some(v) => Some(v as i64),
            None => None,
        },
        PromMetric::Humidity,
        4,
    ) + sample_of(
        match r.pressure_pa {
            Some(v) => Some(v as i64),
            None => None,
        },
        PromMetric::Pressure,
        0,
    ) + sample_of(
        match r.temperature_millicelsius {
            Some(v) => Some(v as i64),
            None => None,
        },
        PromMetric::Temperature,
        3,
    ) + sample_of(
        match r.battery_millivolts {
            Some(v) => Some(v as i64),
            None => None,
        },
        PromMetric::BatteryPotential,
        3,
    ) + sample_of(
        match r.tx_power_dbm {
            Some(v) => Some(v as i64),
            None => None,
        },
        PromMetric::TxPower,
        0,
    ) + sample_of(
        match r.movement_counter {
            Some(v) => Some(v as i64),
            None => None,
        },
        PromMetric::Movement,
        0,
    ) + acceleration_samples(r.acceleration_milli_g)
}

/// Whether a list of samples sets a gauge exactly as a reading's field says: where the
/// field is present, some sample sets the gauge and every sample of that gauge carries the
/// field's value unchanged with the given scale; where it is absent, no sample sets it.
pub open spec fn sets_gauge(samples: Seq<PromSample>, metric: PromMetric, field: Option<int>, scale: u32) -> bool {
    match field {
        Some(v) => {
            &&& exists|i: int| 0 <= i < samples.len() && #[trigger] samples[i].metric == metric
            &&& forall|i: int|
                0 <= i < samples.len() && #[trigger] samples[i].metric == metric ==> samples[i].raw
                    == v && samples[i].scale == scale
        },
        None => forall|i: int| 0 <= i < samples.len() ==> #[trigger] samples[i].metric != metric,
    }
}

/// No sample of the list sets the gauge.
pub open spec fn leaves_gauge(samples: Seq<PromSample>, metric: PromMetric) -> bool {
    forall|i: int| 0 <= i < samples.len() ==> #[trigger] samples[i].metric != metric
}

/// The lists of samples one after the other.
pub open spec fn concat_all(ps: Seq<Seq<PromSample>>) -> Seq<PromSample>
    decreases ps.len(),
{
    if ps.len() == 0 {
        seq![]
    } else {
        concat_all(ps.drop_last()) + ps.last()
    }
}

proof fn lemma_sample_of(v: Option<i64>, metric: PromMetric, k: u32, other: PromMetric)
    ensures
        sets_gauge(sample_of(v, metric, k), metric, match v {
            Some(x) => Some(x as int),
            None => None,
        }, k),
        other != metric ==> leaves_gauge(sample_of(v, metric, k), other),
{
    if let Some(x) = v {
        assert(sample_of(v, metric, k)[0].metric == metric);
    }
}

proof fn lemma_acceleration_samples(v: Option<(i16, i16, i16)>, other: PromMetric)
    ensures
        sets_gauge(acceleration_samples(v), PromMetric::Acceleration(Axis::X), match v {
            Some(a) => Some(a.0 as int),
            None => None,
        }, 3),
        sets_gauge(acceleration_samples(v), PromMetric::Acceleration(Axis::Y), match v {
            Some(a) => Some(a.1 as int),
            None => None,
        }, 3),
        sets_gauge(acceleration_samples(v), PromMetric::Acceleration(Axis::Z), match v {
            Some(a) => Some(a.2 as int),
            None => None,
        }, 3),
        other != PromMetric::Acceleration(Axis::X) && other != PromMetric::Acceleration(Axis::Y)
            && other != PromMetric::Acceleration(Axis::Z) ==> leaves_gauge(acceleration_samples(v), other),
{
    if let Some(a) = v {
        let s = acceleration_samples(v);
        assert(s[0].metric == PromMetric::Acceleration(Axis::X));
        assert(s[1].metric == PromMetric::Acceleration(Axis::Y));
        assert(s[2].metric == PromMetric::Acceleration(Axis::Z));
    }
}

proof fn lemma_leaves_all(ps: Seq<Seq<PromSample>>, metric: PromMetric)
    requires
        forall|i: int| 0 <= i < ps.len() ==> leaves_gauge(#[trigger] ps[i], metric),
    ensures
        leaves_gauge(concat_all(ps), metric),
    decreases ps.len(),
{
    if ps.len() > 0 {
        let init = ps.drop_last();
        assert forall|i: int| 0 <= i < init.len() implies leaves_gauge(#[trigger] init[i], metric) by {
            assert(init[i] == ps[i]);
        }
        lemma_leaves_all(init, metric);
        assert(leaves_gauge(ps[ps.len() - 1], metric));
        let c = concat_all(init) + ps.last();
        assert forall|i: int| 0 <= i < c.len() implies #[trigger] c[i].metric != metric by {
            if i >= concat_all(init).len() {
                assert(c[i] == ps.last()[i - concat_all(init).len()]);
            }
        }
    }
}

proof fn lemma_sets_in_chain(ps: Seq<Seq<PromSample>>, j: int, metric: PromMetric, f: Option<int>, k: u32)
    requires
        0 <= j < ps.len(),
        sets_gauge(ps[j], metric, f, k),
        forall|i: int| 0 <= i < ps.len() && i != j ==> leaves_gauge(#[trigger] ps[i], metric),
    ensures
        sets_gauge(concat_all(ps), metric, f, k),
    decreases ps.len(),
{
    let init = ps.drop_last();
    let last = ps.last();
    let front = concat_all(init);
    let c = front + last;
    assert(concat_all(ps) == c);
    if j == ps.len() - 1 {
        assert forall|i: int| 0 <= i < init.len() implies leaves_gauge(#[trigger] init[i], metric) by {
            assert(init[i] == ps[i]);
        }
        lemma_leaves_all(init, metric);
        match f {
            Some(v) => {
                let w = choose|w: int| 0 <= w < last.len() && #[trigger] last[w].metric == metric;
                assert(c[front.len() + w] == last[w]);
                assert forall|i: int| 0 <= i < c.len() && #[trigger] c[i].metric == metric implies c[i].raw
                    == v && c[i].scale == k by {
                    if i >= front.len() {
                        assert(c[i] == last[i - front.len()]);
                    }
                }
            },
            None => {
                assert forall|i: int| 0 <= i < c.len() implies #[trigger] c[i].metric != metric by {
                    if i >= front.len() {
                        assert(c[i] == last[i - front.len()]);
                    }
                }
            },
        }
    } else {
        assert(init[j] == ps[j]);
        assert forall|i: int| 0 <= i < init.len() && i != j implies leaves_gauge(#[trigger] init[i], metric) by {
            assert(init[i] == ps[i]);
        }
        lemma_sets_in_chain(init, j, metric, f, k);
        assert(leaves_gauge(ps[ps.len() - 1], metric));
        match f {
            Some(v) => {
                let w = choose|w: int| 0 <= w < front.len() && #[trigger] front[w].metric == metric;
                assert(c[w] == front[w]);
                assert forall|i: int| 0 <= i < c.len() && #[trigger] c[i].metric == metric implies c[i].raw
                    == v && c[i].scale == k by {
                    if i >= front.len() {
                        assert(c[i] == last[i - front.len()]);
                    } else {
                        assert(c[i] == front[i]);
                    }
                }
            },
            None => {
                assert forall|i: int| 0 <= i < c.len() implies #[trigger] c[i].metric != metric by {
                    if i >= front.len() {
                        assert(c[i] == last[i - front.len()]);
                    } else {
                        assert(c[i] == front[i]);
                    }
                }
            },
        }
    }
}

/// The lists of samples that `prom_samples` puts one after the other.
spec fn sample_pieces(r: SensorReading) -> Seq<Seq<PromSample>> {
    seq![
        sample_of(match r.humidity_ppm { Some(v) => Some(v as i64), None => None }, PromMetric::Humidity, 4),
        sample_of(match r.pressure_pa { Some(v) => Some(v as i64), None => None }, PromMetric::Pressure, 0),
        sample_of(match r.temperature_millicelsius { Some(v) => Some(v as i64), None => None }, PromMetric::Temperature, 3),
        sample_of(match r.battery_millivolts { Some(v) => Some(v as i64), None => None }, PromMetric::BatteryPotential, 3),
        sample_of(match r.tx_power_dbm { Some(v) => Some(v as i64), None => None }, PromMetric::TxPower, 0),
        sample_of(match r.movement_counter { Some(v) => Some(v as i64), None => None }, PromMetric::Movement, 0),
        acceleration_samples(r.acceleration_milli_g),
    ]
}

proof fn lemma_pieces(r: SensorReading, metric: PromMetric)
    ensures
        concat_all(sample_pieces(r)) == prom_samples(r),
        sample_pieces(r).len() == 7,
        metric != PromMetric::Humidity ==> leaves_gauge(sample_pieces(r)[0], metric),
        metric != PromMetric::Pressure ==> leaves_gauge(sample_pieces(r)[1], metric),
        metric != PromMetric::Temperature ==> leaves_gauge(sample_pieces(r)[2], metric),
        metric != PromMetric::BatteryPotential ==> leaves_gauge(sample_pieces(r)[3], metric),
        metric != PromMetric::TxPower ==> leaves_gauge(sample_pieces(r)[4], metric),
        metric != PromMetric::Movement ==> leaves_gauge(sample_pieces(r)[5], metric),
        metric != PromMetric::Acceleration(Axis::X) && metric != PromMetric::Acceleration(Axis::Y)
            && metric != PromMetric::Acceleration(Axis::Z) ==> leaves_gauge(sample_pieces(r)[6], metric),
{
    let ps = sample_pieces(r);
    reveal_with_fuel(concat_all, 8);
    assert(concat_all(ps) =~= ps[0] + ps[1] + ps[2] + ps[3] + ps[4] + ps[5] + ps[6]) by {
        assert(ps.drop_last().drop_last().drop_last().drop_last().drop_last().drop_last().drop_last()
            =~= Seq::<Seq<PromSample>>::empty());
        assert(ps.drop_last().drop_last().drop_last().drop_last().drop_last().drop_last() =~= seq![ps[0]]);
        assert(ps.drop_last().drop_last().drop_last().drop_last().drop_last() =~= seq![ps[0], ps[1]]);
        assert(ps.drop_last().drop_last().drop_last().drop_last() =~= seq![ps[0], ps[1], ps[2]]);
        assert(ps.drop_last().drop_last().drop_last() =~= seq![ps[0], ps[1], ps[2], ps[3]]);
        assert(ps.drop_last().drop_last() =~= seq![ps[0], ps[1], ps[2], ps[3], ps[4]]);
        assert(ps.drop_last() =~= seq![ps[0], ps[1], ps[2], ps[3], ps[4], ps[5]]);
        assert(concat_all(Seq::<Seq<PromSample>>::empty()) =~= Seq::<PromSample>::empty());
    }
    lemma_sample_of(match r.humidity_ppm { Some(v) => Some(v as i64), None => None }, PromMetric::Humidity, 4, metric);
    lemma_sample_of(match r.pressure_pa { Some(v) => Some(v as i64), None => None }, PromMetric::Pressure, 0, metric);
    lemma_sample_of(match r.temperature_millicelsius { Some(v) => Some(v as i64), None => None }, PromMetric::Temperature, 3, metric);
    lemma_sample_of(match r.battery_millivolts { Some(v) => Some(v as i64), None => None }, PromMetric::BatteryPotential, 3, metric);
    lemma_sample_of(match r.tx_power_dbm { Some(v) => Some(v as i64), None => None }, PromMetric::TxPower, 0, metric);
    lemma_sample_of(match r.movement_counter { Some(v) => Some(v as i64), None => None }, PromMetric::Movement, 0, metric);
    lemma_acceleration_samples(r.acceleration_milli_g, metric);
}

/// The gauge updates carry the field of the reading that each gauge names.
proof fn lemma_gauge(r: SensorReading, j: int, metric: PromMetric, f: Option<int>, k: u32)
    requires
        0 <= j < 7,
        sets_gauge(sample_pieces(r)[j], metric, f, k),
        forall|i: int| 0 <= i < 7 && i != j ==> leaves_gauge(#[trigger] sample_pieces(r)[i], metric),
    ensures
        sets_gauge(prom_samples(r), metric, f, k),
{
    lemma_pieces(r, metric);
    lemma_sets_in_chain(sample_pieces(r), j, metric, f, k);
}

/// Every gauge is set from the field of the reading that it names, with the value as read
/// (sign included) and the power of ten of its unit; a gauge whose field the reading lacks
/// is left alone.
pub proof fn gauges_carry_the_readings(r: SensorReading)
    ensures
        sets_gauge(prom_samples(r), PromMetric::Humidity, match r.humidity_ppm {
            Some(v) => Some(v as int),
            None => None,
        }, 4),
        sets_gauge(prom_samples(r), PromMetric::Pressure, match r.pressure_pa {
            Some(v) => Some(v as int),
            None => None,
        }, 0),
        sets_gauge(prom_samples(r), PromMetric::Temperature, match r.temperature_millicelsius {
            Some(v) => Some(v as int),
            None => None,
        }, 3),
        sets_gauge(prom_samples(r), PromMetric::BatteryPotential, match r.battery_millivolts {
            Some(v) => Some(v as int),
            None => None,
        }, 3),
        sets_gauge(prom_samples(r), PromMetric::TxPower, match r.tx_power_dbm {
            Some(v) => Some(v as int),
            None => None,
        }, 0),
        sets_gauge(prom_samples(r), PromMetric::Movement, match r.movement_counter {
            Some(v) => Some(v as int),
            None => None,
        }, 0),
        sets_gauge(prom_samples(r), PromMetric::Acceleration(Axis::X), match r.acceleration_milli_g {
            Some(v) => Some(v.0 as int),
            None => None,
        }, 3),
        sets_gauge(prom_samples(r), PromMetric::Acceleration(Axis::Y), match r.acceleration_milli_g {
            Some(v) => Some(v.1 as int),
            None => None,
        }, 3),
        sets_gauge(prom_samples(r), PromMetric::Acceleration(Axis::Z), match r.acceleration_milli_g {
            Some(v) => Some(v.2 as int),
            None => None,
        }, 3),
{
    lemma_sample_of(match r.humidity_ppm { Some(v) => Some(v as i64), None => None }, PromMetric::Humidity, 4, PromMetric::Humidity);
    lemma_sample_of(match r.pressure_pa { Some(v) => Some(v as i64), None => None }, PromMetric::Pressure, 0, PromMetric::Pressure);
    lemma_sample_of(match r.temperature_millicelsius { Some(v) => Some(v as i64), None => None }, PromMetric::Temperature, 3, PromMetric::Temperature);
    lemma_sample_of(match r.battery_millivolts { Some(v) => Some(v as i64), None => None }, PromMetric::BatteryPotential, 3, PromMetric::BatteryPotential);
    lemma_sample_of(match r.tx_power_dbm { Some(v) => Some(v as i64), None => None }, PromMetric::TxPower, 0, PromMetric::TxPower);
    lemma_sample_of(match r.movement_counter { Some(v) => Some(v as i64), None => None }, PromMetric::Movement, 0, PromMetric::Movement);
    lemma_acceleration_samples(r.acceleration_milli_g, PromMetric::Humidity);
    lemma_pieces(r, PromMetric::Humidity);
    lemma_gauge(r, 0, PromMetric::Humidity, match r.humidity_ppm { Some(v) => Some(v as int), None => None }, 4);
    lemma_pieces(r, PromMetric::Pressure);
    lemma_gauge(r, 1, PromMetric::Pressure, match r.pressure_pa { Some(v) => Some(v as int), None => None }, 0);
    lemma_pieces(r, PromMetric::Temperature);
    lemma_gauge(r, 2, PromMetric::Temperature, match r.temperature_millicelsius { Some(v) => Some(v as int), None => None }, 3);
    lemma_pieces(r, PromMetric::BatteryPotential);
    lemma_gauge(r, 3, PromMetric::BatteryPotential, match r.battery_millivolts { Some(v) => Some(v as int), None => None }, 3);
    lemma_pieces(r, PromMetric::TxPower);
    lemma_gauge(r, 4, PromMetric::TxPower, match r.tx_power_dbm { Some(v) => Some(v as int), None => None }, 0);
    lemma_pieces(r, PromMetric::Movement);
    lemma_gauge(r, 5, PromMetric::Movement, match r.movement_counter { Some(v) => Some(v as int), None => None }, 0);
    lemma_acceleration_samples(r.acceleration_milli_g, PromMetric::Humidity);
    lemma_pieces(r, PromMetric::Acceleration(Axis::X));
    lemma_gauge(r, 6, PromMetric::Acceleration(Axis::X), match r.acceleration_milli_g { Some(v) => Some(v.0 as int), None => None }, 3);
    lemma_pieces(r, PromMetric::Acceleration(Axis::Y));
    lemma_gauge(r, 6, PromMetric::Acceleration(Axis::Y), match r.acceleration_milli_g { Some(v) => Some(v.1 as int), None => None }, 3);
    lemma_pieces(r, PromMetric::Acceleration(Axis::Z));
    lemma_gauge(r, 6, PromMetric::Acceleration(Axis::Z), match r.acceleration_milli_g { Some(v) => Some(v.2 as int), None => None }, 3);
}

/// Appends the sample of a present value.
fn push_sample(samples: &mut Vec<PromSample>, v: Option<i64>, metric: PromMetric, scale: u32)
    ensures
        final(samples)@ == old(samples)@ + sample_of(v, metric, scale),
{
    if let Some(x) = v {
        samples.push(PromSample { metric, raw: x, scale });
    }
    assert(final(samples)@ =~= old(samples)@ + sample_of(v, metric, scale));
}

/// The Prometheus updates for one reading: none for a reading without a MAC address;
/// otherwise the address in colon-hexadecimal notation and the samples of `prom_samples`.
pub fn register_sensor(sensor: &SensorReading) -> (r: Option<PromUpdate>)
    ensures
        match sensor.mac {
            Some(m) => r matches Some(u) && u.mac@ == colon_hex(m@) && u.samples@ == prom_samples(
                *sensor,
            ),
            None => r is None,
        },
{
    let mac = match sensor.mac {
        Some(m) => Address(m).to_string(),
        None => {
            return None;
        },
    };
    let mut samples: Vec<PromSample> = Vec::new();
    push_sample(
        &mut samples,
        match sensor.humidity_ppm {
            Some(v) => Some(v as i64),
            None => None,
        },
        PromMetric::Humidity,
        4,
    );
    push_sample(
        &mut samples,
        match sensor.pressure_pa {
            Some(v) => Some(v as i64),
            None => None,
        },
        PromMetric::Pressure,
        0,
    );
    push_sample(
        &mut samples,
        match sensor.temperature_millicelsius {
            Some(v) => Some(v as i64),
            None => None,
        },
        PromMetric::Temperature,
        3,
    );
    push_sample(
        &mut samples,
        match sensor.battery_millivolts {
            Some(v) => Some(v as i64),
            None => None,
        },
        PromMetric::BatteryPotential,
        3,
    );
    push_sample(
        &mut samples,
        match sensor.tx_power_dbm {
            Some(v) => Some(v as i64),
            None => None,
        },
        PromMetric::TxPower,
        0,
    );
    push_sample(
        &mut samples,
        match sensor.movement_counter {
            Some(v) => Some(v as i64),
            None => None,
        },
        PromMetric::Movement,
        0,
    );
    let ghost before = samples@;
    if let Some(v) = sensor.acceleration_milli_g {
        samples.push(
            PromSample { metric: PromMetric::Acceleration(Axis::X), raw: v.0 as i64, scale: 3 },
        );
        samples.push(
            PromSample { metric: PromMetric::Acceleration(Axis::Y), raw: v.1 as i64, scale: 3 },
        );
        samples.push(
            PromSample { metric: PromMetric::Acceleration(Axis::Z), raw: v.2 as i64, scale: 3 },
        );
    }
    assert(samples@ =~= before + acceleration_samples(sensor.acceleration_milli_g));
    assert(samples@ =~= prom_samples(*sensor));
    Some(PromUpdate { mac, samples })
}

} // verus!
