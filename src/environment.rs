use vstd::prelude::*;

verus! {

/// One reading of the weather sensor, in fixed-point units.
#[derive(Debug, Clone, Copy, PartialEq, Eq, Structural)]
pub struct BME688SensorReport {
    /// Temperature, in thousandths of a degree Celsius.
    pub temp: i32,
    /// Air pressure, in thousandths of a pascal.
    pub pressure: i32,
    /// Relative humidity, in thousandths of a percent.
    pub humidity: i32,
    /// Gas resistance, in ohms.
    pub gas_resistance: u32,
}

/// The hottest temperature taken for a reading (80 °C); anything above is a
/// sensor artifact.
pub const MAX_TEMP: i32 = 80_000;

/// The largest temperature change between consecutive readings (20 °C).
pub const MAX_TEMP_DELTA: i64 = 20_000;

/// The largest pressure change between consecutive readings (100 Pa).
pub const MAX_PRESSURE_DELTA: i64 = 100_000;

/// The largest humidity change between consecutive readings (50 %).
pub const MAX_HUMIDITY_DELTA: i64 = 50_000;

/// Why an environmental reading was not accepted. Each carries the offending
/// value in the units of the report's field.
#[derive(Debug, Clone, Copy, PartialEq, Eq, Structural)]
pub enum BME688SensorValidationError {
    UnreasonablyHot(i32),
    LargeTempDelta(i64),
    LargePressureDelta(i64),
    LargeHumidityDelta(i64),
}

/// `|a - b|`.
pub open spec fn abs_diff(a: i32, b: i32) -> int {
    if a >= b {
        a - b
    } else {
        b - a
    }
}

pub open spec fn too_hot(r: BME688SensorReport) -> bool {
    r.temp > MAX_TEMP
}

pub open spec fn temp_jump(r: BME688SensorReport, last: BME688SensorReport) -> bool {
    abs_diff(last.temp, r.temp) > MAX_TEMP_DELTA
}

pub open spec fn pressure_jump(r: BME688SensorReport, last: BME688SensorReport) -> bool {
    abs_diff(last.pressure, r.pressure) > MAX_PRESSURE_DELTA
}

pub open spec fn humidity_jump(r: BME688SensorReport, last: BME688SensorReport) -> bool {
    abs_diff(last.humidity, r.humidity) > MAX_HUMIDITY_DELTA
}

/// What `sanity_check` decides on `r` after `last`, if any: `None` to accept
/// it, or the first bound that it breaks, in the order heat, temperature
/// change, pressure change, humidity change.
pub open spec fn env_verdict(
    r: BME688SensorReport,
    last: Option<BME688SensorReport>,
) -> Option<BME688SensorValidationError> {
    if too_hot(r) {
        Some(BME688SensorValidationError::UnreasonablyHot(r.temp))
    } else {
        match last {
            None => None,
            Some(l) => if temp_jump(r, l) {
                Some(BME688SensorValidationError::LargeTempDelta(abs_diff(l.temp, r.temp) as i64))
            } else if pressure_jump(r, l) {
                Some(
                    BME688SensorValidationError::LargePressureDelta(
                        abs_diff(l.pressure, r.pressure) as i64,
                    ),
                )
            } else if humidity_jump(r, l) {
                Some(
                    BME688SensorValidationError::LargeHumidityDelta(
                        abs_diff(l.humidity, r.humidity) as i64,
                    ),
                )
            } else {
                None
            },
        }
    }
}

fn abs_diff_exec(a: i32, b: i32) -> (r: i64)
    ensures
        r == abs_diff(a, b),
{
    if a >= b {
        a as i64 - b as i64
    } else {
        b as i64 - a as i64
    }
}

impl BME688SensorReport {
    /// Accepts this reading, or rejects it: `UnreasonablyHot` above
    /// `MAX_TEMP`; then, against the previous accepted reading if there is
    /// one, `LargeTempDelta`, `LargePressureDelta` or `LargeHumidityDelta`
    /// when the change exceeds its bound. Each bound is strict: a reading
    /// exactly at it is accepted.
    pub fn sanity_check(self, last: Option<&Self>) -> (r: Result<Self, BME688SensorValidationError>)
        ensures
            r == (match env_verdict(self, match last { Some(l) => Some(*l), None => None }) {
                Some(e) => Err::<Self, BME688SensorValidationError>(e),
                None => Ok::<Self, BME688SensorValidationError>(self),
            }),
    {
        if self.temp > MAX_TEMP {
            return Err(BME688SensorValidationError::UnreasonablyHot(self.temp));
        }
        if let Some(prev) = last {
            let d = abs_diff_exec(prev.temp, self.temp);
            if d > MAX_TEMP_DELTA {
                return Err(BME688SensorValidationError::LargeTempDelta(d));
            }
            let d = abs_diff_exec(prev.pressure, self.pressure);
            if d > MAX_PRESSURE_DELTA {
                return Err(BME688SensorValidationError::LargePressureDelta(d));
            }
            let d = abs_diff_exec(prev.humidity, self.humidity);
            if d > MAX_HUMIDITY_DELTA {
                return Err(BME688SensorValidationError::LargeHumidityDelta(d));
            }
        }
        Ok(self)
    }
}

/// With no previous reading, a reading no hotter than `MAX_TEMP` is accepted
/// as it is.
pub proof fn lemma_cool_first_reading_accepted(r: BME688SensorReport)
    requires
        r.temp <= MAX_TEMP,
    ensures
        env_verdict(r, None) == None::<BME688SensorValidationError>,
{
}

/// The number of the four bounds (heat, temperature change, pressure change,
/// humidity change) that `r` breaks after `last`.
pub open spec fn broken_bounds(r: BME688SensorReport, last: BME688SensorReport) -> int {
    (if too_hot(r) { 1int } else { 0 }) + (if temp_jump(r, last) { 1int } else { 0 }) + (if pressure_jump(r, last) { 1int } else { 0 })
        + (if humidity_jump(r, last) { 1int } else { 0 })
}

/// Where at most one of the four bounds is broken, a reading is rejected
/// exactly when one is, and the error names that bound. (Where two or more
/// are broken the reading is rejected too, naming the first.)
pub proof fn lemma_rejected_iff_one_bound_broken(r: BME688SensorReport, last: BME688SensorReport)
    requires
        broken_bounds(r, last) <= 1,
    ensures
        (env_verdict(r, Some(last)) is Some) <==> broken_bounds(r, last) == 1,
        too_hot(r) ==> env_verdict(r, Some(last)) matches Some(BME688SensorValidationError::UnreasonablyHot(_)),
        temp_jump(r, last) ==> env_verdict(r, Some(last)) matches Some(BME688SensorValidationError::LargeTempDelta(_)),
        pressure_jump(r, last) ==> env_verdict(r, Some(last)) matches Some(BME688SensorValidationError::LargePressureDelta(_)),
        humidity_jump(r, last) ==> env_verdict(r, Some(last)) matches Some(BME688SensorValidationError::LargeHumidityDelta(_)),
{
}

/// Whatever the bounds, a reading is rejected exactly when it breaks at
/// least one of them.
pub proof fn lemma_rejected_iff_some_bound_broken(r: BME688SensorReport, last: BME688SensorReport)
    ensures
        (env_verdict(r, Some(last)) is Some) <==> broken_bounds(r, last) >= 1,
{
}

} // verus!
