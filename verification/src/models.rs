//! Data model of the production estimation engine.
//!
//! Angles are in scaled degrees, temperatures in scaled degrees Celsius,
//! power in scaled watts (see `fixed::SCALE`); timestamps are Unix epoch
//! milliseconds.

use vstd::prelude::*;

verus! {

/// One point of a minute-indexed series: a timestamp paired with a value.
#[derive(Clone, Copy, PartialEq, Eq, Structural, Debug)]
pub struct DataItem {
    /// Unix epoch milliseconds.
    pub x: i64,
    /// Scaled value.
    pub y: i64,
}

/// Number of minutes of one day; every per-minute series has this length.
pub const MINUTES: usize = 1440;

/// Input parameters for one day's estimation.
#[derive(Clone)]
pub struct Parameters {
    /// Calendar year.
    pub year: i32,
    /// Calendar month, 1 to 12.
    pub month: u32,
    /// Calendar day of month.
    pub day: u32,
    /// Latitude in scaled degrees, negative south.
    pub lat: i64,
    /// Longitude in scaled degrees, negative west.
    pub long: i64,
    /// Ambient temperature per minute, scaled degrees Celsius.
    pub temp: Vec<i64>,
    /// Rated power of one panel unit, scaled watts.
    pub panel_power: i64,
    /// Panel slope from the horizontal plane, scaled degrees.
    pub panel_slope: i64,
    /// Azimuth rotation of the east-facing half, scaled degrees from south,
    /// negative east.
    pub panel_east_azm: i64,
    /// Power loss per degree Celsius above 25, scaled percent.
    pub panel_temp_red: i64,
    /// Heating time constant, scaled hours.
    pub tau: i64,
    /// Cooling time constant, scaled hours.
    pub tau_down: i64,
    /// Roof temperature boost at clear-sky normal incidence, scaled degrees
    /// Celsius.
    pub k_gain: i64,
    /// Flatness exponent of the incidence-angle modifier.
    pub iam_factor: u32,
    /// Morning shading threshold on sun elevation, scaled degrees.
    pub start_elv: i64,
    /// Morning shading threshold on sun azimuth, scaled degrees.
    pub start_azm: i64,
    /// Evening shading threshold on sun elevation, scaled degrees.
    pub stop_elv: i64,
    /// Evening shading threshold on sun azimuth, scaled degrees.
    pub stop_azm: i64,
}

/// Ranges under which the engine's fixed-point arithmetic cannot overflow:
/// temperatures within 100 degrees Celsius, rated power at most 100 scaled
/// kilowatts, derating at most 100 percent per degree, time constants between
/// one minute and 1000 hours, and a boost of at most 100 degrees.
pub open spec fn valid_parameters(p: Parameters) -> bool {
    &&& p.temp.len() == MINUTES
    &&& forall|i: int|
        0 <= i < p.temp.len() ==> -100_000_000 <= #[trigger] p.temp[i] <= 100_000_000
    &&& 0 <= p.panel_power <= 100_000_000_000
    &&& 0 <= p.panel_temp_red <= 100_000_000
    &&& 16_667 <= p.tau <= 1_000_000_000
    &&& 16_667 <= p.tau_down <= 1_000_000_000
    &&& 0 <= p.k_gain <= 100_000_000
}

/// Per-minute solar geometry of one day, with the sentinel defaults outside
/// the daylight window: 90 degrees for incidence and zenith, 0 for azimuth
/// and elevation.
pub struct SolarPositions {
    /// Sun incidence on the east-facing half, scaled degrees, capped at 90.
    pub incidence_east: Vec<i64>,
    /// Sun incidence on the west-facing half, scaled degrees, capped at 90.
    pub incidence_west: Vec<i64>,
    /// Sun azimuth, scaled degrees.
    pub azimuth: Vec<i64>,
    /// Sun elevation, scaled degrees, floored at 0.
    pub elevation: Vec<i64>,
    /// Sun zenith angle, scaled degrees, clamped into [0, 90].
    pub zenith: Vec<i64>,
    /// First daylight minute of the day.
    pub sunrise: usize,
    /// First minute after daylight.
    pub sunset: usize,
}

/// Well-formedness of a day's solar geometry: full-length series, ordered
/// daylight window, and every angle inside the ranges the engine computes on.
pub open spec fn wf_solar_positions(sp: SolarPositions) -> bool {
    &&& sp.incidence_east.len() == MINUTES
    &&& sp.incidence_west.len() == MINUTES
    &&& sp.azimuth.len() == MINUTES
    &&& sp.elevation.len() == MINUTES
    &&& sp.zenith.len() == MINUTES
    &&& sp.sunrise <= sp.sunset < MINUTES
    &&& forall|i: int|
        0 <= i < MINUTES ==> -360_000_000 <= #[trigger] sp.incidence_east[i] <= 90_000_000
    &&& forall|i: int|
        0 <= i < MINUTES ==> -360_000_000 <= #[trigger] sp.incidence_west[i] <= 90_000_000
    &&& forall|i: int| 0 <= i < MINUTES ==> 0 <= #[trigger] sp.zenith[i] <= 90_000_000
    &&& forall|i: int|
        0 <= i < MINUTES ==> -360_000_000 <= #[trigger] sp.azimuth[i] <= 360_000_000
    &&& forall|i: int|
        0 <= i < MINUTES ==> -360_000_000 <= #[trigger] sp.elevation[i] <= 360_000_000
}

/// One raw geometry reading for one daylight minute, as the geometry provider
/// reports it.
#[derive(Clone, Copy)]
pub struct SunSample {
    /// Sun incidence on the east-facing half, scaled degrees.
    pub incidence_east: i64,
    /// Sun incidence on the west-facing half, scaled degrees.
    pub incidence_west: i64,
    /// Sun zenith angle, scaled degrees.
    pub zenith: i64,
    /// Sun azimuth, scaled degrees.
    pub azimuth: i64,
    /// Sun elevation, scaled degrees.
    pub elevation: i64,
}

/// A raw sample the sampler accepts: every angle within one full turn.
pub open spec fn valid_sample(s: SunSample) -> bool {
    &&& -360_000_000 <= s.incidence_east <= 360_000_000
    &&& -360_000_000 <= s.incidence_west <= 360_000_000
    &&& -360_000_000 <= s.zenith <= 360_000_000
    &&& -360_000_000 <= s.azimuth <= 360_000_000
    &&& -360_000_000 <= s.elevation <= 360_000_000
}

/// The estimated production of one day, with its diagnostic series.
pub struct Production {
    /// Estimated power, scaled kilowatts.
    pub power: Vec<DataItem>,
    /// Sun incidence on the east-facing half, scaled degrees.
    pub incidence_east: Vec<DataItem>,
    /// Sun incidence on the west-facing half, scaled degrees.
    pub incidence_west: Vec<DataItem>,
    /// Ambient temperature, scaled degrees Celsius.
    pub ambient_temperature: Vec<DataItem>,
    /// Roof temperature of the east-facing half, scaled degrees Celsius.
    pub roof_temperature_east: Vec<DataItem>,
    /// Roof temperature of the west-facing half, scaled degrees Celsius.
    pub roof_temperature_west: Vec<DataItem>,
    /// Atmospheric attenuation factor, scaled.
    pub air_mass_effect: Vec<DataItem>,
}

/// Error of the production estimation: a precondition violation or a failure
/// reported by the solar geometry provider.
#[derive(Debug)]
pub struct ProdError(pub String);

impl ProdError {
    /// The error message.
    pub fn message(&self) -> &String {
        &self.0
    }
}

} // verus!
