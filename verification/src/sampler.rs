//! Assembly of a day's solar geometry from per-minute readings of the
//! geometry provider: capping, clamping and the sentinel defaults outside
//! the daylight window.

use vstd::prelude::*;
use crate::fixed::{DEG_90, spec_clamp};
use crate::models::{
    SolarPositions, SunSample, ProdError, wf_solar_positions, valid_sample, MINUTES,
};

verus! {

broadcast use vstd::seq_lib::group_seq_properties;

/// An incidence reading capped at 90 degrees: beyond that the panel face
/// receives no direct beam.
pub open spec fn spec_cap90(v: int) -> int {
    if v > DEG_90 as int {
        DEG_90 as int
    } else {
        v
    }
}

/// An elevation reading floored at the horizon.
pub open spec fn spec_floor0(v: int) -> int {
    if v < 0 {
        0
    } else {
        v
    }
}

/// Minute `j` of the series holds the sentinel defaults: 90 degrees for the
/// incidences and the zenith, 0 for azimuth and elevation.
pub open spec fn sentinel_minute(sp: SolarPositions, j: int) -> bool {
    &&& sp.incidence_east[j] == DEG_90
    &&& sp.incidence_west[j] == DEG_90
    &&& sp.zenith[j] == DEG_90
    &&& sp.azimuth[j] == 0
    &&& sp.elevation[j] == 0
}

/// Minute `j` of the series holds the sample `s`, capped, clamped and
/// floored.
pub open spec fn sampled_minute(sp: SolarPositions, s: SunSample, j: int) -> bool {
    &&& sp.incidence_east[j] == spec_cap90(s.incidence_east as int)
    &&& sp.incidence_west[j] == spec_cap90(s.incidence_west as int)
    &&& sp.zenith[j] == spec_clamp(s.zenith as int, 0, DEG_90 as int)
    &&& sp.azimuth[j] == s.azimuth
    &&& sp.elevation[j] == spec_floor0(s.elevation as int)
}

/// The east-incidence series the sampler builds: capped readings inside the
/// daylight window, the sentinel outside.
pub open spec fn spec_built_incidence_east(sunrise: int, sunset: int, s: Seq<SunSample>) -> Seq<
    i64,
> {
    Seq::new(
        MINUTES as nat,
        |m: int|
            (if sunrise <= m < sunset {
                spec_cap90(s[m - sunrise].incidence_east as int)
            } else {
                DEG_90 as int
            }) as i64,
    )
}

/// The west-incidence series the sampler builds.
pub open spec fn spec_built_incidence_west(sunrise: int, sunset: int, s: Seq<SunSample>) -> Seq<
    i64,
> {
    Seq::new(
        MINUTES as nat,
        |m: int|
            (if sunrise <= m < sunset {
                spec_cap90(s[m - sunrise].incidence_west as int)
            } else {
                DEG_90 as int
            }) as i64,
    )
}

/// The zenith series the sampler builds: readings clamped into `[0, 90]`
/// inside the window, the sentinel outside.
pub open spec fn spec_built_zenith(sunrise: int, sunset: int, s: Seq<SunSample>) -> Seq<i64> {
    Seq::new(
        MINUTES as nat,
        |m: int|
            (if sunrise <= m < sunset {
                spec_clamp(s[m - sunrise].zenith as int, 0, DEG_90 as int)
            } else {
                DEG_90 as int
            }) as i64,
    )
}

/// The azimuth series the sampler builds: readings inside the window, zero
/// outside.
pub open spec fn spec_built_azimuth(sunrise: int, sunset: int, s: Seq<SunSample>) -> Seq<i64> {
    Seq::new(
        MINUTES as nat,
        |m: int|
            (if sunrise <= m < sunset {
                s[m - sunrise].azimuth as int
            } else {
                0
            }) as i64,
    )
}

/// The elevation series the sampler builds: readings floored at the horizon
/// inside the window, zero outside.
pub open spec fn spec_built_elevation(sunrise: int, sunset: int, s: Seq<SunSample>) -> Seq<i64> {
    Seq::new(
        MINUTES as nat,
        |m: int|
            (if sunrise <= m < sunset {
                spec_floor0(s[m - sunrise].elevation as int)
            } else {
                0
            }) as i64,
    )
}

/// Builds the day's solar position series from the daylight window and one
/// raw geometry sample per daylight minute, in minute order.
///
/// Incidence is capped at 90 degrees, the zenith angle clamped into
/// `[0, 90]`, elevation floored at 0; minutes outside `[sunrise, sunset)`
/// keep the sentinel defaults.  A window out of order or beyond the day, a
/// sample count other than one per daylight minute, or an angle beyond one
/// full turn is rejected.
pub fn build_solar_positions(sunrise: usize, sunset: usize, samples: &Vec<SunSample>) -> (r:
    Result<SolarPositions, ProdError>)
    ensures
        r is Ok <==> {
            &&& sunrise <= sunset < MINUTES
            &&& samples.len() == sunset - sunrise
            &&& forall|i: int| 0 <= i < samples.len() ==> valid_sample(#[trigger] samples[i])
        },
        r matches Ok(sp) ==> {
            &&& wf_solar_positions(sp)
            &&& sp.sunrise == sunrise
            &&& sp.sunset == sunset
            &&& forall|m: int|
                0 <= m < MINUTES && !(sunrise <= m < sunset) ==> #[trigger] sentinel_minute(sp, m)
            &&& forall|m: int|
                sunrise <= m < sunset ==> #[trigger] sampled_minute(sp, samples[m - sunrise], m)
            &&& sp.incidence_east@ == spec_built_incidence_east(
                sunrise as int,
                sunset as int,
                samples@,
            )
            &&& sp.incidence_west@ == spec_built_incidence_west(
                sunrise as int,
                sunset as int,
                samples@,
            )
            &&& sp.zenith@ == spec_built_zenith(sunrise as int, sunset as int, samples@)
            &&& sp.azimuth@ == spec_built_azimuth(sunrise as int, sunset as int, samples@)
            &&& sp.elevation@ == spec_built_elevation(sunrise as int, sunset as int, samples@)
        },
{
    if !(sunrise <= sunset && sunset < MINUTES) {
        return Err(ProdError("daylight window out of order or beyond the day".to_string()));
    }
    if samples.len() != sunset - sunrise {
        return Err(ProdError("one geometry sample per daylight minute is required".to_string()));
    }
    let mut i: usize = 0;
    while i < samples.len()
        invariant
            i <= samples.len(),
            forall|j: int| 0 <= j < i ==> valid_sample(#[trigger] samples[j]),
        decreases samples.len() - i,
    {
        let s = samples[i];
        if s.incidence_east < -360_000_000 || s.incidence_east > 360_000_000
            || s.incidence_west < -360_000_000 || s.incidence_west > 360_000_000 || s.zenith
            < -360_000_000 || s.zenith > 360_000_000 || s.azimuth < -360_000_000 || s.azimuth
            > 360_000_000 || s.elevation < -360_000_000 || s.elevation > 360_000_000 {
            return Err(ProdError("geometry angle beyond one full turn".to_string()));
        }
        i = i + 1;
    }
    let mut incidence_east: Vec<i64> = Vec::new();
    let mut incidence_west: Vec<i64> = Vec::new();
    let mut zenith: Vec<i64> = Vec::new();
    let mut azimuth: Vec<i64> = Vec::new();
    let mut elevation: Vec<i64> = Vec::new();
    let mut m: usize = 0;
    while m < MINUTES
        invariant
            m <= MINUTES,
            sunrise <= sunset < MINUTES,
            samples.len() == sunset - sunrise,
            forall|j: int| 0 <= j < samples.len() ==> valid_sample(#[trigger] samples[j]),
            incidence_east.len() == m,
            incidence_west.len() == m,
            zenith.len() == m,
            azimuth.len() == m,
            elevation.len() == m,
            forall|j: int|
                0 <= j < m ==> #[trigger] incidence_east[j] == (if sunrise <= j < sunset {
                    spec_cap90(samples[j - sunrise].incidence_east as int)
                } else {
                    DEG_90 as int
                }),
            forall|j: int|
                0 <= j < m ==> #[trigger] incidence_west[j] == (if sunrise <= j < sunset {
                    spec_cap90(samples[j - sunrise].incidence_west as int)
                } else {
                    DEG_90 as int
                }),
            forall|j: int|
                0 <= j < m ==> #[trigger] zenith[j] == (if sunrise <= j < sunset {
                    spec_clamp(samples[j - sunrise].zenith as int, 0, DEG_90 as int)
                } else {
                    DEG_90 as int
                }),
            forall|j: int|
                0 <= j < m ==> #[trigger] azimuth[j] == (if sunrise <= j < sunset {
                    samples[j - sunrise].azimuth as int
                } else {
                    0
                }),
            forall|j: int|
                0 <= j < m ==> #[trigger] elevation[j] == (if sunrise <= j < sunset {
                    spec_floor0(samples[j - sunrise].elevation as int)
                } else {
                    0
                }),
        decreases MINUTES - m,
    {
        if m >= sunrise && m < sunset {
            let s = samples[m - sunrise];
            let ie: i64 = if s.incidence_east > DEG_90 {
                DEG_90
            } else {
                s.incidence_east
            };
            let iw: i64 = if s.incidence_west > DEG_90 {
                DEG_90
            } else {
                s.incidence_west
            };
            let ze: i64 = if s.zenith < 0 {
                0
            } else if s.zenith > DEG_90 {
                DEG_90
            } else {
                s.zenith
            };
            let el: i64 = if s.elevation < 0 {
                0
            } else {
                s.elevation
            };
            incidence_east.push(ie);
            incidence_west.push(iw);
            zenith.push(ze);
            azimuth.push(s.azimuth);
            elevation.push(el);
        } else {
            incidence_east.push(DEG_90);
            incidence_west.push(DEG_90);
            zenith.push(DEG_90);
            azimuth.push(0);
            elevation.push(0);
        }
        m = m + 1;
    }
    let sp = SolarPositions {
        incidence_east,
        incidence_west,
        azimuth,
        elevation,
        zenith,
        sunrise,
        sunset,
    };
    proof {
        assert forall|j: int|
            0 <= j < MINUTES && !(sunrise <= j < sunset) implies #[trigger] sentinel_minute(
            sp,
            j,
        ) by {
            assert(sp.incidence_east[j] == DEG_90);
            assert(sp.incidence_west[j] == DEG_90);
            assert(sp.zenith[j] == DEG_90);
            assert(sp.azimuth[j] == 0);
            assert(sp.elevation[j] == 0);
        }
        assert forall|j: int| sunrise <= j < sunset implies #[trigger] sampled_minute(
            sp,
            samples[j - sunrise],
            j,
        ) by {
            assert(sp.incidence_east[j] == spec_cap90(samples[j - sunrise].incidence_east as int));
            assert(sp.incidence_west[j] == spec_cap90(samples[j - sunrise].incidence_west as int));
            assert(sp.zenith[j] == spec_clamp(samples[j - sunrise].zenith as int, 0, DEG_90 as int));
            assert(sp.azimuth[j] == samples[j - sunrise].azimuth);
            assert(sp.elevation[j] == spec_floor0(samples[j - sunrise].elevation as int));
        }
        assert forall|j: int| 0 <= j < MINUTES implies -360_000_000
            <= #[trigger] sp.incidence_east[j] <= 90_000_000 && -360_000_000
            <= sp.incidence_west[j] <= 90_000_000 && 0 <= sp.zenith[j] <= 90_000_000
            && -360_000_000 <= sp.azimuth[j] <= 360_000_000 && -360_000_000 <= sp.elevation[j]
            <= 360_000_000 by {
            if sunrise <= j < sunset {
                assert(sampled_minute(sp, samples[j - sunrise], j));
                assert(valid_sample(samples[j - sunrise]));
            } else {
                assert(sentinel_minute(sp, j));
            }
        }
        assert(wf_solar_positions(sp));
        let ghost sr = sunrise as int;
        let ghost ss = sunset as int;
        assert forall|m: int| 0 <= m < MINUTES implies sp.incidence_east@[m]
            == spec_built_incidence_east(sr, ss, samples@)[m] && sp.incidence_west@[m]
            == spec_built_incidence_west(sr, ss, samples@)[m] && sp.zenith@[m]
            == spec_built_zenith(sr, ss, samples@)[m] && sp.azimuth@[m] == spec_built_azimuth(
            sr,
            ss,
            samples@,
        )[m] && sp.elevation@[m] == spec_built_elevation(sr, ss, samples@)[m] by {
            if sr <= m < ss {
                assert(valid_sample(samples[m - sr]));
            }
        }
        assert(sp.incidence_east@ =~= spec_built_incidence_east(sr, ss, samples@));
        assert(sp.incidence_west@ =~= spec_built_incidence_west(sr, ss, samples@));
        assert(sp.zenith@ =~= spec_built_zenith(sr, ss, samples@));
        assert(sp.azimuth@ =~= spec_built_azimuth(sr, ss, samples@));
        assert(sp.elevation@ =~= spec_built_elevation(sr, ss, samples@));
    }
    Ok(sp)
}

} // verus!
