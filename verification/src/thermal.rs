//! First-order RC thermal model of the roof, advanced by explicit Euler
//! integration one sample at a time.

use vstd::prelude::*;
use crate::fixed::{
    SCALE, sdiv, sfrac, smul, spec_cos_deg, cos_deg, mul_scaled, div_i64, lemma_mul_le,
    lemma_smul_bound, lemma_smul_contract, lemma_div_lt, lemma_div_ge,
};
use crate::models::ProdError;

verus! {

/// The cloud attenuation at one sample: the given series, or no attenuation.
pub open spec fn spec_cloud_at(clouds: Option<Seq<i64>>, k: int) -> int {
    match clouds {
        Some(c) => c[k] as int,
        None => SCALE as int,
    }
}

/// The initial roof temperature: the given one, or the first air sample.
pub open spec fn spec_initial_temp(t0: Option<i64>, t_air: Seq<i64>) -> int {
    match t0 {
        Some(v) => v as int,
        None => t_air[0] as int,
    }
}

/// The cooling time constant: the given one, or the heating constant.
pub open spec fn spec_tau_cool(tau_down: Option<i64>, tau: int) -> int {
    match tau_down {
        Some(v) => v as int,
        None => tau,
    }
}

/// Equilibrium temperature of one sample: air temperature plus the sun boost
/// `k_gain * max(0, cos(incidence)) * cloud`.
pub open spec fn spec_equilibrium(air: int, inc: int, cloud: int, k_gain: int) -> int {
    let c0 = spec_cos_deg(inc);
    let proj = if c0 < 0 {
        0
    } else {
        c0
    };
    air + smul(smul(k_gain, proj), cloud)
}

/// One explicit Euler step of the thermal relaxation toward the equilibrium
/// temperature, with the heating constant when warming and the cooling
/// constant otherwise.
pub open spec fn spec_roof_step(prev: int, t_eq: int, dt: int, tau: int, tau_cool: int) -> int {
    let tau_eff = if t_eq > prev {
        tau
    } else {
        tau_cool
    };
    prev + smul(t_eq - prev, sfrac(dt, tau_eff))
}

/// Roof temperature after `k` steps of the recurrence.
pub open spec fn spec_roof_at(
    t_air: Seq<i64>,
    inc: Seq<i64>,
    clouds: Option<Seq<i64>>,
    dt: int,
    tau: int,
    k_gain: int,
    t0: Option<i64>,
    tau_down: Option<i64>,
    k: nat,
) -> int
    decreases k,
{
    if k == 0 {
        spec_initial_temp(t0, t_air)
    } else {
        let prev = spec_roof_at(t_air, inc, clouds, dt, tau, k_gain, t0, tau_down, (k - 1) as nat);
        let t_eq = spec_equilibrium(
            t_air[k as int] as int,
            inc[k as int] as int,
            spec_cloud_at(clouds, k as int),
            k_gain,
        );
        spec_roof_step(prev, t_eq, dt, tau, spec_tau_cool(tau_down, tau))
    }
}

/// The inputs on which the model computes: equal lengths and positive time
/// constants.  An empty input is a valid no-op and is not tested against
/// these.
pub open spec fn roof_inputs_ok(
    t_air: Seq<i64>,
    inc: Seq<i64>,
    dt: int,
    tau: int,
    clouds: Option<Seq<i64>>,
    tau_down: Option<i64>,
) -> bool {
    &&& inc.len() == t_air.len()
    &&& match clouds {
        Some(c) => c.len() == t_air.len(),
        None => true,
    }
    &&& dt > 0
    &&& tau > 0
    &&& match tau_down {
        Some(td) => td > 0,
        None => true,
    }
}

/// The cloud series as a mathematical sequence.
pub open spec fn spec_clouds_view(clouds: Option<&Vec<i64>>) -> Option<Seq<i64>> {
    match clouds {
        Some(c) => Some(c@),
        None => None,
    }
}

/// Roof temperature over time using a first-order RC model.
///
/// State update, per sample: the roof relaxes toward the equilibrium
/// temperature by the fraction `dt / tau`, heating with `tau` and cooling
/// with `tau_down` (or `tau` when none is given).  An empty input returns an
/// empty series; mismatched lengths or a non-positive time step or time
/// constant fail loudly with an error.
pub fn roof_temperature(
    t_air: &Vec<i64>,
    inc_deg: &Vec<i64>,
    dt: i64,
    tau: i64,
    k_gain: i64,
    clouds: Option<&Vec<i64>>,
    t0: Option<i64>,
    tau_down: Option<i64>,
) -> (r: Result<Vec<i64>, ProdError>)
    requires
        forall|i: int|
            0 <= i < t_air.len() ==> -1_000_000_000 <= #[trigger] t_air[i] <= 1_000_000_000,
        forall|i: int| 0 <= i < inc_deg.len() ==> #[trigger] inc_deg[i] > i64::MIN,
        0 <= k_gain <= 1_000_000_000,
        clouds matches Some(c) ==> forall|i: int|
            0 <= i < c.len() ==> 0 <= #[trigger] c[i] <= SCALE,
        t0 matches Some(v) ==> -1_000_000_000 <= v <= 1_000_000_000,
        dt <= 9_000_000_000_000,
        0 < dt && 0 < tau ==> dt <= tau,
        tau_down matches Some(td) ==> (0 < dt && 0 < td ==> dt <= td),
    ensures
        r is Ok <==> (t_air.len() == 0 || roof_inputs_ok(
            t_air@,
            inc_deg@,
            dt as int,
            tau as int,
            spec_clouds_view(clouds),
            tau_down,
        )),
        r matches Ok(v) ==> v.len() == t_air.len(),
        r matches Ok(v) ==> forall|k: int|
            0 <= k < v.len() ==> -2_000_000_000 <= #[trigger] v[k] <= 2_000_000_000,
        r matches Ok(v) ==> forall|k: int|
            0 <= k < v.len() ==> #[trigger] v[k] == spec_roof_at(
                t_air@,
                inc_deg@,
                spec_clouds_view(clouds),
                dt as int,
                tau as int,
                k_gain as int,
                t0,
                tau_down,
                k as nat,
            ),
{
    let n: usize = t_air.len();
    if n == 0 {
        return Ok(Vec::new());
    }
    if inc_deg.len() != n {
        return Err(ProdError("inc_deg must match t_air length".to_string()));
    }
    if let Some(c) = clouds {
        if c.len() != n {
            return Err(ProdError("clouds must match t_air length".to_string()));
        }
    }
    if dt <= 0 {
        return Err(ProdError("dt must be > 0".to_string()));
    }
    if tau <= 0 {
        return Err(ProdError("tau must be > 0".to_string()));
    }
    if let Some(td) = tau_down {
        if td <= 0 {
            return Err(ProdError("tau_down must be > 0".to_string()));
        }
    }
    let tau_cool: i64 = match tau_down {
        Some(td) => td,
        None => tau,
    };
    let first: i64 = match t0 {
        Some(v) => v,
        None => t_air[0],
    };
    let mut out: Vec<i64> = Vec::new();
    out.push(first);
    let mut k: usize = 1;
    while k < n
        invariant
            1 <= k <= n,
            n == t_air.len(),
            n == inc_deg.len(),
            out.len() == k,
            forall|i: int|
                0 <= i < t_air.len() ==> -1_000_000_000 <= #[trigger] t_air[i] <= 1_000_000_000,
            forall|i: int| 0 <= i < inc_deg.len() ==> #[trigger] inc_deg[i] > i64::MIN,
            0 <= k_gain <= 1_000_000_000,
            clouds matches Some(c) ==> c.len() == n && forall|i: int|
                0 <= i < c@.len() ==> 0 <= #[trigger] c@[i] <= SCALE,
            0 < dt <= 9_000_000_000_000,
            dt <= tau,
            dt <= tau_cool,
            tau_cool == spec_tau_cool(tau_down, tau as int),
            first == spec_initial_temp(t0, t_air@),
            -2_000_000_000 <= out[k - 1] <= 2_000_000_000,
            forall|i: int| 0 <= i < k ==> -2_000_000_000 <= #[trigger] out[i] <= 2_000_000_000,
            forall|i: int|
                0 <= i < k ==> #[trigger] out[i] == spec_roof_at(
                    t_air@,
                    inc_deg@,
                    spec_clouds_view(clouds),
                    dt as int,
                    tau as int,
                    k_gain as int,
                    t0,
                    tau_down,
                    i as nat,
                ),
        decreases n - k,
    {
        let cloud_k: i64 = match clouds {
            Some(c) => c[k],
            None => SCALE,
        };
        let c0: i64 = cos_deg(inc_deg[k]);
        let proj: i64 = if c0 < 0 {
            0
        } else {
            c0
        };
        proof {
            lemma_mul_le(k_gain as int, 1_000_000_000, proj as int, SCALE as int);
        }
        let g1: i64 = mul_scaled(k_gain, proj);
        proof {
            lemma_smul_bound(k_gain as int, 1_000_000_000, proj as int, SCALE as int);
            lemma_mul_le(g1 as int, 1_000_000_000, cloud_k as int, SCALE as int);
        }
        let boost: i64 = mul_scaled(g1, cloud_k);
        proof {
            lemma_smul_bound(g1 as int, 1_000_000_000, cloud_k as int, SCALE as int);
        }
        let t_eq: i64 = t_air[k] + boost;
        let prev: i64 = out[k - 1];
        let tau_eff: i64 = if t_eq > prev {
            tau
        } else {
            tau_cool
        };
        let alpha: i64 = div_i64(dt * SCALE, tau_eff);
        proof {
            lemma_div_ge(dt as int * (SCALE as int), tau_eff as int, 0);
            assert(dt as int * (SCALE as int) < tau_eff as int * ((SCALE as int) + 1))
                by (nonlinear_arith)
                requires
                    0 < dt <= tau_eff,
            ;
            lemma_div_lt(dt as int * (SCALE as int), tau_eff as int, SCALE as int);
            assert(0 <= alpha <= SCALE);
            lemma_mul_le(t_eq as int - prev as int, 4_000_000_000, alpha as int, SCALE as int);
            lemma_smul_contract(t_eq as int - prev as int, alpha as int);
        }
        let step: i64 = mul_scaled(t_eq - prev, alpha);
        let next: i64 = prev + step;
        proof {
            assert(next == spec_roof_step(
                prev as int,
                t_eq as int,
                dt as int,
                tau as int,
                tau_cool as int,
            ));
            assert(-2_000_000_000 <= next <= 2_000_000_000);
        }
        out.push(next);
        k = k + 1;
    }
    Ok(out)
}

/// Law: when every step's equilibrium temperature is one constant `c` (for
/// instance a constant ambient temperature with no sun gain), the roof
/// temperature moves from its initial value toward `c` monotonically and
/// never overshoots it.
pub proof fn lemma_roof_temperature_converges(
    t_air: Seq<i64>,
    inc: Seq<i64>,
    clouds: Option<Seq<i64>>,
    dt: int,
    tau: int,
    k_gain: int,
    t0: Option<i64>,
    tau_down: Option<i64>,
    c: int,
    k: nat,
)
    requires
        0 < dt <= tau,
        tau_down matches Some(td) ==> dt <= td,
        forall|j: int|
            1 <= j <= k ==> spec_equilibrium(
                t_air[j] as int,
                inc[j] as int,
                spec_cloud_at(clouds, j),
                k_gain,
            ) == c,
    ensures
        spec_initial_temp(t0, t_air) <= c ==> spec_initial_temp(t0, t_air) <= spec_roof_at(
            t_air,
            inc,
            clouds,
            dt,
            tau,
            k_gain,
            t0,
            tau_down,
            k,
        ) <= c,
        spec_initial_temp(t0, t_air) >= c ==> c <= spec_roof_at(
            t_air,
            inc,
            clouds,
            dt,
            tau,
            k_gain,
            t0,
            tau_down,
            k,
        ) <= spec_initial_temp(t0, t_air),
        k >= 1 && spec_initial_temp(t0, t_air) <= c ==> spec_roof_at(
            t_air,
            inc,
            clouds,
            dt,
            tau,
            k_gain,
            t0,
            tau_down,
            (k - 1) as nat,
        ) <= spec_roof_at(t_air, inc, clouds, dt, tau, k_gain, t0, tau_down, k),
        k >= 1 && spec_initial_temp(t0, t_air) >= c ==> spec_roof_at(
            t_air,
            inc,
            clouds,
            dt,
            tau,
            k_gain,
            t0,
            tau_down,
            k,
        ) <= spec_roof_at(t_air, inc, clouds, dt, tau, k_gain, t0, tau_down, (k - 1) as nat),
    decreases k,
{
    if k > 0 {
        lemma_roof_temperature_converges(
            t_air,
            inc,
            clouds,
            dt,
            tau,
            k_gain,
            t0,
            tau_down,
            c,
            (k - 1) as nat,
        );
        let prev = spec_roof_at(t_air, inc, clouds, dt, tau, k_gain, t0, tau_down, (k - 1) as nat);
        let tau_eff = if c > prev {
            tau
        } else {
            spec_tau_cool(tau_down, tau)
        };
        let alpha = sfrac(dt, tau_eff);
        lemma_div_ge(dt * (SCALE as int), tau_eff, 0);
        assert(dt * (SCALE as int) < tau_eff * ((SCALE as int) + 1)) by (nonlinear_arith)
            requires
                0 < dt <= tau_eff,
        ;
        lemma_div_lt(dt * (SCALE as int), tau_eff, SCALE as int);
        lemma_smul_contract(c - prev, alpha);
    }
}

/// Law: with a constant ambient temperature and no direct sun (every
/// incidence cosine at or below zero), the roof temperature approaches that
/// ambient value monotonically from any initial value, and never overshoots
/// it.
pub proof fn lemma_roof_constant_ambient_converges(
    t_air: Seq<i64>,
    inc: Seq<i64>,
    dt: int,
    tau: int,
    k_gain: int,
    t0: Option<i64>,
    tau_down: Option<i64>,
    c: int,
    k: nat,
)
    requires
        0 < dt <= tau,
        tau_down matches Some(td) ==> dt <= td,
        0 <= k_gain,
        forall|j: int| 1 <= j <= k ==> #[trigger] t_air[j] == c,
        forall|j: int| 1 <= j <= k ==> spec_cos_deg(#[trigger] inc[j] as int) <= 0,
    ensures
        spec_initial_temp(t0, t_air) <= c ==> spec_initial_temp(t0, t_air) <= spec_roof_at(
            t_air,
            inc,
            None,
            dt,
            tau,
            k_gain,
            t0,
            tau_down,
            k,
        ) <= c,
        spec_initial_temp(t0, t_air) >= c ==> c <= spec_roof_at(
            t_air,
            inc,
            None,
            dt,
            tau,
            k_gain,
            t0,
            tau_down,
            k,
        ) <= spec_initial_temp(t0, t_air),
        k >= 1 && spec_initial_temp(t0, t_air) <= c ==> spec_roof_at(
            t_air,
            inc,
            None,
            dt,
            tau,
            k_gain,
            t0,
            tau_down,
            (k - 1) as nat,
        ) <= spec_roof_at(t_air, inc, None, dt, tau, k_gain, t0, tau_down, k),
        k >= 1 && spec_initial_temp(t0, t_air) >= c ==> spec_roof_at(
            t_air,
            inc,
            None,
            dt,
            tau,
            k_gain,
            t0,
            tau_down,
            k,
        ) <= spec_roof_at(t_air, inc, None, dt, tau, k_gain, t0, tau_down, (k - 1) as nat),
{
    assert forall|j: int| 1 <= j <= k implies spec_equilibrium(
        t_air[j] as int,
        inc[j] as int,
        spec_cloud_at(None, j),
        k_gain,
    ) == c by {
        assert(k_gain * 0 == 0);
        assert(sdiv(0, SCALE as int) == 0) by (nonlinear_arith);
        assert(smul(k_gain, 0) == 0);
        assert(smul(0, SCALE as int) == 0) by (nonlinear_arith);
    }
    lemma_roof_temperature_converges(t_air, inc, None, dt, tau, k_gain, t0, tau_down, c, k);
}

/// Roof temperature of one panel face for a full day, from the day's
/// parameters: a one-minute step, time constants in hours, no cloud series
/// and the first ambient sample as the initial value.
pub fn get_roof_temperature(params: &crate::models::Parameters, inc_deg: &Vec<i64>) -> (r: Vec<
    i64,
>)
    requires
        crate::models::valid_parameters(*params),
        inc_deg.len() == params.temp.len(),
        forall|i: int| 0 <= i < inc_deg.len() ==> #[trigger] inc_deg[i] > i64::MIN,
    ensures
        r.len() == params.temp.len(),
        forall|k: int| 0 <= k < r.len() ==> -2_000_000_000 <= #[trigger] r[k] <= 2_000_000_000,
        forall|k: int|
            0 <= k < r.len() ==> #[trigger] r[k] == spec_roof_at(
                params.temp@,
                inc_deg@,
                None,
                60 * SCALE as int,
                3600 * params.tau as int,
                params.k_gain as int,
                None,
                Some((3600 * params.tau_down) as i64),
                k as nat,
            ),
{
    let tau_s: i64 = 3600 * params.tau;
    let tau_down_s: i64 = 3600 * params.tau_down;
    let r = roof_temperature(
        &params.temp,
        inc_deg,
        60 * SCALE,
        tau_s,
        params.k_gain,
        None,
        None,
        Some(tau_down_s),
    );
    match r {
        Ok(v) => v,
        Err(_) => {
            proof {
                assert(false);
            }
            Vec::new()
        },
    }
}

} // verus!
