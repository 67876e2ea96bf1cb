//! The flight-dynamics simulator: thrust-curve interpolation, a quadratic
//! drag and thrust acceleration model, fourth-order Runge-Kutta integration,
//! a delayed apogee estimator and a proportional control law with a
//! slew-rate-limited actuator.
//!
//! All quantities are signed 64-bit fixed-point micro-units (see
//! `crate::fixed`), so every function here is deterministic and its contract
//! states the exact value it computes.

use vstd::prelude::*;

use crate::fixed::{
    fx_add, fx_half, fx_mul, fx_div, fx_sixth, fx_sqrt, fx_sub, spec_abs, spec_clip, spec_fx_add,
    spec_fx_div, spec_fx_half, spec_fx_mul, spec_fx_sixth, spec_fx_sqrt, spec_fx_sub, spec_tdiv,
    FX_SCALE,
};

verus! {

/// Standard gravity, 9.81 m/s^2.
pub const G_FX: i64 = 9_810_000;

/// Integration step of the apogee estimator, 0.1 s.
pub const APOGEE_STEP_FX: i64 = 100_000;

/// Telemetry latency modelled by the delayed estimator, 0.1 s.
pub const DELAY_FX: i64 = 100_000;

/// Maximum actuator slew rate, 800 deg/s.
pub const CANARD_VEL_FX: i64 = 800_000_000;

/// Commanded-angle ceiling, 90 deg.
pub const ANGLE_MAX_FX: i64 = 90_000_000;

/// Refresh interval of the delayed servo command, 0.02 s.
pub const PWM_INTERVAL_FX: i64 = 20_000;

/// Offset from Celsius to Kelvin, 273.15.
pub const TEMP_OFFSET_FX: i64 = 273_150_000;

/// Reference temperature of the standard-atmosphere correction, 288.145.
pub const TEMP_REF_FX: i64 = 288_145_000;

/// Minus one half, the leading drag factor.
pub const NEG_HALF_FX: i64 = -500_000;

/// Simulator inputs: air and vehicle constants, the piecewise-linear thrust
/// curve as parallel time/force sequences, and the control-law parameters.
pub struct SimConfig {
    pub rho: i64,
    pub area: i64,
    pub mass: i64,
    pub base_cd: i64,
    pub canard_cd: i64,
    pub thrust_curve_time: Vec<i64>,
    pub thrust_curve_force: Vec<i64>,
    pub thrust_curve_name: String,
    pub control: bool,
    pub start_time: i64,
    pub param: i64,
    pub p_gain: i64,
}

impl SimConfig {
    /// The breakpoint sequences must be parallel.
    pub open spec fn wf(&self) -> bool {
        self.thrust_curve_time@.len() == self.thrust_curve_force@.len()
    }
}

// ---------------------------------------------------------------------------
// Thrust lookup
// ---------------------------------------------------------------------------

/// The curve value found scanning breakpoints from index `i` on: before the
/// first breakpoint the first force, between breakpoints the linear
/// interpolation, after the last breakpoint zero.
pub open spec fn spec_thrust_from(times: Seq<i64>, forces: Seq<i64>, t: int, i: int) -> int
    recommends
        times.len() == forces.len(),
        0 <= i,
    decreases times.len() - i,
{
    if i < 0 || i >= times.len() {
        0
    } else if t < times[i] {
        if i == 0 {
            forces[0] as int
        } else {
            spec_fx_add(
                spec_fx_mul(
                    spec_fx_div(
                        spec_fx_sub(t, times[i - 1] as int),
                        spec_fx_sub(times[i] as int, times[i - 1] as int),
                    ),
                    spec_fx_sub(forces[i] as int, forces[i - 1] as int),
                ),
                forces[i - 1] as int,
            )
        }
    } else {
        spec_thrust_from(times, forces, t, i + 1)
    }
}

/// Thrust at time `t` for the whole curve.
pub open spec fn spec_thrust(cfg: SimConfig, t: int) -> int {
    spec_thrust_from(cfg.thrust_curve_time@, cfg.thrust_curve_force@, t, 0)
}

/// Piecewise-linear thrust lookup over the configured breakpoints.
pub fn get_thrust(cfg: &SimConfig, t: i64) -> (r: i64)
    requires
        cfg.wf(),
    ensures
        r as int == spec_thrust(*cfg, t as int),
{
    let n = cfg.thrust_curve_time.len();
    let mut i: usize = 0;
    while i < n
        invariant
            cfg.wf(),
            n == cfg.thrust_curve_time@.len(),
            0 <= i <= n,
            spec_thrust(*cfg, t as int) == spec_thrust_from(
                cfg.thrust_curve_time@,
                cfg.thrust_curve_force@,
                t as int,
                i as int,
            ),
        decreases n - i,
    {
        if t < cfg.thrust_curve_time[i] {
            if i == 0 {
                return cfg.thrust_curve_force[0];
            }
            let num = fx_sub(t, cfg.thrust_curve_time[i - 1]);
            let den = fx_sub(cfg.thrust_curve_time[i], cfg.thrust_curve_time[i - 1]);
            let dfo = fx_sub(cfg.thrust_curve_force[i], cfg.thrust_curve_force[i - 1]);
            return fx_add(fx_mul(fx_div(num, den), dfo), cfg.thrust_curve_force[i - 1]);
        }
        i = i + 1;
    }
    0
}

/// Before the first breakpoint the curve is flat at the first force value.
pub proof fn lemma_thrust_before_first(cfg: SimConfig, t: int)
    requires
        cfg.wf(),
        cfg.thrust_curve_time@.len() > 0,
        t < cfg.thrust_curve_time@[0],
    ensures
        spec_thrust(cfg, t) == cfg.thrust_curve_force@[0],
{
}

proof fn lemma_thrust_from_burnout(times: Seq<i64>, forces: Seq<i64>, t: int, i: int)
    requires
        times.len() == forces.len(),
        0 <= i,
        forall|j: int| i <= j < times.len() ==> t >= times[j],
    ensures
        spec_thrust_from(times, forces, t, i) == 0,
    decreases times.len() - i,
{
    if i < times.len() {
        lemma_thrust_from_burnout(times, forces, t, i + 1);
    }
}

/// At or after the last breakpoint the engine has burnt out: thrust is zero.
pub proof fn lemma_thrust_after_last(cfg: SimConfig, t: int)
    requires
        cfg.wf(),
        forall|j: int| 0 <= j < cfg.thrust_curve_time@.len() ==> t >= cfg.thrust_curve_time@[j],
    ensures
        spec_thrust(cfg, t) == 0,
{
    lemma_thrust_from_burnout(cfg.thrust_curve_time@, cfg.thrust_curve_force@, t, 0);
}

// ---------------------------------------------------------------------------
// Acceleration model
// ---------------------------------------------------------------------------

/// Magnitude, saturated, as the executable code computes it.
pub open spec fn spec_fx_abs(v: int) -> int {
    spec_clip(spec_abs(v))
}

fn fx_abs(v: i64) -> (r: i64)
    ensures
        r as int == spec_fx_abs(v as int),
{
    if v >= 0 {
        v
    } else {
        fx_sub(0, v)
    }
}

/// Drag coefficient: the baseline plus the canard term scaled by the
/// realized angle normalized to 90 degrees.
pub open spec fn spec_cd(cfg: SimConfig, angle: int) -> int {
    spec_fx_add(
        cfg.base_cd as int,
        spec_fx_mul(cfg.canard_cd as int, spec_fx_div(angle, ANGLE_MAX_FX as int)),
    )
}

/// Speed along the flight path: `sqrt(vz^2 + vx^2)`.
pub open spec fn spec_speed(vz: int, vx: int) -> int {
    spec_fx_sqrt(spec_fx_add(spec_fx_mul(vz, vz), spec_fx_mul(vx, vx)))
}

/// Cosine of the flight-path angle measured from vertical, via
/// `cos(atan(vx / vz)) == |vz| / speed`; straight up when at rest.
pub open spec fn spec_cos_fpa(vz: int, vx: int) -> int {
    let h = spec_speed(vz, vx);
    if h == 0 {
        FX_SCALE as int
    } else {
        spec_fx_div(spec_fx_abs(vz), h)
    }
}

/// Sine of the flight-path angle, via `sin(atan(vx / vz)) == sign(vz) * vx /
/// speed`; zero when at rest.
pub open spec fn spec_sin_fpa(vz: int, vx: int) -> int {
    let h = spec_speed(vz, vx);
    if h == 0 {
        0
    } else if vz >= 0 {
        spec_fx_div(vx, h)
    } else {
        spec_fx_div(spec_fx_sub(0, vx), h)
    }
}

/// Vertical acceleration: quadratic drag, gravity, and thrust resolved along
/// the flight-path angle.
#[verifier::opaque]
pub open spec fn spec_accel_z(cfg: SimConfig, t: int, vz: int, vx: int, angle: int) -> int {
    let cd = spec_cd(cfg, angle);
    let thrust = spec_thrust(cfg, t);
    let drag = spec_fx_div(
        spec_fx_mul(
            spec_fx_mul(spec_fx_mul(spec_fx_mul(NEG_HALF_FX as int, cfg.rho as int), cfg.area as int), cd),
            spec_fx_mul(vz, vz),
        ),
        cfg.mass as int,
    );
    spec_fx_add(
        spec_fx_sub(drag, G_FX as int),
        spec_fx_mul(spec_fx_div(thrust, cfg.mass as int), spec_cos_fpa(vz, vx)),
    )
}

/// Lateral acceleration: the orthogonal drag and thrust components.
#[verifier::opaque]
pub open spec fn spec_accel_x(cfg: SimConfig, t: int, vz: int, vx: int, angle: int) -> int {
    let cd = spec_cd(cfg, angle);
    let thrust = spec_thrust(cfg, t);
    let drag = spec_fx_div(
        spec_fx_mul(
            spec_fx_mul(spec_fx_mul(spec_fx_mul(NEG_HALF_FX as int, cfg.rho as int), cfg.area as int), cd),
            spec_fx_mul(vx, vx),
        ),
        cfg.mass as int,
    );
    spec_fx_add(drag, spec_fx_mul(spec_fx_div(thrust, cfg.mass as int), spec_sin_fpa(vz, vx)))
}

/// Vertical and lateral acceleration at one instant.
pub fn calc_a(cfg: &SimConfig, ti: i64, vzi: i64, vxi: i64, angle: i64) -> (r: (i64, i64))
    requires
        cfg.wf(),
    ensures
        r.0 as int == spec_accel_z(*cfg, ti as int, vzi as int, vxi as int, angle as int),
        r.1 as int == spec_accel_x(*cfg, ti as int, vzi as int, vxi as int, angle as int),
{
    proof {
        reveal(spec_accel_z);
        reveal(spec_accel_x);
    }
    let cd = fx_add(cfg.base_cd, fx_mul(cfg.canard_cd, fx_div(angle, ANGLE_MAX_FX)));
    let thrust = get_thrust(cfg, ti);
    let speed = fx_sqrt(fx_add(fx_mul(vzi, vzi), fx_mul(vxi, vxi)));
    let cosc: i64 = if speed == 0 {
        FX_SCALE
    } else {
        fx_div(fx_abs(vzi), speed)
    };
    let sinc: i64 = if speed == 0 {
        0
    } else if vzi >= 0 {
        fx_div(vxi, speed)
    } else {
        fx_div(fx_sub(0, vxi), speed)
    };
    let lead = fx_mul(fx_mul(fx_mul(NEG_HALF_FX, cfg.rho), cfg.area), cd);
    let drag_z = fx_div(fx_mul(lead, fx_mul(vzi, vzi)), cfg.mass);
    let drag_x = fx_div(fx_mul(lead, fx_mul(vxi, vxi)), cfg.mass);
    let ta = fx_div(thrust, cfg.mass);
    let az = fx_add(fx_sub(drag_z, G_FX), fx_mul(ta, cosc));
    let ax = fx_add(drag_x, fx_mul(ta, sinc));
    (az, ax)
}

// ---------------------------------------------------------------------------
// Runge-Kutta integration step
// ---------------------------------------------------------------------------

/// `2 * v`, saturated: the exact doubling the integrator applies.
pub open spec fn spec_dbl(v: int) -> int {
    spec_fx_add(v, v)
}

/// One fourth-order Runge-Kutta step of size `h` from `(xi, vzi, vxi)` at
/// time `ti`, holding the realized angle fixed: the new altitude and both
/// velocity components.
#[verifier::opaque]
pub open spec fn spec_solve_iter(
    cfg: SimConfig,
    ti: int,
    xi: int,
    vzi: int,
    vxi: int,
    angle: int,
    h: int,
) -> (int, int, int) {
    let k0z = spec_fx_mul(h, vzi);
    let k0x = spec_fx_mul(h, vxi);
    let l0z = spec_accel_z(cfg, ti, vzi, vxi, angle);
    let l0x = spec_accel_x(cfg, ti, vzi, vxi, angle);
    let tm = spec_fx_add(ti, spec_fx_half(h));
    let k1z = spec_fx_mul(h, spec_fx_add(vzi, spec_fx_half(k0z)));
    let k1x = spec_fx_mul(h, spec_fx_add(vxi, spec_fx_half(k0x)));
    let l1z = spec_accel_z(cfg, tm, spec_fx_add(vzi, spec_fx_half(k0z)), spec_fx_add(vxi, spec_fx_half(k0x)), angle);
    let l1x = spec_accel_x(cfg, tm, spec_fx_add(vzi, spec_fx_half(k0z)), spec_fx_add(vxi, spec_fx_half(k0x)), angle);
    let k2z = spec_fx_mul(h, spec_fx_add(vzi, spec_fx_half(k1z)));
    let k2x = spec_fx_mul(h, spec_fx_add(vxi, spec_fx_half(k1x)));
    let l2z = spec_accel_z(cfg, tm, spec_fx_add(vzi, spec_fx_half(k1z)), spec_fx_add(vxi, spec_fx_half(k1x)), angle);
    let l2x = spec_accel_x(cfg, tm, spec_fx_add(vzi, spec_fx_half(k1z)), spec_fx_add(vxi, spec_fx_half(k1x)), angle);
    let k3z = spec_fx_mul(h, spec_fx_add(vzi, k2z));
    let te = spec_fx_add(ti, h);
    let l3z = spec_accel_z(cfg, te, spec_fx_add(vzi, k2z), spec_fx_add(vxi, k2x), angle);
    let l3x = spec_accel_x(cfg, te, spec_fx_add(vzi, k2z), spec_fx_add(vxi, k2x), angle);
    let xs = spec_fx_add(spec_fx_add(spec_fx_add(k0z, spec_dbl(k1z)), spec_dbl(k2z)), k3z);
    let vzs = spec_fx_add(
        spec_fx_add(
            spec_fx_add(spec_fx_mul(l0z, h), spec_fx_mul(spec_dbl(l1z), h)),
            spec_fx_mul(spec_dbl(l2z), h),
        ),
        spec_fx_mul(l3z, h),
    );
    let vxs = spec_fx_add(
        spec_fx_add(
            spec_fx_add(spec_fx_mul(l0x, h), spec_fx_mul(spec_dbl(l1x), h)),
            spec_fx_mul(spec_dbl(l2x), h),
        ),
        spec_fx_mul(l3x, h),
    );
    (
        spec_fx_add(xi, spec_fx_sixth(xs)),
        spec_fx_add(vzi, spec_fx_sixth(vzs)),
        spec_fx_add(vxi, spec_fx_sixth(vxs)),
    )
}

/// One fourth-order Runge-Kutta step.
pub fn solve_iter(cfg: &SimConfig, ti: i64, xi: i64, vzi: i64, vxi: i64, angle: i64, h: i64) -> (r:
    (i64, i64, i64))
    requires
        cfg.wf(),
    ensures
        r.0 as int == spec_solve_iter(*cfg, ti as int, xi as int, vzi as int, vxi as int, angle as int, h as int).0,
        r.1 as int == spec_solve_iter(*cfg, ti as int, xi as int, vzi as int, vxi as int, angle as int, h as int).1,
        r.2 as int == spec_solve_iter(*cfg, ti as int, xi as int, vzi as int, vxi as int, angle as int, h as int).2,
{
    proof {
        reveal(spec_solve_iter);
    }
    let k0z = fx_mul(h, vzi);
    let k0x = fx_mul(h, vxi);
    let (l0z, l0x) = calc_a(cfg, ti, vzi, vxi, angle);
    let tm = fx_add(ti, fx_half(h));
    let v1z = fx_add(vzi, fx_half(k0z));
    let v1x = fx_add(vxi, fx_half(k0x));
    let k1z = fx_mul(h, v1z);
    let k1x = fx_mul(h, v1x);
    let (l1z, l1x) = calc_a(cfg, tm, v1z, v1x, angle);
    let v2z = fx_add(vzi, fx_half(k1z));
    let v2x = fx_add(vxi, fx_half(k1x));
    let k2z = fx_mul(h, v2z);
    let k2x = fx_mul(h, v2x);
    let (l2z, l2x) = calc_a(cfg, tm, v2z, v2x, angle);
    let v3z = fx_add(vzi, k2z);
    let v3x = fx_add(vxi, k2x);
    let k3z = fx_mul(h, v3z);
    let te = fx_add(ti, h);
    let (l3z, l3x) = calc_a(cfg, te, v3z, v3x, angle);
    let xs = fx_add(fx_add(fx_add(k0z, fx_add(k1z, k1z)), fx_add(k2z, k2z)), k3z);
    let vzs = fx_add(
        fx_add(fx_add(fx_mul(l0z, h), fx_mul(fx_add(l1z, l1z), h)), fx_mul(fx_add(l2z, l2z), h)),
        fx_mul(l3z, h),
    );
    let vxs = fx_add(
        fx_add(fx_add(fx_mul(l0x, h), fx_mul(fx_add(l1x, l1x), h)), fx_mul(fx_add(l2x, l2x), h)),
        fx_mul(l3x, h),
    );
    (fx_add(xi, fx_sixth(xs)), fx_add(vzi, fx_sixth(vzs)), fx_add(vxi, fx_sixth(vxs)))
}

// ---------------------------------------------------------------------------
// Actuator slew model and control clamp
// ---------------------------------------------------------------------------

/// The realized angle after one step of length `dt` tracking the commanded
/// angle at the fixed slew rate: it moves by at most `rate * dt` and snaps
/// onto the command when the gap is no larger than one step's travel.
pub open spec fn spec_realang(dt: int, angle: int, realang: int) -> int {
    let step = spec_fx_mul(CANARD_VEL_FX as int, dt);
    if spec_fx_abs(spec_fx_sub(angle, realang)) > step {
        if angle > realang {
            let up = spec_fx_add(realang, step);
            if up > angle {
                angle
            } else {
                up
            }
        } else if angle < realang {
            let dn = spec_fx_sub(realang, step);
            if dn < angle {
                angle
            } else {
                dn
            }
        } else {
            realang
        }
    } else {
        angle
    }
}

/// Moves the realized angle one step toward the commanded angle.
pub fn get_realang(dt: i64, angle: i64, realang: i64) -> (r: i64)
    ensures
        r as int == spec_realang(dt as int, angle as int, realang as int),
{
    let step = fx_mul(CANARD_VEL_FX, dt);
    if fx_abs(fx_sub(angle, realang)) > step {
        if angle > realang {
            let up = fx_add(realang, step);
            if up > angle {
                angle
            } else {
                up
            }
        } else if angle < realang {
            let dn = fx_sub(realang, step);
            if dn < angle {
                angle
            } else {
                dn
            }
        } else {
            realang
        }
    } else {
        angle
    }
}

/// The realized angle never overshoots the command and never moves faster
/// than the slew rate: for one step under clipping-free magnitudes it stays
/// in the closed interval between the old angle and the command, moves by at
/// most `rate * dt`, and reaches the command exactly when the gap is within
/// one step's travel.
pub proof fn lemma_realang_never_overshoots(dt: int, angle: int, realang: int)
    requires
        0 <= dt <= 1_000_000_000,
        -1_000_000_000_000_000 <= angle <= 1_000_000_000_000_000,
        -1_000_000_000_000_000 <= realang <= 1_000_000_000_000_000,
    ensures
        realang <= angle ==> realang <= spec_realang(dt, angle, realang) <= angle,
        angle <= realang ==> angle <= spec_realang(dt, angle, realang) <= realang,
        spec_abs(spec_realang(dt, angle, realang) - realang) <= spec_abs(angle - realang),
        spec_abs(spec_realang(dt, angle, realang) - realang) <= spec_fx_mul(CANARD_VEL_FX as int, dt),
        spec_abs(angle - realang) <= spec_fx_mul(CANARD_VEL_FX as int, dt) ==> spec_realang(dt, angle, realang) == angle,
{
    let step = spec_fx_mul(CANARD_VEL_FX as int, dt);
    let p = 800_000_000 * dt;
    assert(0 <= p <= 800_000_000_000_000_000) by (nonlinear_arith)
        requires
            0 <= dt <= 1_000_000_000,
            p == 800_000_000 * dt,
        ;
    assert(spec_tdiv(p, 1_000_000) == p / 1_000_000);
    assert(0 <= p / 1_000_000 <= 800_000_000_000);
    assert(step == p / 1_000_000);
}

// ---------------------------------------------------------------------------
// Apogee estimator
// ---------------------------------------------------------------------------

/// State `(t, x, vz, vx)` of the apogee sub-simulation after `n` fixed steps
/// of size `APOGEE_STEP_FX`, starting laterally at rest.
pub open spec fn spec_apogee_iter(
    cfg: SimConfig,
    t0: int,
    x0: int,
    vz0: int,
    angle: int,
    n: nat,
) -> (int, int, int, int)
    decreases n,
{
    if n == 0 {
        (t0, x0, vz0, 0)
    } else {
        let prev = spec_apogee_iter(cfg, t0, x0, vz0, angle, (n - 1) as nat);
        let s = spec_solve_iter(cfg, prev.0, prev.1, prev.2, prev.3, angle, APOGEE_STEP_FX as int);
        (spec_fx_add(prev.0, APOGEE_STEP_FX as int), s.0, s.1, s.2)
    }
}

/// Whether the sub-simulation reaches non-positive vertical velocity for the
/// first time after exactly `n` steps.
pub open spec fn spec_apogee_stops_at(
    cfg: SimConfig,
    t0: int,
    x0: int,
    vz0: int,
    angle: int,
    n: nat,
) -> bool {
    spec_apogee_iter(cfg, t0, x0, vz0, angle, n).2 <= 0 && (forall|m: nat|
        m < n ==> #[trigger] spec_apogee_iter(cfg, t0, x0, vz0, angle, m).2 > 0)
}

/// Step budget of the estimator: more than a week of simulated coasting.
/// A configuration whose model climbs forever (thrust out-pacing gravity
/// and drag at every step) is cut off here instead of never returning.
pub const APOGEE_MAX_STEPS: u64 = 10_000_000;

/// The predicted apogee: the altitude at the first step with non-positive
/// vertical velocity, or the altitude at the step budget if the model never
/// descends within it.
pub open spec fn spec_apogee(cfg: SimConfig, t0: int, vz0: int, x0: int, angle: int) -> int {
    if exists|n: nat|
        n <= APOGEE_MAX_STEPS && spec_apogee_stops_at(cfg, t0, x0, vz0, angle, n) {
        spec_apogee_iter(
            cfg,
            t0,
            x0,
            vz0,
            angle,
            choose|n: nat| n <= APOGEE_MAX_STEPS && spec_apogee_stops_at(cfg, t0, x0, vz0, angle, n),
        ).1
    } else {
        spec_apogee_iter(cfg, t0, x0, vz0, angle, APOGEE_MAX_STEPS as nat).1
    }
}

/// The step at which the sub-simulation first descends is unique.
pub proof fn lemma_apogee_stop_unique(
    cfg: SimConfig,
    t0: int,
    x0: int,
    vz0: int,
    angle: int,
    n1: nat,
    n2: nat,
)
    requires
        spec_apogee_stops_at(cfg, t0, x0, vz0, angle, n1),
        spec_apogee_stops_at(cfg, t0, x0, vz0, angle, n2),
    ensures
        n1 == n2,
{
    if n1 < n2 {
        assert(spec_apogee_iter(cfg, t0, x0, vz0, angle, n1).2 > 0);
    }
    if n2 < n1 {
        assert(spec_apogee_iter(cfg, t0, x0, vz0, angle, n2).2 > 0);
    }
}

/// Fast forward integration with a coarse step from a given state until
/// vertical velocity becomes non-positive: the altitude reached is the
/// predicted apogee were control to stop now.
pub fn get_apogee(cfg: &SimConfig, t0: i64, vz0: i64, x0: i64, angle: i64) -> (r: i64)
    requires
        cfg.wf(),
    ensures
        r as int == spec_apogee(*cfg, t0 as int, vz0 as int, x0 as int, angle as int),
{
    let mut vx: i64 = 0;
    let mut vz: i64 = vz0;
    let mut x: i64 = x0;
    let mut t: i64 = t0;
    let mut steps: u64 = 0;
    while vz > 0 && steps < APOGEE_MAX_STEPS
        invariant
            cfg.wf(),
            steps <= APOGEE_MAX_STEPS,
            t as int == spec_apogee_iter(
                *cfg,
                t0 as int,
                x0 as int,
                vz0 as int,
                angle as int,
                steps as nat,
            ).0,
            x as int == spec_apogee_iter(
                *cfg,
                t0 as int,
                x0 as int,
                vz0 as int,
                angle as int,
                steps as nat,
            ).1,
            vz as int == spec_apogee_iter(
                *cfg,
                t0 as int,
                x0 as int,
                vz0 as int,
                angle as int,
                steps as nat,
            ).2,
            vx as int == spec_apogee_iter(
                *cfg,
                t0 as int,
                x0 as int,
                vz0 as int,
                angle as int,
                steps as nat,
            ).3,
            forall|m: nat|
                m < steps ==> #[trigger] spec_apogee_iter(
                    *cfg,
                    t0 as int,
                    x0 as int,
                    vz0 as int,
                    angle as int,
                    m,
                ).2 > 0,
        decreases APOGEE_MAX_STEPS - steps,
    {
        let (xn, vzn, vxn) = solve_iter(cfg, t, x, vz, vx, angle, APOGEE_STEP_FX);
        x = xn;
        vz = vzn;
        vx = vxn;
        t = fx_add(t, APOGEE_STEP_FX);
        steps = steps + 1;
    }
    proof {
        let ghost n0 = steps as nat;
        if vz <= 0 {
            assert(spec_apogee_stops_at(*cfg, t0 as int, x0 as int, vz0 as int, angle as int, n0));
            let w = choose|n: nat|
                n <= APOGEE_MAX_STEPS && spec_apogee_stops_at(
                    *cfg,
                    t0 as int,
                    x0 as int,
                    vz0 as int,
                    angle as int,
                    n,
                );
            lemma_apogee_stop_unique(*cfg, t0 as int, x0 as int, vz0 as int, angle as int, n0, w);
        } else {
            assert(steps == APOGEE_MAX_STEPS);
            assert forall|n: nat|
                n <= APOGEE_MAX_STEPS implies !spec_apogee_stops_at(
                *cfg,
                t0 as int,
                x0 as int,
                vz0 as int,
                angle as int,
                n,
            ) by {
                if n < steps {
                    assert(spec_apogee_iter(
                        *cfg,
                        t0 as int,
                        x0 as int,
                        vz0 as int,
                        angle as int,
                        n,
                    ).2 > 0);
                }
            }
        }
    }
    x
}

/// With zero air density and an empty thrust curve the model is pure
/// gravity: every Runge-Kutta stage evaluates to `-G`, and one step lowers
/// the vertical velocity by exactly the fixed-point image of `G * h` — the
/// discrete counterpart of the closed-form `v(t) = v0 - G t` under which the
/// apogee estimate approaches `x0 + v0^2 / (2 G)`.
/// With zero air density and an empty thrust curve, the vertical
/// acceleration is exactly `-G` in every state.
pub proof fn lemma_gravity_accel(cfg: SimConfig, t: int, vz: int, vx: int, angle: int)
    requires
        cfg.wf(),
        cfg.rho == 0,
        cfg.thrust_curve_time@.len() == 0,
    ensures
        spec_accel_z(cfg, t, vz, vx, angle) == -(G_FX as int),
{
    reveal(spec_accel_z);
    assert(spec_thrust(cfg, t) == 0);
    assert(spec_fx_mul(NEG_HALF_FX as int, 0) == 0);
    assert(spec_fx_mul(0, cfg.area as int) == 0);
    assert(spec_fx_mul(0, spec_cd(cfg, angle)) == 0);
    assert(spec_fx_mul(0, spec_fx_mul(vz, vz)) == 0);
    assert(spec_fx_div(0, cfg.mass as int) == 0);
    assert(spec_fx_mul(0, spec_cos_fpa(vz, vx)) == 0);
    assert(spec_fx_sub(0, G_FX as int) == -(G_FX as int));
    assert(spec_fx_add(-(G_FX as int), 0) == -(G_FX as int));
}

pub proof fn lemma_gravity_step(
    cfg: SimConfig,
    ti: int,
    xi: int,
    vzi: int,
    vxi: int,
    angle: int,
    h: int,
)
    requires
        cfg.wf(),
        cfg.rho == 0,
        cfg.thrust_curve_time@.len() == 0,
        0 <= h <= 1_000_000_000,
        -1_000_000_000_000_000 <= vzi <= 1_000_000_000_000_000,
    ensures
        spec_accel_z(cfg, ti, vzi, vxi, angle) == -(G_FX as int),
        spec_solve_iter(cfg, ti, xi, vzi, vxi, angle, h).1 == vzi - ((G_FX as int) * h) / (
        FX_SCALE as int),
{
    reveal(spec_solve_iter);
    let g = G_FX as int;
    let s = FX_SCALE as int;
    let aa = g * h;
    assert(0 <= aa <= 9_810_000_000_000_000) by (nonlinear_arith)
        requires
            0 <= h <= 1_000_000_000,
            aa == 9_810_000 * h,
    ;
    vstd::arithmetic::div_mod::lemma_fundamental_div_mod(aa, s);
    vstd::arithmetic::div_mod::lemma_mod_bound(aa, s);
    let a = aa / s;
    let r = aa % s;
    assert(0 <= a <= 9_810_000_000);
    // The doubled stage: 2*aa == (2a)*s + 2r, so its quotient is 2a or 2a + 1.
    let b = (2 * aa) / s;
    if 2 * r < s {
        vstd::arithmetic::div_mod::lemma_fundamental_div_mod_converse(2 * aa, s, 2 * a, 2 * r);
    } else {
        vstd::arithmetic::div_mod::lemma_fundamental_div_mod_converse(
            2 * aa,
            s,
            2 * a + 1,
            2 * r - s,
        );
    }
    assert(b == 2 * a || b == 2 * a + 1);
    // Sum of the four weighted stages, divided by six, gives back `a`.
    let sum = 2 * a + 2 * b;
    if b == 2 * a {
        vstd::arithmetic::div_mod::lemma_fundamental_div_mod_converse(sum, 6, a, 0);
    } else {
        vstd::arithmetic::div_mod::lemma_fundamental_div_mod_converse(sum, 6, a, 2);
    }
    assert(sum / 6 == a);
    // Now walk the integrator's exact arithmetic.
    assert forall|t2: int, vz2: int, vx2: int|
        #[trigger] spec_accel_z(cfg, t2, vz2, vx2, angle) == -g by {
        lemma_gravity_accel(cfg, t2, vz2, vx2, angle);
    }
    assert(spec_fx_mul(-g, h) == -a);
    assert(spec_dbl(-g) == -2 * g);
    assert(spec_fx_mul(-2 * g, h) == -b);
    assert(spec_fx_sixth(-(sum)) == -a);
}

// ---------------------------------------------------------------------------
// Control clamp
// ---------------------------------------------------------------------------

/// Clamp of the commanded angle into the actuator's range.
pub open spec fn spec_clamp_angle(v: int) -> int {
    if v < 0 {
        0
    } else if v > ANGLE_MAX_FX {
        ANGLE_MAX_FX as int
    } else {
        v
    }
}

/// Clamps a commanded angle to `[0, 90]` degrees; whatever the gain or the
/// error magnitude produced the command, the result is always within range.
pub fn clamp_angle(v: i64) -> (r: i64)
    ensures
        r as int == spec_clamp_angle(v as int),
        0 <= r <= ANGLE_MAX_FX,
{
    if v < 0 {
        0
    } else if v > ANGLE_MAX_FX {
        ANGLE_MAX_FX
    } else {
        v
    }
}

/// Under pure gravity the estimator's vertical velocity is exactly linear:
/// after `n` coarse steps it has dropped by exactly `n` times the one-step
/// image of `G` (0.981 per 0.1 s step) — the discrete counterpart of
/// `v(t) = v0 - G t`, under which the predicted apogee approaches
/// `x0 + v0^2 / (2 G)`.
pub proof fn lemma_gravity_vz_linear(
    cfg: SimConfig,
    t0: int,
    x0: int,
    vz0: int,
    angle: int,
    n: nat,
)
    requires
        cfg.wf(),
        cfg.rho == 0,
        cfg.thrust_curve_time@.len() == 0,
        -1_000_000_000_000 <= vz0 <= 1_000_000_000_000,
        n <= 1_000_000,
    ensures
        spec_apogee_iter(cfg, t0, x0, vz0, angle, n).2 == vz0 - (n as int) * 981_000,
    decreases n,
{
    if n > 0 {
        lemma_gravity_vz_linear(cfg, t0, x0, vz0, angle, (n - 1) as nat);
        let prev = spec_apogee_iter(cfg, t0, x0, vz0, angle, (n - 1) as nat);
        assert(-1_000_000_000_000_000 <= prev.2 <= 1_000_000_000_000_000) by (nonlinear_arith)
            requires
                prev.2 == vz0 - ((n - 1) as int) * 981_000,
                -1_000_000_000_000 <= vz0 <= 1_000_000_000_000,
                0 <= (n - 1) as int <= 1_000_000,
        ;
        lemma_gravity_step(cfg, prev.0, prev.1, prev.2, prev.3, angle, APOGEE_STEP_FX as int);
        assert(((G_FX as int) * (APOGEE_STEP_FX as int)) / (FX_SCALE as int) == 981_000);
    }
}

// ---------------------------------------------------------------------------
// Full forward simulation
// ---------------------------------------------------------------------------

/// The integer images of a series of fixed-point values.
pub open spec fn view_i64s(s: Seq<i64>) -> Seq<int> {
    s.map_values(|v: i64| v as int)
}

/// The simulator's whole state: the output series produced so far and the
/// scalars carried from step to step.
#[verifier::ext_equal]
pub struct SimTrace {
    pub times: Seq<int>,
    pub alts: Seq<int>,
    pub vzs: Seq<int>,
    pub vxs: Seq<int>,
    pub azs: Seq<int>,
    pub angles: Seq<int>,
    pub x: int,
    pub vz: int,
    pub vx: int,
    pub angle: int,
    pub realang: int,
    pub angd: int,
    pub angd_t: int,
    pub done: bool,
}

/// The state before the first step.
pub open spec fn spec_sim_init(vx0: int, vz0: int, x0: int) -> SimTrace {
    SimTrace {
        times: Seq::empty(),
        alts: Seq::empty(),
        vzs: Seq::empty(),
        vxs: Seq::empty(),
        azs: Seq::empty(),
        angles: Seq::empty(),
        x: x0,
        vz: vz0,
        vx: vx0,
        angle: 0,
        realang: 0,
        angd: 0,
        angd_t: 0,
        done: false,
    }
}

/// The temperature-compensated target: the configured parameter scaled by
/// the standard-atmosphere correction `(temp + 273.15) / 288.145`.
pub open spec fn spec_sim_target(temp: int, param: int) -> int {
    spec_fx_mul(spec_fx_div(spec_fx_add(temp, TEMP_OFFSET_FX as int), TEMP_REF_FX as int), param)
}

/// The most recent history entry at least `DELAY_FX` older than `now`,
/// searching indices `j` and below; `-1` when there is none.
pub open spec fn spec_lookback_idx(times: Seq<int>, j: int, now: int) -> int
    decreases j + 1,
{
    if j < 0 {
        -1
    } else if spec_fx_sub(now, times[j]) >= DELAY_FX as int {
        j
    } else {
        spec_lookback_idx(times, j - 1, now)
    }
}

/// The commanded angle after `n` proportional updates of `d`, each clamped
/// into the actuator range.
pub open spec fn spec_control_iter(a: int, d: int, n: int) -> int
    decreases n,
{
    if n <= 0 {
        a
    } else {
        spec_control_iter(spec_clamp_angle(spec_fx_add(a, d)), d, n - 1)
    }
}

/// Unrolling the control iteration from the back.
pub proof fn lemma_control_iter_step(a: int, d: int, n: int)
    requires
        n >= 0,
    ensures
        spec_control_iter(a, d, n + 1) == spec_clamp_angle(
            spec_fx_add(spec_control_iter(a, d, n), d),
        ),
    decreases n,
{
    assert(spec_control_iter(a, d, n + 1) == spec_control_iter(
        spec_clamp_angle(spec_fx_add(a, d)),
        d,
        n,
    ));
    if n > 0 {
        lemma_control_iter_step(spec_clamp_angle(spec_fx_add(a, d)), d, n - 1);
        assert(spec_control_iter(a, d, n) == spec_control_iter(
            spec_clamp_angle(spec_fx_add(a, d)),
            d,
            n - 1,
        ));
    }
}

/// One simulation step at index `i`: integrate, record, and when still
/// ascending feed the delayed history into the apogee estimator and run the
/// proportional control law with the slew-limited actuator.
#[verifier::opaque]
pub open spec fn spec_sim_advance(
    cfg: SimConfig,
    times: Seq<i64>,
    samples: Seq<i32>,
    target: int,
    i: int,
    st: SimTrace,
) -> SimTrace {
    let ti = times[i] as int;
    let h = spec_fx_sub(ti, times[i - 1] as int);
    let az = spec_accel_z(cfg, ti, st.vz, st.vx, st.realang);
    let s = spec_solve_iter(cfg, ti, st.x, st.vz, st.vx, st.realang, h);
    let times2 = st.times.push(ti);
    let alts2 = st.alts.push(s.0);
    let vzs2 = st.vzs.push(s.1);
    let azs2 = st.azs.push(az);
    let angles2 = st.angles.push(st.angle);
    if s.1 < 0 {
        SimTrace {
            times: times2,
            alts: alts2,
            vzs: vzs2,
            vxs: st.vxs,
            azs: azs2,
            angles: angles2,
            x: s.0,
            vz: s.1,
            vx: s.2,
            angle: st.angle,
            realang: st.realang,
            angd: st.angd,
            angd_t: st.angd_t,
            done: true,
        }
    } else {
        let idx = spec_lookback_idx(times2, times2.len() - 2, ti);
        let xd = if idx >= 0 {
            alts2[idx]
        } else {
            0
        };
        let vd = if idx >= 0 {
            vzs2[idx]
        } else {
            0
        };
        let apo = spec_apogee(cfg, ti, vd, xd, st.realang);
        let vxs2 = st.vxs.push(apo);
        if ti > cfg.start_time as int {
            if cfg.control {
                let d = spec_fx_mul(cfg.p_gain as int, spec_fx_sub(apo, target));
                let angle2 = spec_control_iter(st.angle, d, samples[i] as int);
                let upd = spec_fx_sub(ti, st.angd_t) > PWM_INTERVAL_FX as int;
                let angd2 = if upd {
                    angle2
                } else {
                    st.angd
                };
                let angd_t2 = if upd {
                    ti
                } else {
                    st.angd_t
                };
                SimTrace {
                    times: times2,
                    alts: alts2,
                    vzs: vzs2,
                    vxs: vxs2,
                    azs: azs2,
                    angles: angles2,
                    x: s.0,
                    vz: s.1,
                    vx: s.2,
                    angle: angle2,
                    realang: spec_realang(h, angd2, st.realang),
                    angd: angd2,
                    angd_t: angd_t2,
                    done: false,
                }
            } else {
                SimTrace {
                    times: times2,
                    alts: alts2,
                    vzs: vzs2,
                    vxs: vxs2,
                    azs: azs2,
                    angles: angles2,
                    x: s.0,
                    vz: s.1,
                    vx: s.2,
                    angle: cfg.param as int,
                    realang: spec_realang(h, cfg.param as int, st.realang),
                    angd: st.angd,
                    angd_t: st.angd_t,
                    done: false,
                }
            }
        } else {
            SimTrace {
                times: times2,
                alts: alts2,
                vzs: vzs2,
                vxs: vxs2,
                azs: azs2,
                angles: angles2,
                x: s.0,
                vz: s.1,
                vx: s.2,
                angle: 0,
                realang: st.realang,
                angd: st.angd,
                angd_t: st.angd_t,
                done: false,
            }
        }
    }
}

/// The state after steps `1 ..= i`, frozen at the first step that descends.
pub open spec fn spec_sim_trace(
    cfg: SimConfig,
    times: Seq<i64>,
    samples: Seq<i32>,
    target: int,
    init: SimTrace,
    i: int,
) -> SimTrace
    decreases i,
{
    if i <= 0 {
        init
    } else {
        let prev = spec_sim_trace(cfg, times, samples, target, init, i - 1);
        if prev.done {
            prev
        } else {
            spec_sim_advance(cfg, times, samples, target, i, prev)
        }
    }
}

/// Once the trace is frozen it stays frozen.
pub proof fn lemma_sim_trace_frozen(
    cfg: SimConfig,
    times: Seq<i64>,
    samples: Seq<i32>,
    target: int,
    init: SimTrace,
    i: int,
    j: int,
)
    requires
        0 <= i <= j,
        spec_sim_trace(cfg, times, samples, target, init, i).done,
    ensures
        spec_sim_trace(cfg, times, samples, target, init, j) == spec_sim_trace(
            cfg,
            times,
            samples,
            target,
            init,
            i,
        ),
    decreases j - i,
{
    if j > i {
        lemma_sim_trace_frozen(cfg, times, samples, target, init, i, j - 1);
    }
}

/// One simulated time series: per sample, altitude, vertical velocity, the
/// delayed apogee estimate, vertical acceleration and the commanded angle.
pub struct SimResult {
    pub time: Vec<i64>,
    pub alt: Vec<i64>,
    pub vz: Vec<i64>,
    pub vx: Vec<i64>,
    pub az: Vec<i64>,
    pub angle: Vec<i64>,
}

impl Default for SimResult {
    fn default() -> (r: SimResult)
        ensures
            r.time@.len() == 0,
            r.alt@.len() == 0,
            r.vz@.len() == 0,
            r.vx@.len() == 0,
            r.az@.len() == 0,
            r.angle@.len() == 0,
    {
        SimResult {
            time: Vec::new(),
            alt: Vec::new(),
            vz: Vec::new(),
            vx: Vec::new(),
            az: Vec::new(),
            angle: Vec::new(),
        }
    }
}

/// Runs the closed-loop forward simulation over the supplied time series,
/// stopping at the first step whose vertical velocity goes negative.  The
/// result is exactly the fixed-point trace of the model.
#[verifier::loop_isolation(false)]
pub fn calc_sim(
    cfg: &SimConfig,
    times: &Vec<i64>,
    samples: &Vec<i32>,
    vx0: i64,
    vz0: i64,
    x0: i64,
    temp: i64,
) -> (r: SimResult)
    requires
        cfg.wf(),
        samples@.len() == times@.len(),
    ensures
        ({
            let steps: int = if times@.len() == 0 {
                0
            } else {
                times@.len() - 1
            };
            let tr = spec_sim_trace(
                *cfg,
                times@,
                samples@,
                spec_sim_target(temp as int, cfg.param as int),
                spec_sim_init(vx0 as int, vz0 as int, x0 as int),
                steps,
            );
            &&& view_i64s(r.time@) == tr.times
            &&& view_i64s(r.alt@) == tr.alts
            &&& view_i64s(r.vz@) == tr.vzs
            &&& view_i64s(r.vx@) == tr.vxs
            &&& view_i64s(r.az@) == tr.azs
            &&& view_i64s(r.angle@) == tr.angles
        }),
{
    let ghost init = spec_sim_init(vx0 as int, vz0 as int, x0 as int);
    let ghost tgt = spec_sim_target(temp as int, cfg.param as int);
    let n = times.len();
    let mut rt: Vec<i64> = Vec::new();
    let mut ra: Vec<i64> = Vec::new();
    let mut rvz: Vec<i64> = Vec::new();
    let mut rvx: Vec<i64> = Vec::new();
    let mut raz: Vec<i64> = Vec::new();
    let mut rang: Vec<i64> = Vec::new();
    let mut x: i64 = x0;
    let mut vz: i64 = vz0;
    let mut vx: i64 = vx0;
    let mut angle: i64 = 0;
    let mut realang: i64 = 0;
    let mut angd: i64 = 0;
    let mut angd_t: i64 = 0;
    let target = fx_mul(fx_div(fx_add(temp, TEMP_OFFSET_FX), TEMP_REF_FX), cfg.param);
    proof {
        assert(target as int == tgt);
        assert(view_i64s(rt@) =~= init.times);
        assert(view_i64s(ra@) =~= init.alts);
        assert(view_i64s(rvz@) =~= init.vzs);
        assert(view_i64s(rvx@) =~= init.vxs);
        assert(view_i64s(raz@) =~= init.azs);
        assert(view_i64s(rang@) =~= init.angles);
    }
    let mut finished: bool = false;
    let mut i: usize = 1;
    while i < n && !finished
        invariant
            1 <= i,
            n == 0 ==> i == 1,
            n > 0 ==> i <= n,
            ({
                let tr = spec_sim_trace(*cfg, times@, samples@, tgt, init, i - 1);
                &&& finished == tr.done
                &&& tr.alts.len() == tr.times.len()
                &&& tr.vzs.len() == tr.times.len()
                &&& view_i64s(rt@) == tr.times
                &&& view_i64s(ra@) == tr.alts
                &&& view_i64s(rvz@) == tr.vzs
                &&& view_i64s(rvx@) == tr.vxs
                &&& view_i64s(raz@) == tr.azs
                &&& view_i64s(rang@) == tr.angles
                &&& x as int == tr.x
                &&& vz as int == tr.vz
                &&& vx as int == tr.vx
                &&& angle as int == tr.angle
                &&& realang as int == tr.realang
                &&& angd as int == tr.angd
                &&& angd_t as int == tr.angd_t
            }),
        decreases n - i,
    {
        let ghost trp = spec_sim_trace(*cfg, times@, samples@, tgt, init, i - 1);
        let ti = times[i];
        let h = fx_sub(ti, times[i - 1]);
        let (az, _ax) = calc_a(cfg, ti, vz, vx, realang);
        let (xn, vzn, vxn) = solve_iter(cfg, ti, x, vz, vx, realang, h);
        x = xn;
        vz = vzn;
        vx = vxn;
        rt.push(ti);
        ra.push(x);
        rvz.push(vz);
        raz.push(az);
        rang.push(angle);
        let ghost times2 = trp.times.push(ti as int);
        let ghost alts2 = trp.alts.push(x as int);
        let ghost vzs2 = trp.vzs.push(vz as int);
        proof {
            assert(view_i64s(rt@) =~= times2);
            assert(view_i64s(ra@) =~= alts2);
            assert(view_i64s(rvz@) =~= vzs2);
            assert(view_i64s(raz@) =~= trp.azs.push(az as int));
            assert(view_i64s(rang@) =~= trp.angles.push(angle as int));
        }
        if vz < 0 {
            finished = true;
        } else {
            // Feed the delayed history into the apogee estimator.
            let l = rt.len();
            let ghost lbi = spec_lookback_idx(times2, l as int - 2, ti as int);
            let mut xd: i64 = 0;
            let mut vd: i64 = 0;
            let mut found: bool = false;
            let mut j: usize = l - 1;
            while j > 0 && !found
                invariant
                    j <= l - 1,
                    !found ==> lbi == spec_lookback_idx(times2, j as int - 1, ti as int),
                    !found ==> xd == 0 && vd == 0,
                    found ==> 0 <= lbi && xd as int == alts2[lbi] && vd as int == vzs2[lbi],
                decreases j,
            {
                let cand = j - 1;
                if fx_sub(ti, rt[cand]) >= DELAY_FX {
                    xd = ra[cand];
                    vd = rvz[cand];
                    found = true;
                    proof {
                        assert(spec_lookback_idx(times2, cand as int, ti as int) == cand);
                    }
                }
                j = cand;
            }
            proof {
                if !found {
                    assert(lbi == spec_lookback_idx(times2, j as int - 1, ti as int));
                    assert(lbi == -1);
                }
            }
            let apo = get_apogee(cfg, ti, vd, xd, realang);
            rvx.push(apo);
            proof {
                assert(view_i64s(rvx@) =~= trp.vxs.push(apo as int));
            }
            // Proportional control with the slew-limited actuator.
            if ti > cfg.start_time {
                if cfg.control {
                    let d = fx_mul(cfg.p_gain, fx_sub(apo, target));
                    let ghost a0 = angle as int;
                    let cnt = samples[i];
                    let mut kk: i32 = 0;
                    while kk < cnt
                        invariant
                            0 <= kk,
                            kk <= cnt || kk == 0,
                            angle as int == spec_control_iter(a0, d as int, kk as int),
                        decreases cnt - kk,
                    {
                        proof {
                            lemma_control_iter_step(a0, d as int, kk as int);
                        }
                        angle = clamp_angle(fx_add(angle, d));
                        kk = kk + 1;
                    }
                    if fx_sub(ti, angd_t) > PWM_INTERVAL_FX {
                        angd_t = ti;
                        angd = angle;
                    }
                    realang = get_realang(h, angd, realang);
                } else {
                    angle = cfg.param;
                    realang = get_realang(h, angle, realang);
                }
            } else {
                angle = 0;
            }
        }
        proof {
            reveal(spec_sim_advance);
            let trn = spec_sim_trace(*cfg, times@, samples@, tgt, init, i as int);
            assert(trn == spec_sim_advance(*cfg, times@, samples@, tgt, i as int, trp));
            assert(view_i64s(rt@) == trn.times);
            assert(view_i64s(ra@) == trn.alts);
            assert(view_i64s(rvz@) == trn.vzs);
            assert(view_i64s(rvx@) == trn.vxs);
            assert(view_i64s(raz@) == trn.azs);
            assert(view_i64s(rang@) == trn.angles);
            assert(finished == trn.done);
        }
        i = i + 1;
    }
    proof {
        let steps: int = if times@.len() == 0 {
            0
        } else {
            times@.len() - 1
        };
        if finished && i as int - 1 < steps {
            lemma_sim_trace_frozen(*cfg, times@, samples@, tgt, init, i as int - 1, steps);
        }
    }
    SimResult { time: rt, alt: ra, vz: rvz, vx: rvx, az: raz, angle: rang }
}

} // verus!
