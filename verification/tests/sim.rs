use tektite::fixed::FX_SCALE;
use tektite::sim::{
    calc_sim, clamp_angle, get_apogee, get_realang, get_thrust, SimConfig, ANGLE_MAX_FX,
};

const U: i64 = FX_SCALE; // one physical unit in micro-units

fn thrust_cfg() -> SimConfig {
    SimConfig {
        rho: 1_225_000, // 1.225 kg/m^3
        area: 10_000,   // 0.01 m^2
        mass: 1_500_000,
        base_cd: 500_000,
        canard_cd: 1_000_000,
        thrust_curve_time: vec![0, 2 * U, 5 * U],
        thrust_curve_force: vec![100 * U, 100 * U, 0],
        thrust_curve_name: String::from("flat-then-ramp-down"),
        control: false,
        start_time: 0,
        param: 0,
        p_gain: 0,
    }
}

fn gravity_cfg() -> SimConfig {
    SimConfig {
        rho: 0,
        area: 10_000,
        mass: 1_000_000,
        base_cd: 500_000,
        canard_cd: 0,
        thrust_curve_time: Vec::new(),
        thrust_curve_force: Vec::new(),
        thrust_curve_name: String::new(),
        control: false,
        start_time: 0,
        param: 0,
        p_gain: 0,
    }
}

#[test]
fn thrust_before_first_breakpoint_is_first_force() {
    let cfg = thrust_cfg();
    assert_eq!(get_thrust(&cfg, -1 * U), 100 * U);
}

#[test]
fn thrust_on_flat_segment_interpolates_flat() {
    let cfg = thrust_cfg();
    assert_eq!(get_thrust(&cfg, 1 * U), 100 * U);
}

#[test]
fn thrust_interpolates_down_ramp() {
    let cfg = thrust_cfg();
    // (3-2)/(5-2) of the way from 100 down to 0; fixed-point truncation
    // gives 66.6667 units as 66_666_700 micro-units.
    assert_eq!(get_thrust(&cfg, 3 * U), 66_666_700);
}

#[test]
fn thrust_after_burnout_is_zero() {
    let cfg = thrust_cfg();
    assert_eq!(get_thrust(&cfg, 6 * U), 0);
    assert_eq!(get_thrust(&cfg, 5 * U), 0);
}

#[test]
fn slew_first_step_is_rate_limited() {
    // rate 800 deg/s, dt 0.01 s, command jumping 0 -> 90: one step moves
    // exactly min(90, 8) = 8 degrees.
    let r = get_realang(10_000, 90 * U, 0);
    assert_eq!(r, 8 * U);
}

#[test]
fn slew_reaches_command_exactly_and_never_overshoots() {
    let mut realang: i64 = 0;
    for _ in 0..100 {
        realang = get_realang(10_000, 90 * U, realang);
        assert!(realang <= 90 * U);
    }
    assert_eq!(realang, 90 * U);
    // 90 / 8 = 11.25, so the twelfth step snaps exactly onto the command.
    let mut r2: i64 = 0;
    for _ in 0..12 {
        r2 = get_realang(10_000, 90 * U, r2);
    }
    assert_eq!(r2, 90 * U);
}

#[test]
fn clamp_keeps_commanded_angle_in_range() {
    assert_eq!(clamp_angle(-5), 0);
    assert_eq!(clamp_angle(-(1 << 60)), 0);
    assert_eq!(clamp_angle(42), 42);
    assert_eq!(clamp_angle(ANGLE_MAX_FX), ANGLE_MAX_FX);
    assert_eq!(clamp_angle(ANGLE_MAX_FX + 1), ANGLE_MAX_FX);
    assert_eq!(clamp_angle(1 << 60), ANGLE_MAX_FX);
}

#[test]
fn apogee_under_pure_gravity_matches_closed_form() {
    // Zero drag, zero thrust, vertical launch at 50 m/s from the ground:
    // apogee at v0^2 / (2 * 9.81) = 127.4208 m, within integration
    // tolerance of the 0.1 s step.
    let cfg = gravity_cfg();
    let apo = get_apogee(&cfg, 1 * U, 50 * U, 0, 0);
    // The integrator stages position on compounded position increments, so
    // its apogee carries a step-proportional bias above the continuous
    // closed form; at the fixed 0.1 s estimator step that is about 7%.
    let expected: i64 = 127_420_795;
    assert!(apo >= expected, "apogee {} below closed form {}", apo, expected);
    assert!((apo - expected).abs() < 10_000_000, "apogee {} vs {}", apo, expected);
}

#[test]
fn apogee_of_descending_state_is_its_altitude() {
    let cfg = gravity_cfg();
    assert_eq!(get_apogee(&cfg, 1 * U, 0, 5 * U, 0), 5 * U);
    assert_eq!(get_apogee(&cfg, 1 * U, -3 * U, 7 * U, 0), 7 * U);
}

#[test]
fn calc_sim_without_control_holds_fixed_angle() {
    let mut cfg = gravity_cfg();
    cfg.param = 45 * U;
    let times: Vec<i64> = vec![0, 100_000, 200_000, 300_000];
    let samples: Vec<i32> = vec![0, 0, 0, 0];
    let r = calc_sim(&cfg, &times, &samples, 0, 10 * U, 0, 15 * U);
    assert_eq!(r.time.len(), 3);
    assert_eq!(r.alt.len(), 3);
    assert_eq!(r.vz.len(), 3);
    assert_eq!(r.az.len(), 3);
    assert_eq!(r.angle.len(), 3);
    assert_eq!(r.vx.len(), 3);
    // The recorded angle is the command before each step's update: zero at
    // the first step, then the held fixed target.
    assert_eq!(r.angle[0], 0);
    assert_eq!(r.angle[1], 45 * U);
    assert_eq!(r.angle[2], 45 * U);
    // Pure gravity: each 0.1 s step lowers vz by exactly 0.981 m/s.
    assert_eq!(r.vz[0], 10 * U - 981_000);
    assert_eq!(r.vz[1], 10 * U - 2 * 981_000);
    // The delayed estimator has no sample old enough at the first step and
    // a real one afterwards.
    assert_eq!(r.vx[0], 0);
    assert!(r.vx[1] > 0);
}

#[test]
fn calc_sim_stops_at_first_descent() {
    let cfg = gravity_cfg();
    // Launch at 0.25 m/s: gravity eats it after a few 0.1 s steps.
    let times: Vec<i64> = (0..100).map(|k| k * 100_000).collect();
    let samples: Vec<i32> = vec![0; 100];
    let r = calc_sim(&cfg, &times, &samples, 0, 250_000, 0, 15 * U);
    assert!(r.time.len() < 99);
    let last = *r.vz.last().unwrap();
    assert!(last < 0);
    for k in 0..r.vz.len() - 1 {
        assert!(r.vz[k] >= 0);
    }
}

#[test]
fn calc_sim_control_keeps_angle_clamped() {
    let mut cfg = gravity_cfg();
    cfg.control = true;
    cfg.p_gain = 1_000 * U; // absurdly hot gain
    cfg.param = 100 * U; // target apogee 100 m
    cfg.start_time = 0;
    let times: Vec<i64> = (0..50).map(|k| k * 100_000).collect();
    let samples: Vec<i32> = vec![5; 50];
    let r = calc_sim(&cfg, &times, &samples, 0, 50 * U, 0, 15 * U);
    for &a in &r.angle {
        assert!(a >= 0 && a <= ANGLE_MAX_FX, "angle {} out of range", a);
    }
}

#[test]
fn calc_sim_empty_series_gives_empty_result() {
    let cfg = gravity_cfg();
    let r = calc_sim(&cfg, &Vec::new(), &Vec::new(), 0, 0, 0, 0);
    assert_eq!(r.time.len(), 0);
    assert_eq!(r.vx.len(), 0);
}
