use thermostat::output_channel::Biquad;
use thermostat::output_channel::FilterState;
use thermostat::output_channel::OutputChannel;
use thermostat::output_channel::Pid;
use thermostat::output_channel::PidBuildError;
use thermostat::output_channel::State;
use thermostat::pwm;

const Q: i64 = 65536;

fn fresh_channel() -> OutputChannel {
    OutputChannel::default()
}

#[test]
fn default_channel_is_off_with_hardware_limits() {
    let ch = fresh_channel();
    assert_eq!(ch.state, State::Off);
    assert_eq!(ch.voltage_limit, pwm::MAX_VOLTAGE_LIMIT_MV);
    assert_eq!(ch.pid.kp, 0);
    assert_eq!(ch.pid.setpoint, 25 * Q);
    assert!(ch.pid.li.is_none() && ch.pid.ld.is_none());
    assert!(ch.pid.min.is_none() && ch.pid.max.is_none());
    for row in ch.weights.iter() {
        for w in row.iter() {
            assert_eq!(*w, 0);
        }
    }
    // the default filter: identity-off coefficients, bounds already at
    // the safety ceiling
    assert_eq!(ch.iir.b0, 0);
    assert_eq!(ch.iir.b1, 0);
    assert_eq!(ch.iir.b2, 0);
    assert_eq!(ch.iir.a1, 0);
    assert_eq!(ch.iir.a2, 0);
    assert_eq!(ch.iir.u, 0);
    assert_eq!(ch.iir.min, -196607);
    assert_eq!(ch.iir.max, 196607);
}

#[test]
fn weights_normalize_to_unit_magnitude_sum() {
    let mut ch = fresh_channel();
    for i in 0..4 {
        for j in 0..4 {
            ch.weights[i][j] = 123;
        }
    }
    ch.finalize_settings();
    let mut sum: i64 = 0;
    for row in ch.weights.iter() {
        for w in row.iter() {
            assert_eq!(*w, 4096);
            sum += w.abs();
        }
    }
    assert_eq!(sum, Q);
}

#[test]
fn weights_normalization_keeps_signs_and_tolerates_truncation() {
    let mut ch = fresh_channel();
    ch.weights[0][0] = 2;
    ch.weights[1][1] = -2;
    ch.finalize_settings();
    assert_eq!(ch.weights[0][0], 32768);
    assert_eq!(ch.weights[1][1], -32768);

    let mut ch = fresh_channel();
    ch.weights[0][0] = 1;
    ch.weights[0][1] = 1;
    ch.weights[0][2] = 1;
    ch.finalize_settings();
    let sum: i64 = ch.weights.iter().flatten().map(|w| w.abs()).sum();
    // three truncating divisions: the sum is one up to 3/65536
    assert_eq!(ch.weights[0][0], 21845);
    assert_eq!(sum, 65535);
    assert!(Q - 16 < sum && sum <= Q);
}

#[test]
fn all_zero_weights_stay_zero() {
    let mut ch = fresh_channel();
    ch.finalize_settings();
    for row in ch.weights.iter() {
        for w in row.iter() {
            assert_eq!(*w, 0);
        }
    }
}

#[test]
fn huge_weights_normalize_without_overflow() {
    let mut ch = fresh_channel();
    ch.weights[3][3] = i64::MAX;
    ch.finalize_settings();
    assert_eq!(ch.weights[3][3], Q);
}

#[test]
fn safety_clamp_overrides_user_bounds() {
    let mut ch = fresh_channel();
    // -1000 A .. 1000 A, far outside the hardware range
    ch.pid.min = Some(-1000 * Q);
    ch.pid.max = Some(1000 * Q);
    ch.pid.kp = Q;
    ch.finalize_settings();
    // min(DAC max current, PWM limit) = floor(2.999999 A * 2^16)
    assert_eq!(ch.iir.max, 196607);
    assert_eq!(ch.iir.min, -196607);
}

#[test]
fn voltage_limit_is_clamped_to_hardware_ceiling() {
    let mut ch = fresh_channel();
    ch.voltage_limit = 100_000;
    ch.finalize_settings();
    assert_eq!(ch.voltage_limit, pwm::MAX_VOLTAGE_LIMIT_MV);
    ch.voltage_limit = -5;
    ch.finalize_settings();
    assert_eq!(ch.voltage_limit, 0);
    ch.voltage_limit = 2_500;
    ch.finalize_settings();
    assert_eq!(ch.voltage_limit, 2_500);
}

#[test]
fn rejected_pid_build_keeps_previous_filter() {
    let mut ch = fresh_channel();
    ch.pid.kp = 2 * Q;
    ch.finalize_settings();
    assert_eq!(ch.iir.b0, 2 * Q);
    // a finite gain limit of zero is rejected; the old filter stays
    ch.pid.kp = 3 * Q;
    ch.pid.li = Some(0);
    ch.finalize_settings();
    assert_eq!(ch.iir.b0, 2 * Q);
    assert!(matches!(
        Biquad::try_from_pid(&ch.pid),
        Err(PidBuildError::LimitZero)
    ));
}

#[test]
fn gains_are_sign_aligned_to_kp() {
    // a negative kp flips the effective signs of ki and kd
    let pid = Pid {
        ki: 1007,
        kp: -Q,
        kd: 0,
        li: None,
        ld: None,
        setpoint: 0,
        min: None,
        max: None,
    };
    let b = Biquad::try_from_pid(&pid).unwrap();
    // velocity form: b0 = ki/1007 + kp with both sign-aligned
    assert_eq!(b.b0, -1 - Q);
    assert_eq!(b.a1, Q);
}

#[test]
fn off_and_hold_freeze_output_and_state() {
    let mut ch = fresh_channel();
    ch.pid.kp = Q;
    ch.weights[0][0] = Q;
    ch.finalize_settings();
    let mut state = FilterState::new();
    let temps_a = [[26 * Q; 4]; 4];
    let temps_b = [[31 * Q; 4]; 4];

    ch.state = State::Off;
    let y1 = ch.update(&temps_a, &mut state);
    let y2 = ch.update(&temps_b, &mut state);
    assert_eq!(y1, 0);
    assert_eq!(y2, 0);
    assert_eq!(state, FilterState::new());

    ch.state = State::Hold;
    let y3 = ch.update(&temps_b, &mut state);
    assert_eq!(y3, 0);
    assert_eq!(state, FilterState::new());

    // On: the output follows the input
    ch.state = State::On;
    let y4 = ch.update(&temps_a, &mut state);
    let y5 = ch.update(&temps_b, &mut state);
    assert_ne!(y4, y5);
}

#[test]
fn proportional_scenario_outputs_scaled_error() {
    // kp = 1, ki = kd = 0, setpoint 25, unbounded output; the weighted
    // mix is 26, so the output is the error 1.0 times kp
    let mut ch = fresh_channel();
    ch.pid.kp = Q;
    ch.pid.setpoint = 25 * Q;
    ch.weights[0][0] = Q;
    ch.finalize_settings();
    ch.state = State::On;
    let mut state = FilterState::new();
    let mut temps = [[0i64; 4]; 4];
    temps[0][0] = 26 * Q;
    let y = ch.update(&temps, &mut state);
    assert_eq!(y, Q);
    // and it is held below the safety ceiling for a huge error
    temps[0][0] = 16_000 * Q;
    let mut state = FilterState::new();
    let y = ch.update(&temps, &mut state);
    assert_eq!(y, 196607);
}

#[test]
fn current_limits_add_headroom_and_cross_zero_never() {
    let mut ch = fresh_channel();
    ch.pid.kp = Q;
    ch.finalize_settings();
    let [upper, lower] = ch.current_limits();
    assert_eq!(upper, 196607 + 9830);
    assert_eq!(lower, -196607 - 9830);

    // bounds well inside zero: the reported limits never cross zero
    ch.pid.min = Some(Q);
    ch.pid.max = Some(Q);
    ch.finalize_settings();
    let [upper, lower] = ch.current_limits();
    assert_eq!(upper, Q + 9830);
    assert_eq!(lower, 0);
}
