//! Per-output-channel control pipeline.
//!
//! A channel holds its operating state (On/Hold/Off), user PID
//! parameters, a 4x4 input weight matrix and the live biquad filter with
//! its clamp bounds. Every tick it mixes the 4x4 temperature matrix with
//! its weights, advances the filter when `On` (and only then), and
//! returns a bounded current command.
//!
//! All quantities are Q16.16 fixed point (`x` stands for `x / 65536`
//! physical units): temperatures in kelvin, currents in ampere, gains in
//! output/input units. The fixed sample period is `1/1007` second, so
//! the integral gain is scaled by `1/1007` and the derivative gain by
//! `1007`.

use vstd::prelude::*;
use vstd::arithmetic::div_mod::lemma_fundamental_div_mod;
use vstd::arithmetic::mul::lemma_mul_inequality;
use vstd::arithmetic::mul::lemma_mul_is_distributive_add;
use crate::arith::abs_i;
use crate::arith::lemma_mul_abs_bound;
use crate::arith::lemma_tdiv_bound;
use crate::arith::tdiv;
use crate::arith::tdiv_i128;
use crate::dac::MAX_CURRENT_UA;
use crate::pwm;

verus! {

/// Q16.16 scale.
pub const Q: i64 = 65536;

/// Samples per second of the control loop (ADC output data rate
/// including its zero-order hold).
pub const SAMPLE_RATE_HZ: i64 = 1007;

/// The largest DAC-representable current, in Q16.16 ampere: the floor
/// of `MAX_CURRENT_UA` microampere rescaled (see
/// `lemma_dac_max_current_q`).
pub const DAC_MAX_CURRENT_Q: i64 = 196607;

/// Magnitude bound on user gains, limits, setpoints and output bounds
/// (Q16.16; about 16384 physical units).
pub const GAIN_MAG: i64 = 0x40000000;

/// Magnitude bound on filter signals, state and clamp bounds.
pub const SIGNAL_MAG: i64 = 0x10000000000;

/// Magnitude bound on derived filter coefficients.
pub const COEFF_MAG: i64 = 0x40000000000;

/// Magnitude bound on the derived summing-junction offset.
pub const OFFSET_MAG: i64 = 0x400000000000000;

/// Magnitude bound on temperature inputs (Q16.16 kelvin).
pub const TEMP_MAG: i64 = 0x1000000000;

/// 5% of the PWM current-limit ceiling (floored), the advisory
/// headroom of `current_limits` (see `lemma_headroom`).
pub const CURRENT_LIMIT_HEADROOM_Q: i64 = 9830;

/// `CURRENT_LIMIT_HEADROOM_Q` is a twentieth of the PWM ceiling, not an
/// independent constant.
pub proof fn lemma_headroom()
    ensures
        CURRENT_LIMIT_HEADROOM_Q as int == pwm::MAX_CURRENT_LIMIT_Q as int / 20,
{
}

/// `DAC_MAX_CURRENT_Q` is `MAX_CURRENT_UA` microampere brought to the
/// Q16.16 ampere scale, not an independent constant.
pub proof fn lemma_dac_max_current_q()
    ensures
        DAC_MAX_CURRENT_Q as int == (MAX_CURRENT_UA as int * Q as int) / 1_000_000,
{
}

/// Channel operating state.
#[derive(Clone, Copy, Debug, PartialEq, Eq, Structural)]
pub enum State {
    /// TEC driver active, filter runs and updates its state every tick.
    On,
    /// Output frozen at its last value, filter state not advanced.
    Hold,
    /// TEC driver disabled; implies hold of the filter state.
    Off,
}

impl Default for State {
    fn default() -> (r: State)
        ensures
            r == State::Off,
    {
        State::Off
    }
}

/// User-facing PID parameters. `kp`'s sign is the reference sign of the
/// whole loop: the magnitudes of `ki`, `kd` and of the finite gain
/// limits are sign-aligned to it when the filter is derived. `None`
/// limits and bounds stand for infinity.
#[derive(Clone, Copy, Debug)]
pub struct Pid {
    /// Integral gain (output/input per second, Q16.16).
    pub ki: i64,
    /// Proportional gain (output/input, Q16.16); loop sign reference.
    pub kp: i64,
    /// Derivative gain (output/input times second, Q16.16).
    pub kd: i64,
    /// Integral gain limit (output/input, Q16.16); `None` is unlimited.
    pub li: Option<i64>,
    /// Derivative gain limit (output/input, Q16.16); `None` is unlimited.
    pub ld: Option<i64>,
    /// Setpoint (input units, Q16.16).
    pub setpoint: i64,
    /// Output lower bound (output units, Q16.16); `None` is unbounded.
    pub min: Option<i64>,
    /// Output upper bound (output units, Q16.16); `None` is unbounded.
    pub max: Option<i64>,
}

/// A bounded optional parameter.
pub open spec fn opt_bounded(x: Option<i64>) -> bool {
    x matches Some(v) ==> -GAIN_MAG <= v <= GAIN_MAG
}

impl Pid {
    /// All parameters within the accepted magnitude.
    pub open spec fn wf(&self) -> bool {
        &&& -GAIN_MAG <= self.ki <= GAIN_MAG
        &&& -GAIN_MAG <= self.kp <= GAIN_MAG
        &&& -GAIN_MAG <= self.kd <= GAIN_MAG
        &&& -GAIN_MAG <= self.setpoint <= GAIN_MAG
        &&& opt_bounded(self.li)
        &&& opt_bounded(self.ld)
        &&& opt_bounded(self.min)
        &&& opt_bounded(self.max)
    }
}

impl Default for Pid {
    fn default() -> (r: Pid)
        ensures
            r.ki == 0 && r.kp == 0 && r.kd == 0,
            r.li is None && r.ld is None,
            r.setpoint == 25 * Q,
            r.min is None && r.max is None,
            r.wf(),
    {
        Pid {
            ki: 0,
            kp: 0,
            kd: 0,
            li: None,
            ld: None,
            setpoint: 25 * Q,
            min: None,
            max: None,
        }
    }
}

/// Rejected gain/limit combination: a finite gain limit of zero.
#[derive(Clone, Copy, Debug, PartialEq, Eq, Structural)]
pub enum PidBuildError {
    LimitZero,
}

/// Biquad filter coefficients and output clamp, Q16.16. The filter
/// computes `y0 = (b0*x0 + b1*x1 + b2*x2 + a1*y1 + a2*y2) / Q + u`,
/// clamped to `[min, max]`.
#[derive(Clone, Copy, Debug)]
pub struct Biquad {
    pub b0: i64,
    pub b1: i64,
    pub b2: i64,
    pub a1: i64,
    pub a2: i64,
    /// Summing-junction offset (carries the setpoint).
    pub u: i64,
    /// Lower output clamp.
    pub min: i64,
    /// Upper output clamp.
    pub max: i64,
}

/// Two past inputs and two past outputs of the direct-form-1 filter.
#[derive(Clone, Copy, Debug, PartialEq, Eq, Structural)]
pub struct FilterState {
    pub x1: i64,
    pub x2: i64,
    pub y1: i64,
    pub y2: i64,
}

impl FilterState {
    /// All entries within the signal magnitude.
    pub open spec fn wf(&self) -> bool {
        &&& -SIGNAL_MAG <= self.x1 <= SIGNAL_MAG
        &&& -SIGNAL_MAG <= self.x2 <= SIGNAL_MAG
        &&& -SIGNAL_MAG <= self.y1 <= SIGNAL_MAG
        &&& -SIGNAL_MAG <= self.y2 <= SIGNAL_MAG
    }

    /// The all-zero initial state.
    pub fn new() -> (r: FilterState)
        ensures
            r == (FilterState { x1: 0, x2: 0, y1: 0, y2: 0 }),
    {
        FilterState { x1: 0, x2: 0, y1: 0, y2: 0 }
    }
}

/// Clamp to `[lo, hi]`: raise to `lo` first, then cap at `hi` (so for an
/// inverted interval the cap wins).
pub open spec fn clamp_i(v: int, lo: int, hi: int) -> int {
    let m = if v < lo {
        lo
    } else {
        v
    };
    if m > hi {
        hi
    } else {
        m
    }
}

/// Magnitude of `x` with the sign of `r` (`copysign`, with zero `r`
/// counting as positive).
pub open spec fn sgn_mag(x: int, r: int) -> int {
    if r < 0 {
        -abs_i(x)
    } else {
        abs_i(x)
    }
}

/// The sign-aligned integral gain scaled by the sample period.
pub open spec fn gain_i_spec(pid: Pid) -> int {
    tdiv(sgn_mag(pid.ki as int, pid.kp as int), SAMPLE_RATE_HZ as int)
}

/// The sign-aligned derivative gain scaled by the sample rate.
pub open spec fn gain_d_spec(pid: Pid) -> int {
    sgn_mag(pid.kd as int, pid.kp as int) * SAMPLE_RATE_HZ
}

/// The gain/limit ratio of one action, Q16.16: zero when the limit is
/// infinite. Gain and aligned limit share a sign, so the ratio is the
/// ratio of the magnitudes.
pub open spec fn ratio_spec(g: int, l: Option<i64>) -> int {
    match l {
        Some(v) => tdiv(abs_i(g) * (Q as int), abs_i(v as int)),
        None => 0,
    }
}

/// A gain/limit combination the filter derivation accepts: no finite
/// limit of zero.
pub open spec fn pid_ok(pid: Pid) -> bool {
    &&& !(pid.li matches Some(v) && v == 0)
    &&& !(pid.ld matches Some(v) && v == 0)
}

/// The output bound substituted for an infinite user bound.
pub open spec fn opt_bound_or(x: Option<i64>, inf: int) -> int {
    match x {
        Some(v) => v as int,
        None => inf,
    }
}

/// The biquad derived from PID parameters.
///
/// With `ki != 0` the filter is the velocity-form PID: the double
/// difference realizes the derivative, the output recursion the
/// integral, and the gain-limit ratios place the recursion poles. With
/// `ki == 0` it is the direct proportional-derivative form. The
/// summing-junction offset realizes an input offset of `-setpoint`
/// through the forward gain `b0 + b1 + b2`.
pub open spec fn biquad_of(pid: Pid) -> Biquad {
    let gi = gain_i_spec(pid);
    let gp = pid.kp as int;
    let gd = gain_d_spec(pid);
    let ldr = ratio_spec(gd, pid.ld);
    let lir = ratio_spec(gi, pid.li);
    let qq = Q as int;
    if pid.ki == 0 {
        let a0 = qq + ldr;
        let b0 = tdiv((gp + gd) * qq, a0);
        let b1 = tdiv(-gd * qq, a0);
        let u = tdiv(-(pid.setpoint as int) * (b0 + b1), qq);
        Biquad {
            b0: b0 as i64,
            b1: b1 as i64,
            b2: 0,
            a1: tdiv(ldr * qq, a0) as i64,
            a2: 0,
            u: u as i64,
            min: opt_bound_or(pid.min, -SIGNAL_MAG as int) as i64,
            max: opt_bound_or(pid.max, SIGNAL_MAG as int) as i64,
        }
    } else {
        let a0 = qq + lir + ldr;
        let b0 = tdiv((gi + gp + gd) * qq, a0);
        let b1 = tdiv((-gp - 2 * gd) * qq, a0);
        let b2 = tdiv(gd * qq, a0);
        let u = tdiv(-(pid.setpoint as int) * (b0 + b1 + b2), qq);
        Biquad {
            b0: b0 as i64,
            b1: b1 as i64,
            b2: b2 as i64,
            a1: tdiv((qq + 2 * ldr) * qq, a0) as i64,
            a2: -tdiv(ldr * qq, a0) as i64,
            u: u as i64,
            min: opt_bound_or(pid.min, -SIGNAL_MAG as int) as i64,
            max: opt_bound_or(pid.max, SIGNAL_MAG as int) as i64,
        }
    }
}

/// The unclamped filter output for input `x0` on state `s`.
pub open spec fn raw_out(b: Biquad, s: FilterState, x0: int) -> int {
    tdiv(
        b.b0 * x0 + b.b1 * s.x1 + b.b2 * s.x2 + b.a1 * s.y1 + b.a2 * s.y2,
        Q as int,
    ) + b.u
}

/// The filter output for input `x0` on state `s`: clamped to the bounds.
pub open spec fn out_of(b: Biquad, s: FilterState, x0: int) -> int {
    clamp_i(raw_out(b, s, x0), b.min as int, b.max as int)
}

/// The filter state after one advancing tick with input `x0`.
pub open spec fn stepped(b: Biquad, s: FilterState, x0: int) -> FilterState {
    FilterState { x1: x0 as i64, x2: s.x1, y1: out_of(b, s, x0) as i64, y2: s.y1 }
}

impl Biquad {
    /// Coefficients, offset and clamp bounds within their magnitudes.
    pub open spec fn wf(&self) -> bool {
        &&& -COEFF_MAG <= self.b0 <= COEFF_MAG
        &&& -COEFF_MAG <= self.b1 <= COEFF_MAG
        &&& -COEFF_MAG <= self.b2 <= COEFF_MAG
        &&& -COEFF_MAG <= self.a1 <= COEFF_MAG
        &&& -COEFF_MAG <= self.a2 <= COEFF_MAG
        &&& -OFFSET_MAG <= self.u <= OFFSET_MAG
        &&& -SIGNAL_MAG <= self.min <= SIGNAL_MAG
        &&& -SIGNAL_MAG <= self.max <= SIGNAL_MAG
    }

    /// Advances the filter by one tick: computes the clamped output for
    /// `x0` and shifts the state.
    pub fn update(&self, state: &mut FilterState, x0: i64) -> (y: i64)
        requires
            self.wf(),
            old(state).wf(),
            -SIGNAL_MAG <= x0 <= SIGNAL_MAG,
        ensures
            y as int == out_of(*self, *old(state), x0 as int),
            *final(state) == stepped(*self, *old(state), x0 as int),
            final(state).wf(),
            y == final(state).y1,
            self.min <= self.max ==> self.min <= y <= self.max,
    {
        proof {
            lemma_mul_abs_bound(self.b0 as int, x0 as int, COEFF_MAG as int, SIGNAL_MAG as int);
            lemma_mul_abs_bound(
                self.b1 as int,
                old(state).x1 as int,
                COEFF_MAG as int,
                SIGNAL_MAG as int,
            );
            lemma_mul_abs_bound(
                self.b2 as int,
                old(state).x2 as int,
                COEFF_MAG as int,
                SIGNAL_MAG as int,
            );
            lemma_mul_abs_bound(
                self.a1 as int,
                old(state).y1 as int,
                COEFF_MAG as int,
                SIGNAL_MAG as int,
            );
            lemma_mul_abs_bound(
                self.a2 as int,
                old(state).y2 as int,
                COEFF_MAG as int,
                SIGNAL_MAG as int,
            );
        }
        let acc: i128 = (self.b0 as i128) * (x0 as i128) + (self.b1 as i128) * (state.x1 as i128)
            + (self.b2 as i128) * (state.x2 as i128) + (self.a1 as i128) * (state.y1 as i128) + (
        self.a2 as i128) * (state.y2 as i128);
        proof {
            lemma_tdiv_bound(acc as int, Q as int, 0x80000000000000000000 as int);
        }
        let mut y: i128 = tdiv_i128(acc, Q as i128) + (self.u as i128);
        let lo = self.min as i128;
        let hi = self.max as i128;
        if y < lo {
            y = lo;
        }
        if y > hi {
            y = hi;
        }
        let y64 = y as i64;
        state.x2 = state.x1;
        state.x1 = x0;
        state.y2 = state.y1;
        state.y1 = y64;
        y64
    }
}

impl Biquad {
    /// Derives the filter from PID parameters, reproducing the sign
    /// conventions exactly: `ki`, `kd` and every finite gain limit take
    /// their magnitude with `kp`'s sign; infinite limits pass through;
    /// the sample period is `1/1007` s; the summing-junction offset
    /// realizes an input offset of `-setpoint`; the output bounds come
    /// from `min`/`max` with infinities substituted. Fails exactly on a
    /// finite gain limit of zero.
    #[verifier::rlimit(80)]
    pub fn try_from_pid(pid: &Pid) -> (r: Result<Biquad, PidBuildError>)
        requires
            pid.wf(),
        ensures
            r is Ok <==> pid_ok(*pid),
            r matches Ok(b) ==> b == biquad_of(*pid) && b.wf(),
            r matches Err(e) ==> e == PidBuildError::LimitZero,
    {
        if let Some(l) = pid.li {
            if l == 0 {
                return Err(PidBuildError::LimitZero);
            }
        }
        if let Some(l) = pid.ld {
            if l == 0 {
                return Err(PidBuildError::LimitZero);
            }
        }
        let kin: i64 = if pid.kp < 0 {
            if pid.ki >= 0 {
                -pid.ki
            } else {
                pid.ki
            }
        } else {
            if pid.ki < 0 {
                -pid.ki
            } else {
                pid.ki
            }
        };
        let kdn: i64 = if pid.kp < 0 {
            if pid.kd >= 0 {
                -pid.kd
            } else {
                pid.kd
            }
        } else {
            if pid.kd < 0 {
                -pid.kd
            } else {
                pid.kd
            }
        };
        let gi: i128 = tdiv_i128(kin as i128, SAMPLE_RATE_HZ as i128);
        let gp: i128 = pid.kp as i128;
        let gd: i128 = (kdn as i128) * (SAMPLE_RATE_HZ as i128);
        proof {
            lemma_tdiv_bound(kin as int, SAMPLE_RATE_HZ as int, GAIN_MAG as int);
            assert(GAIN_MAG as int * SAMPLE_RATE_HZ as int == 0x40000000 * 1007);
            assert(gi as int == gain_i_spec(*pid));
            assert(gd as int == gain_d_spec(*pid));
            assert(-0x10000000000 <= gd as int <= 0x10000000000);
        }
        let lir: i128 = match pid.li {
            Some(l) => {
                let la: i128 = if l < 0 {
                    -(l as i128)
                } else {
                    l as i128
                };
                let ga: i128 = if gi < 0 {
                    -gi
                } else {
                    gi
                };
                proof {
                    lemma_mul_inequality(1, la as int, 0x4000000000000);
                    assert(ga * 65536 <= 0x4000000000000 * la) by (nonlinear_arith)
                        requires
                            0 <= ga <= 0x40000000,
                            la >= 1,
                    ;
                    lemma_tdiv_bound(ga as int * 65536, la as int, 0x4000000000000);
                }
                tdiv_i128(ga * 65536, la)
            },
            None => 0,
        };
        let ldr: i128 = match pid.ld {
            Some(l) => {
                let la: i128 = if l < 0 {
                    -(l as i128)
                } else {
                    l as i128
                };
                let ga: i128 = if gd < 0 {
                    -gd
                } else {
                    gd
                };
                proof {
                    lemma_mul_inequality(1, la as int, 0x1000000000000000);
                    assert(ga * 65536 <= 0x1000000000000000 * la) by (nonlinear_arith)
                        requires
                            0 <= ga <= 0x10000000000,
                            la >= 1,
                    ;
                    lemma_tdiv_bound(ga as int * 65536, la as int, 0x1000000000000000);
                }
                tdiv_i128(ga * 65536, la)
            },
            None => 0,
        };
        proof {
            assert(lir as int == ratio_spec(gain_i_spec(*pid), pid.li));
            assert(ldr as int == ratio_spec(gain_d_spec(*pid), pid.ld));
            assert(0 <= lir <= 0x4000000000000 * 65536);
            assert(0 <= ldr <= 0x1000000000000000 * 65536);
        }
        let b0: i128;
        let b1: i128;
        let b2: i128;
        let a1: i128;
        let a2: i128;
        if pid.ki == 0 {
            let a0: i128 = 65536 + ldr;
            proof {
                lemma_coeff_bound((gp + gd) * 65536, a0 as int, 0x20000000000);
                lemma_coeff_bound(-gd * 65536, a0 as int, 0x10000000000);
                assert(ldr * 65536 <= 65536 * a0) by (nonlinear_arith)
                    requires
                        0 <= ldr,
                        a0 >= ldr,
                ;
                lemma_tdiv_bound(ldr as int * 65536, a0 as int, 65536);
            }
            b0 = tdiv_i128((gp + gd) * 65536, a0);
            b1 = tdiv_i128(-gd * 65536, a0);
            b2 = 0;
            a1 = tdiv_i128(ldr * 65536, a0);
            a2 = 0;
        } else {
            let a0: i128 = 65536 + lir + ldr;
            proof {
                lemma_coeff_bound((gi + gp + gd) * 65536, a0 as int, 0x20000000000);
                lemma_coeff_bound((-gp - 2 * gd) * 65536, a0 as int, 0x40000000000);
                lemma_coeff_bound(gd * 65536, a0 as int, 0x10000000000);
                assert((65536 + 2 * ldr) * 65536 <= 0x20000 * a0) by (nonlinear_arith)
                    requires
                        0 <= ldr,
                        0 <= lir,
                        a0 == 65536 + lir + ldr,
                ;
                lemma_tdiv_bound((65536 + 2 * ldr) as int * 65536, a0 as int, 0x20000);
                assert(ldr * 65536 <= 65536 * a0) by (nonlinear_arith)
                    requires
                        0 <= ldr,
                        0 <= lir,
                        a0 == 65536 + lir + ldr,
                ;
                lemma_tdiv_bound(ldr as int * 65536, a0 as int, 65536);
            }
            b0 = tdiv_i128((gi + gp + gd) * 65536, a0);
            b1 = tdiv_i128((-gp - 2 * gd) * 65536, a0);
            b2 = tdiv_i128(gd * 65536, a0);
            a1 = tdiv_i128((65536 + 2 * ldr) * 65536, a0);
            a2 = -tdiv_i128(ldr * 65536, a0);
        }
        let sb: i128 = b0 + b1 + b2;
        proof {
            assert(-0x100000000000 <= sb as int <= 0x100000000000);
            lemma_mul_abs_bound(pid.setpoint as int, sb as int, GAIN_MAG as int, 0x100000000000);
            assert(-(pid.setpoint as int) * (sb as int) == -((pid.setpoint as int) * (sb as int)))
                by (nonlinear_arith);
            lemma_tdiv_bound(
                -(pid.setpoint as int) * (sb as int),
                65536,
                0x400000000000000,
            );
        }
        let u: i128 = tdiv_i128(-(pid.setpoint as i128) * sb, 65536);
        let mn: i64 = match pid.min {
            Some(v) => v,
            None => -SIGNAL_MAG,
        };
        let mx: i64 = match pid.max {
            Some(v) => v,
            None => SIGNAL_MAG,
        };
        let b = Biquad {
            b0: b0 as i64,
            b1: b1 as i64,
            b2: b2 as i64,
            a1: a1 as i64,
            a2: a2 as i64,
            u: u as i64,
            min: mn,
            max: mx,
        };
        proof {
            assert(b == biquad_of(*pid));
        }
        Ok(b)
    }
}

proof fn lemma_coeff_bound(n: int, a0: int, m: int)
    requires
        a0 >= 65536,
        0 <= m,
        -(m * 65536) <= n <= m * 65536,
    ensures
        -m <= tdiv(n, a0) <= m,
{
    assert(-(m * a0) <= n <= m * a0) by (nonlinear_arith)
        requires
            a0 >= 65536,
            0 <= m,
            -(m * 65536) <= n <= m * 65536,
    ;
    lemma_tdiv_bound(n, a0, m);
}

/// Temperature matrix entries within the accepted magnitude.
pub open spec fn temps_ok(t: [[i64; 4]; 4]) -> bool {
    forall|i: int, j: int|
        0 <= i < 4 && 0 <= j < 4 ==> -TEMP_MAG <= #[trigger] t[i][j] <= TEMP_MAG
}

/// Weight matrix entries within one (Q16.16), as normalization leaves
/// them.
pub open spec fn weights_wf(w: [[i64; 4]; 4]) -> bool {
    forall|i: int, j: int| 0 <= i < 4 && 0 <= j < 4 ==> -(Q as int) <= #[trigger] w[i][j] <= Q as int
}

/// Sum of the first `k` (of 16, row-major) products of temperatures and
/// weights.
pub open spec fn wsum(t: [[i64; 4]; 4], w: [[i64; 4]; 4], k: int) -> int
    decreases k,
{
    if k <= 0 {
        0
    } else {
        wsum(t, w, k - 1) + (t[(k - 1) / 4][(k - 1) % 4] as int) * (w[(k - 1) / 4][(k - 1) % 4]
            as int)
    }
}

/// The mixed control-loop input: the full weighted sum brought back to
/// Q16.16.
pub open spec fn mixed_input(t: [[i64; 4]; 4], w: [[i64; 4]; 4]) -> int {
    tdiv(wsum(t, w, 16), Q as int)
}

/// Sum of the magnitudes of the first `k` (of 16, row-major) weights.
pub open spec fn weights_abs_sum(w: [[i64; 4]; 4], k: int) -> int
    decreases k,
{
    if k <= 0 {
        0
    } else {
        weights_abs_sum(w, k - 1) + abs_i(w[(k - 1) / 4][(k - 1) % 4] as int)
    }
}

/// One output channel: operating state, user parameters, input weights
/// and the live filter.
pub struct OutputChannel {
    pub state: State,
    /// Maximum absolute TEC voltage, millivolt; clamped to the hardware
    /// ceiling by `finalize_settings`.
    pub voltage_limit: i64,
    /// User PID parameters; take effect through `finalize_settings`.
    pub pid: Pid,
    /// The live filter, derived from `pid` and safety-clamped.
    pub iir: Biquad,
    /// Input weights, one per (ADC channel, sensor slot) pair;
    /// normalized by `finalize_settings` so the magnitudes sum to one
    /// unless all are zero.
    pub weights: [[i64; 4]; 4],
}

impl OutputChannel {
    /// The channel is ready for ticks: filter and weights in range.
    pub open spec fn wf(&self) -> bool {
        &&& self.iir.wf()
        &&& weights_wf(self.weights)
    }

    /// One control tick: mixes the temperature matrix with the weight
    /// matrix; when `On`, advances the filter with the mixed input and
    /// returns the new bounded output; in `Hold` or `Off`, leaves the
    /// filter state untouched and repeats the last output.
    pub fn update(&self, temperatures: &[[i64; 4]; 4], iir_state: &mut FilterState) -> (y: i64)
        requires
            self.wf(),
            old(iir_state).wf(),
            temps_ok(*temperatures),
        ensures
            self.state == State::On ==> *final(iir_state) == stepped(
                self.iir,
                *old(iir_state),
                mixed_input(*temperatures, self.weights),
            ) && y as int == out_of(
                self.iir,
                *old(iir_state),
                mixed_input(*temperatures, self.weights),
            ),
            self.state != State::On ==> *final(iir_state) == *old(iir_state) && y == old(
                iir_state,
            ).y1,
            final(iir_state).wf(),
            y == final(iir_state).y1,
    {
        let mut acc: i128 = 0;
        let mut k: usize = 0;
        while k < 16
            invariant
                0 <= k <= 16,
                temps_ok(*temperatures),
                weights_wf(self.weights),
                acc as int == wsum(*temperatures, self.weights, k as int),
                -((k as int) * 0x10000000000000) <= acc as int <= (k as int) * 0x10000000000000,
            decreases 16 - k,
        {
            let i = k / 4;
            let j = k % 4;
            proof {
                lemma_mul_abs_bound(
                    temperatures[i as int][j as int] as int,
                    self.weights[i as int][j as int] as int,
                    TEMP_MAG as int,
                    Q as int,
                );
            }
            acc = acc + (temperatures[i][j] as i128) * (self.weights[i][j] as i128);
            k = k + 1;
        }
        proof {
            lemma_tdiv_bound(acc as int, Q as int, SIGNAL_MAG as int);
        }
        let x0 = tdiv_i128(acc, Q as i128) as i64;
        match self.state {
            State::On => self.iir.update(iir_state, x0),
            State::Hold => iir_state.y1,
            State::Off => iir_state.y1,
        }
    }
}

proof fn lemma_abs_sum_nonneg(w: [[i64; 4]; 4], k: int)
    ensures
        0 <= weights_abs_sum(w, k),
    decreases k,
{
    if k > 0 {
        lemma_abs_sum_nonneg(w, k - 1);
    }
}

proof fn lemma_abs_sum_mono(w: [[i64; 4]; 4], a: int, b: int)
    requires
        a <= b,
    ensures
        weights_abs_sum(w, a) <= weights_abs_sum(w, b),
    decreases b - a,
{
    if a < b {
        lemma_abs_sum_mono(w, a, b - 1);
    }
}

/// Each weight's magnitude is at most the sum of magnitudes over any
/// prefix containing it.
proof fn lemma_elem_le_abs_sum(w: [[i64; 4]; 4], m: int, k: int)
    requires
        0 <= m < k,
    ensures
        abs_i(w[m / 4][m % 4] as int) <= weights_abs_sum(w, k),
{
    lemma_abs_sum_nonneg(w, m);
    lemma_abs_sum_mono(w, m + 1, k);
}

/// Prefix sums of magnitudes agree on arrays that agree on the prefix.
proof fn lemma_abs_sum_congruent(a: [[i64; 4]; 4], b: [[i64; 4]; 4], k: int)
    requires
        forall|m: int| 0 <= m < k ==> #[trigger] a[m / 4][m % 4] == b[m / 4][m % 4],
    ensures
        weights_abs_sum(a, k) == weights_abs_sum(b, k),
    decreases k,
{
    if k > 0 {
        lemma_abs_sum_congruent(a, b, k - 1);
    }
}

/// Normalizes the weight matrix: when the magnitudes' sum `d` is
/// nonzero every weight becomes `w * Q / d` (truncating), so the
/// magnitudes afterwards sum to one (Q16.16) up to the 16 truncations;
/// an all-zero matrix stays untouched.
fn normalize_weights(w: &mut [[i64; 4]; 4])
    ensures
        ({
            let d = weights_abs_sum(*old(w), 16);
            &&& (d == 0 ==> *final(w) == *old(w))
            &&& (d != 0 ==> forall|i: int, j: int|
                0 <= i < 4 && 0 <= j < 4 ==> #[trigger] final(w)[i][j] as int == tdiv(
                    (old(w)[i][j] as int) * (Q as int),
                    d,
                ))
            &&& (d != 0 ==> (Q as int) - 16 < weights_abs_sum(*final(w), 16) <= Q as int)
            &&& weights_wf(*final(w))
        }),
{
    let ghost w0 = *w;
    let mut d: i128 = 0;
    let mut k: usize = 0;
    while k < 16
        invariant
            0 <= k <= 16,
            *w == w0,
            d as int == weights_abs_sum(w0, k as int),
            0 <= d as int <= (k as int) * 0x8000000000000000,
        decreases 16 - k,
    {
        let i = k / 4;
        let j = k % 4;
        let v = w[i][j];
        let av: i128 = if v < 0 {
            -(v as i128)
        } else {
            v as i128
        };
        d = d + av;
        k = k + 1;
    }
    if d == 0 {
        proof {
            assert forall|i: int, j: int| 0 <= i < 4 && 0 <= j < 4 implies -(Q as int)
                <= #[trigger] w0[i][j] && w0[i][j] <= Q as int by {
                let m = 4 * i + j;
                lemma_elem_le_abs_sum(w0, m, 16);
                lemma_abs_sum_mono(w0, m + 1, 16);
            }
        }
        return ;
    }
    let mut k: usize = 0;
    while k < 16
        invariant
            0 <= k <= 16,
            0 < d as int,
            d as int == weights_abs_sum(w0, 16),
            forall|m: int|
                k <= m < 16 ==> #[trigger] w[m / 4][m % 4] == w0[m / 4][m % 4],
            forall|m: int|
                0 <= m < k ==> #[trigger] w[m / 4][m % 4] as int == tdiv(
                    (w0[m / 4][m % 4] as int) * (Q as int),
                    d as int,
                ),
            forall|m: int|
                0 <= m < k ==> -(Q as int) <= #[trigger] w[m / 4][m % 4] as int <= Q as int,
            (d as int) * weights_abs_sum(*w, k as int) <= (Q as int) * weights_abs_sum(
                w0,
                k as int,
            ),
            (Q as int) * weights_abs_sum(w0, k as int) <= (d as int) * weights_abs_sum(
                *w,
                k as int,
            ) + (k as int) * (d as int - 1),
        decreases 16 - k,
    {
        let ghost wpre = *w;
        let i = k / 4;
        let j = k % 4;
        let v = w[i][j];
        proof {
            assert(v == w0[k as int / 4][k as int % 4]);
            lemma_elem_le_abs_sum(w0, k as int, 16);
            assert(abs_i(v as int) * 65536 <= (d as int) * 65536) by (nonlinear_arith)
                requires
                    abs_i(v as int) <= d as int,
                    0 <= abs_i(v as int),
            ;
            lemma_tdiv_bound((v as int) * 65536, d as int, 65536);
        }
        let nv128: i128 = tdiv_i128((v as i128) * 65536, d);
        let nv: i64 = nv128 as i64;
        let mut row = w[i];
        row[j] = nv;
        w[i] = row;
        proof {
            let dd = d as int;
            let qq = Q as int;
            let a = abs_i(v as int);
            let f = abs_i(nv as int);
            assert forall|m: int| k + 1 <= m < 16 implies #[trigger] w[m / 4][m % 4] == w0[m
                / 4][m % 4] by {
                assert(m != k);
                if m / 4 == i {
                    assert(m % 4 != j);
                }
            }
            assert forall|m: int| 0 <= m < k + 1 implies #[trigger] w[m / 4][m % 4] as int
                == tdiv((w0[m / 4][m % 4] as int) * qq, dd) by {
                if m < k {
                    assert(w[m / 4][m % 4] == wpre[m / 4][m % 4]);
                }
            }
            // the prefix k is untouched by the write, so its sum carries over
            assert forall|m: int| 0 <= m < k implies #[trigger] wpre[m / 4][m % 4] == w[m / 4][m
                % 4] by {
                assert(m != k);
                if m / 4 == i {
                    assert(m % 4 != j);
                }
            }
            lemma_abs_sum_congruent(*w, wpre, k as int);
            assert(w[k as int / 4][k as int % 4] == nv);
            assert(weights_abs_sum(*w, k as int + 1) == weights_abs_sum(wpre, k as int) + f);
            // truncating division keeps the magnitude relation
            assert(f == (a * qq) / dd);
            lemma_fundamental_div_mod(a * qq, dd);
            assert(dd * f <= a * qq <= dd * f + (dd - 1));
            lemma_mul_is_distributive_add(dd, weights_abs_sum(wpre, k as int), f);
            lemma_mul_is_distributive_add(qq, weights_abs_sum(w0, k as int), a);
            assert(weights_abs_sum(w0, k as int + 1) == weights_abs_sum(w0, k as int) + a);
            assert((k as int + 1) * (dd - 1) == (k as int) * (dd - 1) + (dd - 1)) by (nonlinear_arith);
        }
        k = k + 1;
    }
    proof {
        let dd = d as int;
        let qq = Q as int;
        let sn = weights_abs_sum(*w, 16);
        assert(dd * sn <= qq * dd && qq * dd <= dd * sn + 16 * (dd - 1));
        assert(sn <= qq && qq - 16 < sn) by (nonlinear_arith)
            requires
                dd > 0,
                dd * sn <= qq * dd,
                qq * dd <= dd * sn + 16 * (dd - 1),
                qq == 65536,
        ;
        assert forall|i: int, j: int| 0 <= i < 4 && 0 <= j < 4 implies -(qq)
            <= #[trigger] w[i][j] && w[i][j] <= qq by {
            let m = 4 * i + j;
            assert(m / 4 == i && m % 4 == j) by (nonlinear_arith)
                requires
                    m == 4 * i + j,
                    0 <= j < 4,
                    0 <= i,
            ;
            assert(w[m / 4][m % 4] as int == tdiv((w0[m / 4][m % 4] as int) * qq, dd));
        }
        assert forall|i: int, j: int| 0 <= i < 4 && 0 <= j < 4 implies #[trigger] w[i][j]
            as int == tdiv((w0[i][j] as int) * qq, dd) by {
            let m = 4 * i + j;
            assert(m / 4 == i && m % 4 == j) by (nonlinear_arith)
                requires
                    m == 4 * i + j,
                    0 <= j < 4,
                    0 <= i,
            ;
            assert(w[m / 4][m % 4] as int == tdiv((w0[m / 4][m % 4] as int) * qq, dd));
        }
    }
}

/// The non-negotiable output-current ceiling: the smaller of the
/// largest DAC-representable current and the PWM current-limit ceiling.
pub open spec fn safety_range_spec() -> int {
    if DAC_MAX_CURRENT_Q < pwm::MAX_CURRENT_LIMIT_Q {
        DAC_MAX_CURRENT_Q as int
    } else {
        pwm::MAX_CURRENT_LIMIT_Q as int
    }
}

/// The filter with its output bounds clamped into the safety range.
pub open spec fn clamp_biquad(b: Biquad) -> Biquad {
    Biquad {
        min: clamp_i(b.min as int, -safety_range_spec(), safety_range_spec()) as i64,
        max: clamp_i(b.max as int, -safety_range_spec(), safety_range_spec()) as i64,
        ..b
    }
}

/// The output-current safety ceiling, Q16.16 ampere.
pub fn safety_range_q() -> (r: i64)
    ensures
        r as int == safety_range_spec(),
        0 < r,
{
    if DAC_MAX_CURRENT_Q < pwm::MAX_CURRENT_LIMIT_Q {
        DAC_MAX_CURRENT_Q
    } else {
        pwm::MAX_CURRENT_LIMIT_Q
    }
}

fn clamp_i64(v: i64, lo: i64, hi: i64) -> (r: i64)
    ensures
        r as int == clamp_i(v as int, lo as int, hi as int),
{
    let m = if v < lo {
        lo
    } else {
        v
    };
    if m > hi {
        hi
    } else {
        m
    }
}

/// Safety clamp: whatever output bounds a configuration requests, the
/// clamped filter's bounds lie within plus/minus the hardware safety
/// range.
pub proof fn lemma_safety_clamp(b: Biquad)
    ensures
        -safety_range_spec() <= clamp_biquad(b).min as int <= safety_range_spec(),
        -safety_range_spec() <= clamp_biquad(b).max as int <= safety_range_spec(),
{
}

/// A pure proportional loop with unit gain and setpoint 25: one tick
/// from rest on a mixed input of 26 (error 1) puts out exactly 1.0
/// (Q16.16) after the safety clamp, since 1.0 lies inside the ceiling.
pub proof fn lemma_proportional_scenario()
    ensures
        ({
            let pid = Pid {
                ki: 0,
                kp: 65536,
                kd: 0,
                li: None,
                ld: None,
                setpoint: 1638400,
                min: None,
                max: None,
            };
            let b = clamp_biquad(biquad_of(pid));
            let s0 = FilterState { x1: 0, x2: 0, y1: 0, y2: 0 };
            out_of(b, s0, 26int * 65536) == 65536
        }),
{
    let pid = Pid {
        ki: 0,
        kp: 65536,
        kd: 0,
        li: None,
        ld: None,
        setpoint: 1638400,
        min: None,
        max: None,
    };
    assert(gain_i_spec(pid) == 0);
    assert(gain_d_spec(pid) == 0);
    assert(ratio_spec(0, None::<i64>) == 0);
    let bq = biquad_of(pid);
    assert(bq.b0 == 65536 && bq.b1 == 0 && bq.b2 == 0 && bq.a1 == 0 && bq.a2 == 0);
    assert(-(pid.setpoint as int) * (65536int + 0) == -107374182400) by (nonlinear_arith)
        requires
            pid.setpoint == 1638400,
    ;
    assert(107374182400int / 65536 == 1638400);
    assert(tdiv(-107374182400, 65536) == -1638400);
    assert(bq.u == -1638400);
    let b = clamp_biquad(bq);
    assert(b.b0 == 65536 && b.u == -1638400);
    assert(b.min as int == -safety_range_spec() && b.max as int == safety_range_spec());
    let s0 = FilterState { x1: 0, x2: 0, y1: 0, y2: 0 };
    let x0: int = 26int * 65536;
    assert(x0 == 1703936);
    assert((b.b0 as int) * x0 == 111669149696) by (nonlinear_arith)
        requires
            b.b0 == 65536,
            x0 == 1703936,
    ;
    assert((b.b1 as int) * (s0.x1 as int) == 0 && (b.b2 as int) * (s0.x2 as int) == 0 && (
    b.a1 as int) * (s0.y1 as int) == 0 && (b.a2 as int) * (s0.y2 as int) == 0)
        by (nonlinear_arith)
        requires
            s0.x1 == 0 && s0.x2 == 0 && s0.y1 == 0 && s0.y2 == 0,
    ;
    assert(111669149696int / 65536 == 1703936);
    assert(raw_out(b, s0, x0) == 1703936 - 1638400);
    assert(raw_out(b, s0, x0) == 65536);
}

impl Default for Biquad {
    /// The identity-off filter: zero coefficients and offset, output
    /// bounds at the safety ceiling.
    fn default() -> (r: Biquad)
        ensures
            r.b0 == 0 && r.b1 == 0 && r.b2 == 0 && r.a1 == 0 && r.a2 == 0 && r.u == 0,
            r.min as int == -safety_range_spec(),
            r.max as int == safety_range_spec(),
            r.wf(),
    {
        let range = safety_range_q();
        Biquad { b0: 0, b1: 0, b2: 0, a1: 0, a2: 0, u: 0, min: -range, max: range }
    }
}

impl OutputChannel {
    /// Applies a changed configuration: rebuilds the filter from `pid`
    /// (keeping the previous filter when the build is rejected), clamps
    /// the filter's output bounds into the safety range, clamps the
    /// voltage limit to the hardware ceiling, and normalizes the weight
    /// matrix. Must run after every external write to `pid`, `weights`
    /// or `voltage_limit`.
    pub fn finalize_settings(&mut self)
        requires
            old(self).pid.wf(),
            old(self).iir.wf(),
        ensures
            final(self).state == old(self).state,
            final(self).pid == old(self).pid,
            final(self).iir == clamp_biquad(
                if pid_ok(old(self).pid) {
                    biquad_of(old(self).pid)
                } else {
                    old(self).iir
                },
            ),
            -safety_range_spec() <= final(self).iir.min as int <= safety_range_spec(),
            -safety_range_spec() <= final(self).iir.max as int <= safety_range_spec(),
            final(self).voltage_limit as int == clamp_i(
                old(self).voltage_limit as int,
                0,
                pwm::MAX_VOLTAGE_LIMIT_MV as int,
            ),
            ({
                let d = weights_abs_sum(old(self).weights, 16);
                &&& (d == 0 ==> final(self).weights == old(self).weights)
                &&& (d != 0 ==> forall|i: int, j: int|
                    0 <= i < 4 && 0 <= j < 4 ==> #[trigger] final(self).weights[i][j] as int
                        == tdiv((old(self).weights[i][j] as int) * (Q as int), d))
                &&& (d != 0 ==> (Q as int) - 16 < weights_abs_sum(final(self).weights, 16) <= (
                Q as int))
            }),
            final(self).wf(),
    {
        match Biquad::try_from_pid(&self.pid) {
            Ok(b) => {
                self.iir = b;
            },
            Err(_) => {},
        }
        let range = safety_range_q();
        self.iir.max = clamp_i64(self.iir.max, -range, range);
        self.iir.min = clamp_i64(self.iir.min, -range, range);
        self.voltage_limit = clamp_i64(self.voltage_limit, 0, pwm::MAX_VOLTAGE_LIMIT_MV);
        normalize_weights(&mut self.weights);
    }

    /// Advisory limits for the downstream current-limit hardware: the
    /// filter's bounds with 5% of the PWM ceiling added outward, the
    /// upper one never below zero and the lower one never above zero.
    pub fn current_limits(&self) -> (r: [i64; 2])
        requires
            self.iir.wf(),
        ensures
            r[0] as int == if self.iir.max as int + CURRENT_LIMIT_HEADROOM_Q as int > 0 {
                self.iir.max as int + CURRENT_LIMIT_HEADROOM_Q as int
            } else {
                0
            },
            r[1] as int == if (self.iir.min as int - CURRENT_LIMIT_HEADROOM_Q as int) < 0 {
                self.iir.min as int - CURRENT_LIMIT_HEADROOM_Q as int
            } else {
                0
            },
    {
        let up = self.iir.max + CURRENT_LIMIT_HEADROOM_Q;
        let lo = self.iir.min - CURRENT_LIMIT_HEADROOM_Q;
        [
            if up > 0 {
                up
            } else {
                0
            },
            if lo < 0 {
                lo
            } else {
                0
            },
        ]
    }
}

impl Default for OutputChannel {
    /// A fresh channel: Off, hardware-ceiling voltage limit, zero
    /// gains, identity-off filter, all-zero weights.
    fn default() -> (r: OutputChannel)
        ensures
            r.state == State::Off,
            r.voltage_limit == pwm::MAX_VOLTAGE_LIMIT_MV,
            r.pid.ki == 0 && r.pid.kp == 0 && r.pid.kd == 0,
            r.pid.li is None && r.pid.ld is None,
            r.pid.setpoint == 25 * Q,
            r.pid.min is None && r.pid.max is None,
            r.iir.b0 == 0 && r.iir.b1 == 0 && r.iir.b2 == 0 && r.iir.a1 == 0 && r.iir.a2 == 0,
            r.iir.u == 0,
            r.iir.min as int == -safety_range_spec(),
            r.iir.max as int == safety_range_spec(),
            forall|i: int, j: int| 0 <= i < 4 && 0 <= j < 4 ==> #[trigger] r.weights[i][j] == 0,
            r.wf(),
            r.pid.wf(),
    {
        OutputChannel {
            state: State::Off,
            voltage_limit: pwm::MAX_VOLTAGE_LIMIT_MV,
            pid: Default::default(),
            iir: Default::default(),
            weights: [[0i64; 4], [0i64; 4], [0i64; 4], [0i64; 4]],
        }
    }
}

} // verus!
