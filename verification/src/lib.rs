//! Sensing-to-actuation core of a multi-channel precision temperature
//! controller driving thermo-electric coolers (TECs).
//!
//! The crate covers the register-protocol drivers for the ADC and the DAC,
//! the sensor calibration curve with its interpolation routine, and the
//! per-output-channel control pipeline (weighted sensor mixing, PID-derived
//! biquad filtering, state-machine gating and safety clamping).
//!
//! All analog quantities (temperatures, currents, voltages, gains) are
//! carried as fixed-point integers so that every numeric step has an exact
//! contract: currents and voltages in micro-units, control quantities in
//! Q16.16 (`x` represents `x / 65536` in physical units).

pub mod ad7172;
pub mod arith;
pub mod bus;
pub mod dac;
pub mod dt670;
pub mod frames;
pub mod output_channel;
pub mod pwm;
