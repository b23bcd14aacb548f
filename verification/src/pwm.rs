//! Limits of the PWM current/voltage-limit hardware.
//!
//! The PWM driver itself is an external collaborator; the control core
//! only consumes its clamp ceilings.

use vstd::prelude::*;

verus! {

/// Maximum TEC voltage limit the hardware can enforce, in millivolt.
pub const MAX_VOLTAGE_LIMIT_MV: i64 = 4300;

/// Maximum TEC current limit the hardware can enforce, in Q16.16 ampere
/// (3 A).
pub const MAX_CURRENT_LIMIT_Q: i64 = 3 * 65536;

} // verus!
