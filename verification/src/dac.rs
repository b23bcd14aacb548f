//! Driver for the four-channel TEC-drive DAC.
//!
//! A requested TEC current is converted into a bounded DAC code through
//! the linear relation of the output stage: the control voltage is
//! `current * 10 * R_sense + V_ref_tec` and the code is that voltage
//! scaled by `2^20 / V_ref_dac`. With `R_sense = 0.05 Ohm` the factor
//! `10 * R_sense` is exactly `1/2`, so in integer micro-units the
//! voltage is `current_ua / 2 + VREF_TEC_UV` (division toward zero).
//!
//! Each of the four DAC channels has its own sync (chip-select) line;
//! one 3-byte frame per write carries the 20-bit code field (18-bit DAC
//! word plus 2 don't-care alignment bits) with 4 leading zero bits.

use vstd::prelude::*;
use vstd::arithmetic::div_mod::lemma_div_is_ordered;
use vstd::arithmetic::div_mod::lemma_div_pos_is_pos;
use vstd::arithmetic::mul::lemma_mul_inequality;
use crate::arith::lemma_div_at_least;
use crate::arith::lemma_div_below;
use crate::bus::ChipSelect;
use crate::bus::SpiBus;
use crate::frames::be_bytes_of;
use crate::frames::encode_be;

verus! {

/// TEC driver reference voltage, in microvolt.
pub const VREF_TEC_UV: i64 = 1_500_000;

/// DAC reference voltage, in microvolt.
pub const VREF_DAC_UV: i64 = 3_000_000;

/// Reciprocal of `10 * R_sense` with `R_sense = 0.05 Ohm`: the current
/// to control-voltage conversion divides by this factor.
pub const CURRENT_TO_VOLTAGE_DIV: i64 = 2;

/// Exclusive upper bound of the DAC code field (18-bit word plus 2
/// alignment bits).
pub const MAX_DAC_WORD: i64 = 0x100000;

/// The largest current (in microampere) whose code is `MAX_DAC_WORD - 1`,
/// computed from the reference voltages and the sense-resistor factor:
/// the largest representable control voltage is `VREF_DAC_UV - 1`
/// microvolt, and the `+ 1` restores the microampere lost to the
/// toward-zero halving.
pub const MAX_CURRENT_UA: i64 = (VREF_DAC_UV - 1 - VREF_TEC_UV) * CURRENT_TO_VOLTAGE_DIV + 1;

/// Requested current out of the representable code range.
#[derive(Clone, Copy, Debug, PartialEq, Eq, Structural)]
pub enum Error {
    Bounds,
}

/// Integer division by two rounding toward zero, as the hardware
/// conversion applies it to signed currents.
pub open spec fn half_toward_zero(c: int) -> int {
    if c >= 0 {
        c / 2
    } else {
        -((-c) / 2)
    }
}

/// The control voltage (microvolt) requested by a current (microampere).
pub open spec fn ctli_voltage_uv(current_ua: int) -> int {
    half_toward_zero(current_ua) + VREF_TEC_UV
}

/// The DAC code a current maps to (floor of the scaled control voltage);
/// it is a valid code only when it lies in `[0, MAX_DAC_WORD)`.
pub open spec fn dac_code_of(current_ua: int) -> int {
    (ctli_voltage_uv(current_ua) * MAX_DAC_WORD) / (VREF_DAC_UV as int)
}

/// Halving toward zero never decreases with its argument.
proof fn lemma_half_monotonic(a: int, b: int)
    requires
        a <= b,
    ensures
        half_toward_zero(a) <= half_toward_zero(b),
{
    if a >= 0 {
        lemma_div_is_ordered(a, b, 2);
    } else if b < 0 {
        lemma_div_is_ordered(-b, -a, 2);
    } else {
        lemma_div_pos_is_pos(-a, 2);
        lemma_div_pos_is_pos(b, 2);
    }
}

/// A larger requested current never yields a smaller DAC code.
pub proof fn lemma_dac_code_monotonic(a: int, b: int)
    requires
        a <= b,
    ensures
        dac_code_of(a) <= dac_code_of(b),
{
    lemma_half_monotonic(a, b);
    lemma_mul_inequality(ctli_voltage_uv(a), ctli_voltage_uv(b), MAX_DAC_WORD as int);
    lemma_div_is_ordered(
        ctli_voltage_uv(a) * MAX_DAC_WORD,
        ctli_voltage_uv(b) * MAX_DAC_WORD,
        VREF_DAC_UV as int,
    );
}

/// Zero requested current maps to the control voltage `VREF_TEC_UV`
/// exactly, at the mid-scale code.
pub proof fn lemma_zero_current_code()
    ensures
        ctli_voltage_uv(0) == VREF_TEC_UV,
        dac_code_of(0) == 0x80000,
{
}

/// `MAX_CURRENT_UA` is exactly the largest current that maps to the top
/// code `MAX_DAC_WORD - 1`: every larger current is out of range.
pub proof fn lemma_max_current()
    ensures
        dac_code_of(MAX_CURRENT_UA as int) == MAX_DAC_WORD - 1,
        forall|c: int| c > MAX_CURRENT_UA ==> dac_code_of(c) >= MAX_DAC_WORD,
{
    assert(half_toward_zero(MAX_CURRENT_UA as int) == 1_499_999);
    assert(dac_code_of(MAX_CURRENT_UA as int) == MAX_DAC_WORD - 1);
    assert(half_toward_zero(3_000_000) == 1_500_000);
    assert(dac_code_of(3_000_000) == MAX_DAC_WORD);
    assert forall|c: int| c > MAX_CURRENT_UA implies dac_code_of(c) >= MAX_DAC_WORD by {
        lemma_dac_code_monotonic(3_000_000, c);
    }
}

/// A DAC sample: a code in `[0, MAX_DAC_WORD)`, constructed only through
/// the fallible conversion from a physical current.
#[derive(Clone, Copy, Debug)]
pub struct DacCode {
    code: u32,
}

impl DacCode {
    /// The numeric code.
    pub closed spec fn value(&self) -> u32 {
        self.code
    }

    /// A well-formed code lies in the 20-bit field.
    pub open spec fn wf(&self) -> bool {
        self.value() < MAX_DAC_WORD
    }

    /// The numeric code.
    pub fn code(&self) -> (r: u32)
        ensures
            r == self.value(),
    {
        self.code
    }

    /// The code commanding zero TEC current (mid-scale).
    pub fn zero() -> (r: DacCode)
        ensures
            r.wf(),
            r.value() as int == dac_code_of(0),
    {
        proof {
            lemma_zero_current_code();
        }
        DacCode { code: 0x80000 }
    }

    /// Converts a requested TEC current (microampere) into a DAC code.
    /// Returns `Err(Bounds)` exactly when the computed code falls outside
    /// `[0, MAX_DAC_WORD)`.
    pub fn try_from_current(current_ua: i64) -> (r: Result<DacCode, Error>)
        ensures
            r matches Ok(c) ==> c.wf() && c.value() as int == dac_code_of(current_ua as int),
            (r matches Ok(c) <==> 0 <= dac_code_of(current_ua as int) < MAX_DAC_WORD),
            (r matches Err(e) ==> e == Error::Bounds),
    {
        if current_ua <= -3_000_002 {
            // The control voltage would be negative.
            proof {
                lemma_div_at_least(-(current_ua as int), 2, 1_500_001);
                lemma_mul_inequality(ctli_voltage_uv(current_ua as int), -1, MAX_DAC_WORD as int);
                lemma_div_below(ctli_voltage_uv(current_ua as int) * MAX_DAC_WORD, VREF_DAC_UV as int, 0);
            }
            return Err(Error::Bounds);
        }
        if current_ua >= 3_000_000 {
            // The control voltage would reach the DAC reference.
            proof {
                lemma_div_at_least(current_ua as int, 2, 1_500_000);
                lemma_div_at_least(
                    ctli_voltage_uv(current_ua as int) * MAX_DAC_WORD,
                    VREF_DAC_UV as int,
                    MAX_DAC_WORD as int,
                );
                lemma_mul_inequality(
                    VREF_DAC_UV as int,
                    ctli_voltage_uv(current_ua as int),
                    MAX_DAC_WORD as int,
                );
            }
            return Err(Error::Bounds);
        }
        let half: i64 = if current_ua >= 0 {
            ((current_ua as u64) / 2) as i64
        } else {
            -((((-current_ua) as u64) / 2) as i64)
        };
        let v: u64 = (half + VREF_TEC_UV) as u64;
        proof {
            if current_ua < 0 {
                lemma_div_is_ordered(-(current_ua as int), 3_000_001, 2);
            } else {
                lemma_div_is_ordered(current_ua as int, 2_999_999, 2);
                lemma_div_pos_is_pos(current_ua as int, 2);
            }
            assert(0 <= (v as int) && (v as int) < VREF_DAC_UV);
            assert(v as int == ctli_voltage_uv(current_ua as int));
            lemma_mul_inequality(v as int, VREF_DAC_UV - 1, MAX_DAC_WORD as int);
            lemma_div_below((v as int) * MAX_DAC_WORD, VREF_DAC_UV as int, MAX_DAC_WORD as int);
            lemma_div_pos_is_pos((v as int) * MAX_DAC_WORD, VREF_DAC_UV as int);
            vstd::arithmetic::mul::lemma_mul_is_commutative(v as int, MAX_DAC_WORD as int);
            vstd::arithmetic::mul::lemma_mul_inequality(v as int, 3_000_000, 0x100000);
        }
        let code: u64 = (v * 0x100000) / 3_000_000;
        Ok(DacCode { code: code as u32 })
    }
}

impl From<DacCode> for u32 {
    /// The numeric code of a sample.
    fn from(code: DacCode) -> (r: u32) {
        code.code
    }
}

impl vstd::std_specs::convert::FromSpecImpl<DacCode> for u32 {
    open spec fn obeys_from_spec() -> bool {
        true
    }

    open spec fn from_spec(code: DacCode) -> u32 {
        code.value()
    }
}

/// Output channel index: one per DAC channel / sync line.
#[derive(Clone, Copy, Debug, PartialEq, Eq, Structural)]
pub enum OutputChannelIdx {
    Zero,
    One,
    Two,
    Three,
}

impl OutputChannelIdx {
    /// The numeric channel index.
    pub open spec fn index_spec(self) -> int {
        match self {
            OutputChannelIdx::Zero => 0,
            OutputChannelIdx::One => 1,
            OutputChannelIdx::Two => 2,
            OutputChannelIdx::Three => 3,
        }
    }
}

/// The four DAC sync (chip-select) lines, one per output channel.
pub struct DacPins<CS> {
    pub sync: (CS, CS, CS, CS),
}

/// DAC driver: the shared serial bus and the four sync lines.
pub struct Dac<SPI, CS> {
    spi: SPI,
    pins: DacPins<CS>,
}

impl<SPI: SpiBus, CS: ChipSelect> Dac<SPI, CS> {
    /// Frames this driver has put on its bus, oldest first.
    pub closed spec fn frames_sent(&self) -> Seq<Seq<u8>> {
        self.spi.sent()
    }

    /// Whether channel `i`'s sync line rests high (deasserted).
    pub closed spec fn sync_high(&self, i: int) -> bool {
        if i == 0 {
            self.pins.sync.0.is_high()
        } else if i == 1 {
            self.pins.sync.1.is_high()
        } else if i == 2 {
            self.pins.sync.2.is_high()
        } else {
            self.pins.sync.3.is_high()
        }
    }

    /// The 3-byte write frame of a code: 4 leading zero bits, the 20-bit
    /// code field (2 trailing alignment bits included), big-endian.
    pub open spec fn code_frame(code: u32) -> Seq<u8> {
        be_bytes_of(code as nat, 3)
    }

    /// Constructs the DAC driver: deasserts all four sync lines, then
    /// commands zero current on every channel (fail-safe default).
    pub fn new(spi: SPI, pins: DacPins<CS>) -> (r: Dac<SPI, CS>)
        ensures
            r.frames_sent() == spi.sent() + seq![
                Self::code_frame(0x80000),
                Self::code_frame(0x80000),
                Self::code_frame(0x80000),
                Self::code_frame(0x80000),
            ],
            forall|i: int| 0 <= i < 4 ==> r.sync_high(i),
    {
        let mut dac = Dac { spi, pins };
        dac.pins.sync.0.set_high();
        dac.pins.sync.1.set_high();
        dac.pins.sync.2.set_high();
        dac.pins.sync.3.set_high();

        let zero = DacCode::zero();
        dac.set(OutputChannelIdx::Zero, zero);
        dac.set(OutputChannelIdx::One, zero);
        dac.set(OutputChannelIdx::Two, zero);
        dac.set(OutputChannelIdx::Three, zero);
        proof {
            assert(dac.frames_sent() =~= spi.sent() + seq![
                Self::code_frame(0x80000),
                Self::code_frame(0x80000),
                Self::code_frame(0x80000),
                Self::code_frame(0x80000),
            ]);
        }
        dac
    }

    /// Writes a code to one channel: asserts that channel's sync line,
    /// sends the 3-byte frame, deasserts the line. The other sync lines
    /// are untouched.
    pub fn set(&mut self, ch: OutputChannelIdx, dac_code: DacCode)
        requires
            dac_code.wf(),
        ensures
            final(self).frames_sent() == old(self).frames_sent().push(
                Self::code_frame(dac_code.value()),
            ),
            final(self).sync_high(ch.index_spec()),
            forall|i: int|
                0 <= i < 4 && i != ch.index_spec() ==> final(self).sync_high(i) == old(
                    self,
                ).sync_high(i),
    {
        let buf = encode_be(dac_code.code(), 3);
        match ch {
            OutputChannelIdx::Zero => {
                self.pins.sync.0.set_low();
                self.spi.send(&buf);
                self.pins.sync.0.set_high();
            },
            OutputChannelIdx::One => {
                self.pins.sync.1.set_low();
                self.spi.send(&buf);
                self.pins.sync.1.set_high();
            },
            OutputChannelIdx::Two => {
                self.pins.sync.2.set_low();
                self.spi.send(&buf);
                self.pins.sync.2.set_high();
            },
            OutputChannelIdx::Three => {
                self.pins.sync.3.set_low();
                self.spi.send(&buf);
                self.pins.sync.3.set_high();
            },
        }
    }
}

} // verus!
